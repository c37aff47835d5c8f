//! Resilience and transport core for a streaming HTTP client runtime:
//! a retry-admission token bucket, a one-shot deferred value handoff, and
//! a chunked body transform with trailing checksum and deferred signature.

pub mod checksum;
pub mod chunked;
pub mod endpoint;
pub mod handoff;
pub mod token_bucket;
pub mod wire;
