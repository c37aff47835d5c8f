//! Endpoint override detection.
//!
//! A configured endpoint URL that does not point at a standard `amazonaws`
//! domain is a custom endpoint, which the host records as a usage feature.
//! The decision is plain substring containment over the URL's bytes.

use vstd::prelude::*;

verus! {

/// Whether `needle` occurs contiguously somewhere in `haystack`.
pub open spec fn contains_seq(haystack: Seq<u8>, needle: Seq<u8>) -> bool {
    exists|i: int|
        0 <= i && i + needle.len() <= haystack.len() && #[trigger] haystack.subrange(
            i,
            i + needle.len(),
        ) == needle
}

/// The ASCII bytes of the standard domain suffix `.amazonaws.com`.
pub open spec fn aws_domain_suffix() -> Seq<u8> {
    seq![46u8, 97u8, 109u8, 97u8, 122u8, 111u8, 110u8, 97u8, 119u8, 115u8, 46u8, 99u8, 111u8, 109u8]
}

/// The ASCII bytes of the China-region domain suffix `.amazonaws.com.cn`.
pub open spec fn aws_cn_domain_suffix() -> Seq<u8> {
    aws_domain_suffix() + seq![46u8, 99u8, 110u8]
}

/// A URL is a custom endpoint when it names neither standard domain suffix.
pub open spec fn spec_is_custom_endpoint(url: Seq<u8>) -> bool {
    !contains_seq(url, aws_domain_suffix()) && !contains_seq(url, aws_cn_domain_suffix())
}

/// Whether `needle` occurs contiguously somewhere in `haystack`.
pub fn contains_subslice(haystack: &[u8], needle: &[u8]) -> (r: bool)
    ensures
        r == contains_seq(haystack@, needle@),
{
    let nlen = needle.len();
    let hlen = haystack.len();
    if nlen > hlen {
        return false;
    }
    if nlen == 0 {
        proof {
            assert(haystack@.subrange(0, 0 + needle@.len() as int) =~= needle@);
        }
        return true;
    }
    let mut i: usize = 0;
    while i <= hlen - nlen
        invariant
            1 <= nlen <= hlen,
            hlen == haystack@.len(),
            nlen == needle@.len(),
            0 <= i,
            i <= hlen - nlen + 1,
            forall|k: int|
                0 <= k < i ==> #[trigger] haystack@.subrange(k, k + needle@.len()) != needle@,
        decreases hlen - nlen + 1 - i,
    {
        let mut j: usize = 0;
        let mut is_match = true;
        while j < nlen && is_match
            invariant
                i + nlen <= hlen,
                hlen == haystack@.len(),
                nlen == needle@.len(),
                0 <= j <= nlen,
                is_match ==> (forall|t: int| 0 <= t < j ==> haystack@[i + t] == needle@[t]),
                !is_match ==> haystack@.subrange(i as int, i + needle@.len()) != needle@,
            decreases nlen - j + (if is_match {
                1int
            } else {
                0int
            }),
        {
            if haystack[i + j] != needle[j] {
                proof {
                    assert(haystack@.subrange(i as int, i + needle@.len())[j as int] == haystack@[i
                        + j]);
                }
                is_match = false;
            } else {
                j = j + 1;
            }
        }
        if is_match {
            proof {
                assert(haystack@.subrange(i as int, i + needle@.len()) =~= needle@);
            }
            return true;
        }
        i = i + 1;
    }
    proof {
        assert(!contains_seq(haystack@, needle@)) by {
            if contains_seq(haystack@, needle@) {
                let w = choose|k: int|
                    0 <= k && k + needle@.len() <= haystack@.len() && #[trigger] haystack@.subrange(
                        k,
                        k + needle@.len(),
                    ) == needle@;
                assert(w < i);
            }
        }
    }
    false
}

/// Whether the URL points anywhere but a standard `amazonaws` domain.
pub fn is_custom_endpoint(url: &[u8]) -> (r: bool)
    ensures
        r == spec_is_custom_endpoint(url@),
{
    let suffix = aws_suffix_bytes();
    let cn_suffix = aws_cn_suffix_bytes();
    let r = !contains_subslice(url, suffix.as_slice()) && !contains_subslice(
        url,
        cn_suffix.as_slice(),
    );
    r
}

/// Builds the `.amazonaws.com` suffix bytes.
fn aws_suffix_bytes() -> (r: Vec<u8>)
    ensures
        r@ == aws_domain_suffix(),
{
    let mut v: Vec<u8> = Vec::new();
    v.push(46);
    v.push(97);
    v.push(109);
    v.push(97);
    v.push(122);
    v.push(111);
    v.push(110);
    v.push(97);
    v.push(119);
    v.push(115);
    v.push(46);
    v.push(99);
    v.push(111);
    v.push(109);
    proof {
        assert(v@ =~= aws_domain_suffix());
    }
    v
}

/// Builds the `.amazonaws.com.cn` suffix bytes.
fn aws_cn_suffix_bytes() -> (r: Vec<u8>)
    ensures
        r@ == aws_cn_domain_suffix(),
{
    let mut v = aws_suffix_bytes();
    v.push(46);
    v.push(99);
    v.push(110);
    proof {
        assert(v@ =~= aws_cn_domain_suffix());
    }
    v
}

/// Pipeline stage that detects a configured custom endpoint URL so the host
/// can record it as a usage feature.
#[derive(Debug, Default)]
#[non_exhaustive]
pub struct EndpointOverrideInterceptor;

impl EndpointOverrideInterceptor {
    /// Creates a new `EndpointOverrideInterceptor`.
    pub fn new() -> (r: Self)
        ensures
            true,
    {
        EndpointOverrideInterceptor
    }

    /// The decision the stage makes early in request processing: record the
    /// override feature exactly when an endpoint URL was configured and it
    /// is a custom one.
    pub fn should_record_override(&self, endpoint_url: Option<&[u8]>) -> (r: bool)
        ensures
            r == match endpoint_url {
                Some(url) => spec_is_custom_endpoint(url@),
                None => false,
            },
    {
        match endpoint_url {
            Some(url) => is_custom_endpoint(url),
            None => false,
        }
    }
}

} // verus!
