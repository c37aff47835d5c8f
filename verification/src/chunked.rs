//! Chunked streaming body transform with deferred trailer signing.
//!
//! Wraps a byte stream of exactly known decoded length and reframes it into
//! length-prefixed chunks, followed by a terminal zero-length chunk and a
//! trailer section holding a checksum of the payload and, optionally, a
//! signature delivered through a deferred handoff by a later pipeline stage.
//! The transform is a pull-driven state machine: the host feeds it payload
//! pieces as they arrive and collects the framed bytes it hands back.

use vstd::prelude::*;

use crate::checksum::{
    checksum_fed, checksum_finalize, checksum_new, checksum_update, crc32_trailer_value,
    ChecksumState,
};
use crate::handoff::{DeferredHandoff, HandoffState};
use crate::wire::{
    chunk_frame, crlf, dec_rep, lemma_trailer_section_push, trailer_line, trailer_section,
    zero_chunk, COLON, CR, LF,
};

verus! {

/// Errors of the body transform.
#[derive(Clone, Copy, Debug, PartialEq, Eq, Structural)]
pub enum BodyTransformError {
    /// The wrapped source could not report an exact byte length up front;
    /// this framing is only valid over sources of known total size.
    UnsizedBody,
    /// The deferred signing value was never delivered: the producer side
    /// dropped out before fulfilling the handoff.
    HandoffAbandoned,
}

/// One trailer field, by how its value is obtained.
#[derive(Debug)]
pub enum TrailerField {
    /// A value known before streaming starts.
    Immediate { name: Vec<u8>, value: Vec<u8> },
    /// The running checksum of the payload, finalized once the payload has
    /// fully drained.
    Checksum { name: Vec<u8> },
    /// A value delivered through the deferred handoff by a later pipeline
    /// stage.
    DeferredSignature { name: Vec<u8> },
}

/// Where the transform stands in its drain.
#[derive(Clone, Copy, Debug)]
pub enum TransformPhase {
    /// Payload chunks are still being framed.
    Payload,
    /// The terminal zero-length chunk is out; the trailer is still owed.
    Trailer,
    /// The trailer is out; the message is complete.
    Done,
}

/// The signature bytes a handoff state carries, if any.
pub open spec fn spec_sig_value(st: HandoffState) -> Seq<u8> {
    match st {
        HandoffState::Fulfilled(v) => v,
        _ => Seq::empty(),
    }
}

/// The name/value pair a field resolves to, for a given payload and
/// signature.
pub open spec fn resolved_field(f: TrailerField, payload: Seq<u8>, sig: Seq<u8>) -> (
    Seq<u8>,
    Seq<u8>,
) {
    match f {
        TrailerField::Immediate { name, value } => (name@, value@),
        TrailerField::Checksum { name } => (name@, crc32_trailer_value(payload)),
        TrailerField::DeferredSignature { name } => (name@, sig),
    }
}

/// The name/value pairs a field list resolves to, in order.
pub open spec fn resolved_fields(fields: Seq<TrailerField>, payload: Seq<u8>, sig: Seq<u8>) -> Seq<
    (Seq<u8>, Seq<u8>),
> {
    Seq::new(fields.len(), |i: int| resolved_field(fields[i], payload, sig))
}

/// The serialized length of one trailer line, counting a checksum value at
/// its known eight bytes and a deferred value at the caller's placeholder
/// length.
pub open spec fn spec_trailer_line_len(f: TrailerField, deferred_value_len: int) -> int {
    match f {
        TrailerField::Immediate { name, value } => name@.len() as int + 1 + value@.len() as int
            + 2,
        TrailerField::Checksum { name } => name@.len() as int + 1 + 8 + 2,
        TrailerField::DeferredSignature { name } => name@.len() as int + 1 + deferred_value_len
            + 2,
    }
}

/// The serialized length of the whole trailer: every line, then the blank
/// CRLF line ending the message.
pub open spec fn spec_trailer_total_len(fields: Seq<TrailerField>, deferred_value_len: int) -> int
    decreases fields.len(),
{
    if fields.len() == 0 {
        2
    } else {
        spec_trailer_line_len(fields.first(), deferred_value_len) + spec_trailer_total_len(
            fields.drop_first(),
            deferred_value_len,
        )
    }
}

/// Law behind the pre-stream length: once the checksum value comes out at
/// its eight bytes and the deferred value at the placeholder length, the
/// emitted trailer (lines plus the blank terminator) is exactly as long as
/// `spec_trailer_total_len` said before streaming started.
pub proof fn lemma_trailer_length_exact(
    fields: Seq<TrailerField>,
    payload: Seq<u8>,
    sig: Seq<u8>,
    deferred_value_len: int,
)
    requires
        crc32_trailer_value(payload).len() == 8,
        sig.len() == deferred_value_len,
    ensures
        trailer_section(resolved_fields(fields, payload, sig)).len() + 2 == spec_trailer_total_len(
            fields,
            deferred_value_len,
        ),
    decreases fields.len(),
{
    let resolved = resolved_fields(fields, payload, sig);
    if fields.len() == 0 {
        assert(resolved =~= Seq::<(Seq<u8>, Seq<u8>)>::empty());
    } else {
        lemma_trailer_length_exact(fields.drop_first(), payload, sig, deferred_value_len);
        assert(resolved.drop_first() =~= resolved_fields(fields.drop_first(), payload, sig));
        assert(trailer_section(resolved) == trailer_line(resolved.first().0, resolved.first().1)
            + trailer_section(resolved.drop_first()));
        assert(resolved.first() == resolved_field(fields.first(), payload, sig));
    }
}

/// Unfolding of the trailer length over the suffix starting at `j`.
proof fn lemma_trailer_suffix_step(fields: Seq<TrailerField>, d: int, j: int)
    requires
        0 <= j < fields.len(),
    ensures
        spec_trailer_total_len(fields.skip(j), d) == spec_trailer_line_len(fields[j], d)
            + spec_trailer_total_len(fields.skip(j + 1), d),
{
    assert(fields.skip(j).first() == fields[j]);
    assert(fields.skip(j).drop_first() =~= fields.skip(j + 1));
}

/// Every suffix's trailer length still holds the blank terminating line.
proof fn lemma_trailer_suffix_at_least_blank(fields: Seq<TrailerField>, d: int, j: int)
    requires
        0 <= j <= fields.len(),
        d >= 0,
    ensures
        spec_trailer_total_len(fields.skip(j), d) >= 2,
    decreases fields.len() - j,
{
    if j == fields.len() {
        assert(fields.skip(j) =~= Seq::<TrailerField>::empty());
    } else {
        lemma_trailer_suffix_step(fields, d, j);
        lemma_trailer_suffix_at_least_blank(fields, d, j + 1);
    }
}

/// No suffix's trailer length passes the whole trailer's length.
proof fn lemma_trailer_suffix_within_total(fields: Seq<TrailerField>, d: int, j: int)
    requires
        0 <= j <= fields.len(),
        d >= 0,
    ensures
        spec_trailer_total_len(fields.skip(j), d) <= spec_trailer_total_len(fields, d),
    decreases j,
{
    if j == 0 {
        assert(fields.skip(0) =~= fields);
    } else {
        lemma_trailer_suffix_within_total(fields, d, j - 1);
        lemma_trailer_suffix_step(fields, d, j - 1);
    }
}

/// Whether some field carries the payload checksum.
pub open spec fn has_checksum_field(fields: Seq<TrailerField>) -> bool {
    exists|i: int| 0 <= i < fields.len() && fields[i] is Checksum
}

/// Whether some field awaits the deferred signature.
pub open spec fn has_deferred_field(fields: Seq<TrailerField>) -> bool {
    exists|i: int| 0 <= i < fields.len() && fields[i] is DeferredSignature
}

/// The chunked body transform: a state machine from payload pieces to framed
/// wire bytes.
pub struct ChunkedBodyTransform {
    declared_length: u64,
    sent: u64,
    phase: TransformPhase,
    fields: Vec<TrailerField>,
    checksum: Option<ChecksumState>,
    payload_seen: Ghost<Seq<u8>>,
}

impl ChunkedBodyTransform {
    /// The exact decoded byte length the transform was declared with.
    pub closed spec fn spec_declared_length(&self) -> u64 {
        self.declared_length
    }

    /// How many payload bytes have been framed so far.
    pub closed spec fn spec_sent(&self) -> u64 {
        self.sent
    }

    /// Where the drain stands.
    pub closed spec fn spec_phase(&self) -> TransformPhase {
        self.phase
    }

    /// The configured trailer fields.
    pub closed spec fn spec_fields(&self) -> Seq<TrailerField> {
        self.fields@
    }

    /// Exactly the payload bytes framed so far, in order.
    pub closed spec fn payload_seen(&self) -> Seq<u8> {
        self.payload_seen@
    }

    /// Internal consistency: the byte count matches the bytes seen, the count
    /// never passes the declared length, the checksum state (present exactly
    /// when a checksum field is configured, until the trailer is resolved)
    /// has been fed exactly the payload, and the trailer phases are only
    /// reached once the whole declared payload has been framed.
    pub closed spec fn wf(&self) -> bool {
        &&& self.payload_seen@.len() == self.sent as int
        &&& self.sent <= self.declared_length
        &&& ((self.phase is Payload || self.phase is Trailer) ==> (self.checksum is Some
            <==> has_checksum_field(self.fields@)))
        &&& (self.checksum matches Some(c) ==> checksum_fed(c) == self.payload_seen@)
        &&& ((self.phase is Trailer || self.phase is Done) ==> self.sent == self.declared_length)
    }

    /// Ordering guarantee behind the deferred value: in the trailer phases —
    /// the only phases in which `resolve_trailers` may run and the handoff
    /// may be read — the whole declared payload has already been framed.
    pub proof fn lemma_trailer_only_after_payload(&self)
        requires
            self.wf(),
        ensures
            self.payload_seen().len() == self.spec_sent() as int,
            self.spec_sent() <= self.spec_declared_length(),
            (self.spec_phase() is Trailer || self.spec_phase() is Done)
                ==> self.payload_seen().len() == self.spec_declared_length() as int,
    {
    }

    /// Constructs a transform over a source whose exact decoded length is
    /// known; a source that cannot report one is refused as an unsized body.
    pub fn new(declared_length: Option<u64>, fields: Vec<TrailerField>) -> (r: Result<
        ChunkedBodyTransform,
        BodyTransformError,
    >)
        ensures
            match declared_length {
                Some(n) => r matches Ok(t) && t.wf() && t.spec_declared_length() == n
                    && t.spec_sent() == 0 && t.payload_seen() == Seq::<u8>::empty()
                    && t.spec_phase() is Payload && t.spec_fields() == fields@,
                None => r == Err::<ChunkedBodyTransform, BodyTransformError>(
                    BodyTransformError::UnsizedBody,
                ),
            },
    {
        let n = match declared_length {
            Some(n) => n,
            None => {
                return Err(BodyTransformError::UnsizedBody);
            },
        };
        let mut has_ck = false;
        let mut i: usize = 0;
        while i < fields.len()
            invariant
                0 <= i <= fields.len(),
                has_ck == exists|j: int| 0 <= j < i && fields@[j] is Checksum,
            decreases fields.len() - i,
        {
            match &fields[i] {
                TrailerField::Checksum { .. } => {
                    has_ck = true;
                    assert(fields@[i as int] is Checksum);
                },
                _ => {
                    assert(!(fields@[i as int] is Checksum));
                },
            }
            i = i + 1;
        }
        assert(has_ck == has_checksum_field(fields@));
        let checksum = if has_ck {
            Some(checksum_new())
        } else {
            None
        };
        Ok(
            ChunkedBodyTransform {
                declared_length: n,
                sent: 0,
                phase: TransformPhase::Payload,
                fields,
                checksum,
                payload_seen: Ghost(Seq::empty()),
            },
        )
    }

    /// The declared decoded length, for the header naming the true content
    /// length.
    pub fn declared_length(&self) -> (r: u64)
        ensures
            r == self.spec_declared_length(),
    {
        self.declared_length
    }

    /// How many payload bytes have been framed so far; the payload is
    /// complete when this reaches the declared length.
    pub fn bytes_sent(&self) -> (r: u64)
        ensures
            r == self.spec_sent(),
    {
        self.sent
    }

    /// The declared decoded length as the decimal ASCII bytes a length
    /// header carries.
    pub fn decoded_length_header_value(&self) -> (r: Vec<u8>)
        ensures
            r@ == dec_rep(self.spec_declared_length() as nat),
    {
        crate::wire::dec_of_u64(self.declared_length)
    }

    /// The total serialized length of the trailer section, computable before
    /// any payload byte is read: the checksum value counts at its known
    /// eight bytes and a deferred value at the caller's placeholder length.
    /// The sum must fit the return type.
    pub fn trailer_length(&self, deferred_value_len: u64) -> (r: u64)
        requires
            spec_trailer_total_len(self.spec_fields(), deferred_value_len as int) <= u64::MAX,
        ensures
            r == spec_trailer_total_len(self.spec_fields(), deferred_value_len as int),
    {
        let ghost d = deferred_value_len as int;
        let mut total: u64 = 2;
        let mut i: usize = self.fields.len();
        proof {
            assert(self.fields@.skip(i as int) =~= Seq::<TrailerField>::empty());
        }
        while i > 0
            invariant
                0 <= i <= self.fields.len(),
                d == deferred_value_len as int,
                total == spec_trailer_total_len(self.fields@.skip(i as int), d),
                spec_trailer_total_len(self.fields@, d) <= u64::MAX,
            decreases i,
        {
            i = i - 1;
            proof {
                lemma_trailer_suffix_step(self.fields@, d, i as int);
                lemma_trailer_suffix_within_total(self.fields@, d, i as int);
                lemma_trailer_suffix_at_least_blank(self.fields@, d, i as int + 1);
            }
            let line_len: u64 = match &self.fields[i] {
                TrailerField::Immediate { name, value } => {
                    name.len() as u64 + 1 + value.len() as u64 + 2
                },
                TrailerField::Checksum { name } => name.len() as u64 + 1 + 8 + 2,
                TrailerField::DeferredSignature { name } => {
                    name.len() as u64 + 1 + deferred_value_len + 2
                },
            };
            total = total + line_len;
        }
        proof {
            assert(self.fields@.skip(0) =~= self.fields@);
        }
        total
    }

    /// Frames the next piece of the payload as one chunk and feeds it into
    /// the running checksum. Pieces must be nonempty (an empty frame would
    /// read as the terminal marker) and must not pass the declared length.
    pub fn next_payload_chunk(&mut self, data: &[u8]) -> (out: Vec<u8>)
        requires
            old(self).wf(),
            old(self).spec_phase() is Payload,
            data@.len() >= 1,
            data@.len() <= old(self).spec_declared_length() - old(self).spec_sent(),
        ensures
            final(self).wf(),
            out@ == chunk_frame(data@),
            final(self).payload_seen() == old(self).payload_seen() + data@,
            final(self).spec_sent() == old(self).spec_sent() + data@.len(),
            final(self).spec_phase() is Payload,
            final(self).spec_declared_length() == old(self).spec_declared_length(),
            final(self).spec_fields() == old(self).spec_fields(),
    {
        match &mut self.checksum {
            Some(c) => checksum_update(c, data),
            None => {},
        }
        proof {
            self.payload_seen@ = self.payload_seen@ + data@;
        }
        self.sent = self.sent + data.len() as u64;
        let mut out = crate::wire::hex_of_u64(data.len() as u64);
        out.push(CR);
        out.push(LF);
        push_all(&mut out, data);
        out.push(CR);
        out.push(LF);
        proof {
            assert(out@ =~= chunk_frame(data@));
        }
        out
    }

    /// Emits the terminal zero-length chunk once the whole declared payload
    /// has been framed, and moves to the trailer phase.
    pub fn finish_payload(&mut self) -> (out: Vec<u8>)
        requires
            old(self).wf(),
            old(self).spec_phase() is Payload,
            old(self).spec_sent() == old(self).spec_declared_length(),
        ensures
            final(self).wf(),
            out@ == zero_chunk(),
            final(self).spec_phase() is Trailer,
            final(self).payload_seen() == old(self).payload_seen(),
            final(self).spec_sent() == old(self).spec_sent(),
            final(self).spec_declared_length() == old(self).spec_declared_length(),
            final(self).spec_fields() == old(self).spec_fields(),
    {
        self.phase = TransformPhase::Trailer;
        let mut out: Vec<u8> = Vec::new();
        out.push(48);
        out.push(CR);
        out.push(LF);
        proof {
            assert(out@ =~= zero_chunk());
        }
        out
    }

    /// Resolves every trailer value and emits the trailer section followed
    /// by the blank line terminating the message. Immediate values are used
    /// directly; the checksum is finalized over exactly the payload bytes;
    /// a deferred signature is taken from the handoff, which the host must
    /// have seen resolved first (a suspending host waits before calling).
    /// An abandoned handoff fails the drain with `HandoffAbandoned` and not
    /// one trailer byte is emitted.
    pub fn resolve_trailers(&mut self, signature: &mut DeferredHandoff) -> (out: Result<
        Vec<u8>,
        BodyTransformError,
    >)
        requires
            old(self).wf(),
            old(self).spec_phase() is Trailer,
            has_deferred_field(old(self).spec_fields()) ==> (old(signature)@ is Fulfilled || old(
                signature,
            )@ is Abandoned),
        ensures
            final(self).wf(),
            final(self).payload_seen() == old(self).payload_seen(),
            final(self).spec_declared_length() == old(self).spec_declared_length(),
            final(self).spec_fields() == old(self).spec_fields(),
            !has_deferred_field(old(self).spec_fields()) ==> *final(signature) == *old(signature),
            has_deferred_field(old(self).spec_fields()) && old(signature)@ is Abandoned ==> (out
                == Err::<Vec<u8>, BodyTransformError>(BodyTransformError::HandoffAbandoned)
                && final(self).spec_phase() is Trailer),
            (has_deferred_field(old(self).spec_fields()) ==> old(signature)@ is Fulfilled) ==> (
            out matches Ok(bytes) && bytes@ == trailer_section(
                resolved_fields(
                    old(self).spec_fields(),
                    old(self).payload_seen(),
                    spec_sig_value(old(signature)@),
                ),
            ) + crlf() && final(self).spec_phase() is Done),
    {
        let ghost sigv = spec_sig_value(old(signature)@);
        // Find out whether a deferred field is configured at all.
        let mut has_def = false;
        let mut i: usize = 0;
        while i < self.fields.len()
            invariant
                0 <= i <= self.fields.len(),
                has_def == exists|j: int| 0 <= j < i && self.fields@[j] is DeferredSignature,
                self == old(self),
            decreases self.fields.len() - i,
        {
            match &self.fields[i] {
                TrailerField::DeferredSignature { .. } => {
                    has_def = true;
                    assert(self.fields@[i as int] is DeferredSignature);
                },
                _ => {
                    assert(!(self.fields@[i as int] is DeferredSignature));
                },
            }
            i = i + 1;
        }
        assert(has_def == has_deferred_field(self.fields@));
        // Take the deferred value first: if the producer abandoned the slot,
        // the drain fails before anything is emitted.
        let mut sig_bytes: Vec<u8> = Vec::new();
        if has_def {
            match signature.take() {
                Ok(v) => {
                    sig_bytes = v;
                },
                Err(_) => {
                    return Err(BodyTransformError::HandoffAbandoned);
                },
            }
        }
        assert(has_def ==> sig_bytes@ == sigv);
        // Finalize the checksum over exactly the payload bytes fed so far.
        let ck = self.checksum.take();
        let ck_bytes: Option<Vec<u8>> = match ck {
            Some(c) => Some(checksum_finalize(c)),
            None => None,
        };
        let ghost resolved = resolved_fields(self.fields@, self.payload_seen@, sigv);
        let mut out_bytes: Vec<u8> = Vec::new();
        let mut i: usize = 0;
        while i < self.fields.len()
            invariant
                0 <= i <= self.fields.len(),
                resolved == resolved_fields(self.fields@, self.payload_seen@, sigv),
                resolved.len() == self.fields@.len(),
                out_bytes@ == trailer_section(resolved.take(i as int)),
                has_deferred_field(self.fields@) ==> sig_bytes@ == sigv,
                has_checksum_field(self.fields@) ==> (ck_bytes matches Some(v) && v@
                    == crc32_trailer_value(self.payload_seen@)),
                self.fields@ == old(self).spec_fields(),
                self.payload_seen@ == old(self).payload_seen(),
            decreases self.fields.len() - i,
        {
            let ghost prev = out_bytes@;
            match &self.fields[i] {
                TrailerField::Immediate { name, value } => {
                    emit_trailer_line(&mut out_bytes, name, value.as_slice());
                },
                TrailerField::Checksum { name } => {
                    assert(has_checksum_field(self.fields@)) by {
                        assert(self.fields@[i as int] is Checksum);
                    }
                    match &ck_bytes {
                        Some(v) => {
                            emit_trailer_line(&mut out_bytes, name, v.as_slice());
                        },
                        None => {
                            proof {
                                assert(false);
                            }
                        },
                    }
                },
                TrailerField::DeferredSignature { name } => {
                    assert(has_deferred_field(self.fields@)) by {
                        assert(self.fields@[i as int] is DeferredSignature);
                    }
                    emit_trailer_line(&mut out_bytes, name, sig_bytes.as_slice());
                },
            }
            proof {
                let f = resolved[i as int];
                assert(out_bytes@ == prev + trailer_line(f.0, f.1));
                lemma_trailer_section_push(resolved.take(i as int), f);
                assert(resolved.take(i as int).push(f) =~= resolved.take(i as int + 1));
            }
            i = i + 1;
        }
        proof {
            assert(resolved.take(resolved.len() as int) =~= resolved);
        }
        out_bytes.push(CR);
        out_bytes.push(LF);
        self.phase = TransformPhase::Done;
        proof {
            assert(out_bytes@ =~= trailer_section(resolved) + crlf());
        }
        Ok(out_bytes)
    }
}

/// Appends every byte of `data` to `out`.
fn push_all(out: &mut Vec<u8>, data: &[u8])
    ensures
        final(out)@ == old(out)@ + data@,
{
    let mut i: usize = 0;
    while i < data.len()
        invariant
            0 <= i <= data.len(),
            out@ == old(out)@ + data@.take(i as int),
        decreases data.len() - i,
    {
        let b = data[i];
        out.push(b);
        proof {
            assert(old(out)@ + data@.take(i as int) + seq![data@[i as int]] =~= old(out)@
                + data@.take(i as int + 1));
        }
        i = i + 1;
    }
    proof {
        assert(data@.take(data@.len() as int) =~= data@);
    }
}

/// Appends one trailer line: name, colon, value, CRLF.
fn emit_trailer_line(out: &mut Vec<u8>, name: &Vec<u8>, value: &[u8])
    ensures
        final(out)@ == old(out)@ + trailer_line(name@, value@),
{
    push_all(out, name.as_slice());
    out.push(COLON);
    push_all(out, value);
    out.push(CR);
    out.push(LF);
    proof {
        assert(old(out)@ + name@ + seq![COLON] + value@ + seq![CR] + seq![LF] =~= old(out)@
            + trailer_line(name@, value@));
    }
}

/// Pipeline stage that swaps an outgoing sized streaming body for its
/// chunked transform and sets up the deferred signing handoff. The host's
/// pipeline adapter drives it: it constructs the transform from the body's
/// exact length, attaches the two headers the transform's accessors provide,
/// and runs the drain.
#[derive(Debug)]
pub struct AwsChunkedContentEncodingInterceptor;

impl AwsChunkedContentEncodingInterceptor {
    /// Creates the stage.
    pub fn new() -> (r: Self)
        ensures
            true,
    {
        AwsChunkedContentEncodingInterceptor
    }
}

/// The content-encoding marker identifying this framing: the ASCII bytes of
/// `aws-chunked`.
pub open spec fn encoding_marker_spec() -> Seq<u8> {
    seq![97u8, 119u8, 115u8, 45u8, 99u8, 104u8, 117u8, 110u8, 107u8, 101u8, 100u8]
}

/// The content-encoding marker identifying this framing.
pub fn encoding_marker() -> (r: Vec<u8>)
    ensures
        r@ == encoding_marker_spec(),
{
    let mut v: Vec<u8> = Vec::new();
    v.push(97);
    v.push(119);
    v.push(115);
    v.push(45);
    v.push(99);
    v.push(104);
    v.push(117);
    v.push(110);
    v.push(107);
    v.push(101);
    v.push(100);
    proof {
        assert(v@ =~= encoding_marker_spec());
    }
    v
}

} // verus!
