//! Wire format of the chunked transfer framing.
//!
//! Each chunk is the ASCII lowercase hex of its byte length, CRLF, the raw
//! bytes, CRLF. The stream ends with a zero-length chunk (`0` CRLF), zero or
//! more trailer lines of the form `name:value` CRLF, and a blank CRLF line
//! terminating the message. This module states that format as spec
//! functions, provides the verified digit formatters, and proves that a
//! decoder of the format gives back exactly the encoded payload and trailer
//! fields.

use vstd::prelude::*;

verus! {

/// Carriage return.
pub const CR: u8 = 13;

/// Line feed.
pub const LF: u8 = 10;

/// The `:` separating a trailer name from its value.
pub const COLON: u8 = 58;

/// The CRLF line terminator.
pub open spec fn crlf() -> Seq<u8> {
    seq![CR, LF]
}

/// The ASCII byte for hex digit `d` (lowercase letters from ten up).
pub open spec fn spec_hex_digit(d: int) -> u8 {
    if d < 10 {
        (48 + d) as u8
    } else {
        (87 + d) as u8
    }
}

/// The minimal lowercase ASCII-hex representation of `n`.
pub open spec fn hex_rep(n: nat) -> Seq<u8>
    decreases n,
{
    if n < 16 {
        seq![spec_hex_digit(n as int)]
    } else {
        hex_rep(n / 16) + seq![spec_hex_digit((n % 16) as int)]
    }
}

/// Whether `b` is an ASCII lowercase hex digit.
pub open spec fn is_hex_digit(b: u8) -> bool {
    (48 <= b && b <= 57) || (97 <= b && b <= 102)
}

/// The numeric value of hex digit byte `b`.
pub open spec fn hex_digit_value(b: u8) -> int {
    if b <= 57 {
        b - 48
    } else {
        b - 87
    }
}

/// The numeric value of a string of hex digit bytes, most significant first.
pub open spec fn hex_value(s: Seq<u8>) -> int
    decreases s.len(),
{
    if s.len() == 0 {
        0
    } else {
        hex_value(s.drop_last()) * 16 + hex_digit_value(s.last())
    }
}

/// How many leading bytes of `s` are hex digits.
pub open spec fn hex_prefix_len(s: Seq<u8>) -> nat
    decreases s.len(),
{
    if s.len() > 0 && is_hex_digit(s.first()) {
        1 + hex_prefix_len(s.drop_first())
    } else {
        0
    }
}

/// One framed chunk: hex length, CRLF, the bytes, CRLF.
pub open spec fn chunk_frame(data: Seq<u8>) -> Seq<u8> {
    hex_rep(data.len()) + crlf() + data + crlf()
}

/// The framing of a payload split into the given pieces, in order.
pub open spec fn frame_all(pieces: Seq<Seq<u8>>) -> Seq<u8>
    decreases pieces.len(),
{
    if pieces.len() == 0 {
        Seq::empty()
    } else {
        chunk_frame(pieces.first()) + frame_all(pieces.drop_first())
    }
}

/// The terminal zero-length chunk marker.
pub open spec fn zero_chunk() -> Seq<u8> {
    seq![48u8, CR, LF]
}

/// One trailer line: name, colon, value, CRLF.
pub open spec fn trailer_line(name: Seq<u8>, value: Seq<u8>) -> Seq<u8> {
    name + seq![COLON] + value + crlf()
}

/// The trailer lines for the given fields, in order.
pub open spec fn trailer_section(fields: Seq<(Seq<u8>, Seq<u8>)>) -> Seq<u8>
    decreases fields.len(),
{
    if fields.len() == 0 {
        Seq::empty()
    } else {
        trailer_line(fields.first().0, fields.first().1) + trailer_section(fields.drop_first())
    }
}

/// A whole encoded message: the framed payload pieces, the terminal chunk,
/// the trailer section, and the blank line ending the message.
pub open spec fn encoded_message(pieces: Seq<Seq<u8>>, fields: Seq<(Seq<u8>, Seq<u8>)>) -> Seq<u8> {
    frame_all(pieces) + zero_chunk() + trailer_section(fields) + crlf()
}

/// Appending one more field extends the trailer section by exactly that
/// field's line.
pub proof fn lemma_trailer_section_push(fields: Seq<(Seq<u8>, Seq<u8>)>, f: (Seq<u8>, Seq<u8>))
    ensures
        trailer_section(fields.push(f)) == trailer_section(fields) + trailer_line(f.0, f.1),
    decreases fields.len(),
{
    let s = fields.push(f);
    if fields.len() == 0 {
        assert(s.first() == f);
        assert(s.drop_first() =~= Seq::<(Seq<u8>, Seq<u8>)>::empty());
        assert(trailer_section(s.drop_first()) == Seq::<u8>::empty());
        assert(trailer_section(s) == trailer_line(f.0, f.1) + trailer_section(s.drop_first()));
        assert(trailer_section(fields) == Seq::<u8>::empty());
        assert(trailer_section(s) =~= trailer_section(fields) + trailer_line(f.0, f.1));
    } else {
        assert(s.len() == fields.len() + 1);
        assert(s.first() == fields.first());
        assert(s.drop_first() =~= fields.drop_first().push(f));
        assert(trailer_section(s) == trailer_line(fields.first().0, fields.first().1)
            + trailer_section(fields.drop_first().push(f)));
        lemma_trailer_section_push(fields.drop_first(), f);
        assert(trailer_section(fields) == trailer_line(fields.first().0, fields.first().1)
            + trailer_section(fields.drop_first()));
        assert(trailer_section(s) =~= trailer_section(fields) + trailer_line(f.0, f.1));
    }
}

/// A trailer name the framing can carry: nonempty, no colon, no CR, no LF.
pub open spec fn wf_trailer_name(name: Seq<u8>) -> bool {
    &&& name.len() > 0
    &&& forall|i: int| 0 <= i < name.len() ==> name[i] != COLON && name[i] != CR && name[i] != LF
}

/// A trailer value the framing can carry: no CR, no LF.
pub open spec fn wf_trailer_value(value: Seq<u8>) -> bool {
    forall|i: int| 0 <= i < value.len() ==> value[i] != CR && value[i] != LF
}

/// Well-formed trailer fields.
pub open spec fn wf_fields(fields: Seq<(Seq<u8>, Seq<u8>)>) -> bool {
    forall|i: int| 0 <= i < fields.len() ==> wf_trailer_name(#[trigger] fields[i].0)
        && wf_trailer_value(fields[i].1)
}

/// Payload pieces the framing keeps apart from the terminal marker: each
/// piece holds at least one byte.
pub open spec fn wf_pieces(pieces: Seq<Seq<u8>>) -> bool {
    forall|i: int| 0 <= i < pieces.len() ==> (#[trigger] pieces[i]).len() > 0
}

/// How many leading bytes of `s` could belong to a trailer name.
pub open spec fn name_prefix_len(s: Seq<u8>) -> nat
    decreases s.len(),
{
    if s.len() > 0 && s.first() != COLON && s.first() != CR && s.first() != LF {
        1 + name_prefix_len(s.drop_first())
    } else {
        0
    }
}

/// How many leading bytes of `s` could belong to a trailer value.
pub open spec fn value_prefix_len(s: Seq<u8>) -> nat
    decreases s.len(),
{
    if s.len() > 0 && s.first() != CR && s.first() != LF {
        1 + value_prefix_len(s.drop_first())
    } else {
        0
    }
}

/// What a decoder of the trailer section yields on `s`: the fields, if `s`
/// is exactly zero or more trailer lines followed by the blank CRLF line.
pub open spec fn decoded_trailers(s: Seq<u8>) -> Option<Seq<(Seq<u8>, Seq<u8>)>>
    decreases s.len(),
{
    if s.len() >= 2 && s[0] == CR && s[1] == LF {
        if s.len() == 2 {
            Some(Seq::empty())
        } else {
            None
        }
    } else {
        let nl = name_prefix_len(s) as int;
        if nl == 0 || s.len() < nl + 1 || s[nl] != COLON {
            None
        } else {
            let vl = value_prefix_len(s.skip(nl + 1)) as int;
            let value_end = nl + 1 + vl;
            if s.len() < value_end + 2 || s[value_end] != CR || s[value_end + 1] != LF {
                None
            } else {
                match decoded_trailers(s.skip(value_end + 2)) {
                    Some(rest) => Some(
                        seq![(s.take(nl), s.subrange(nl + 1, value_end))] + rest,
                    ),
                    None => None,
                }
            }
        }
    }
}

/// What a standard chunked-transfer decoder yields on `s`: the decoded
/// payload and the trailer fields, if `s` is exactly one whole well-formed
/// message.
pub open spec fn decoded_message(s: Seq<u8>) -> Option<(Seq<u8>, Seq<(Seq<u8>, Seq<u8>)>)>
    decreases s.len(),
{
    let d = hex_prefix_len(s) as int;
    if d == 0 || s.len() < d + 2 || s[d] != CR || s[d + 1] != LF {
        None
    } else {
        let n = hex_value(s.take(d));
        if n == 0 {
            match decoded_trailers(s.skip(d + 2)) {
                Some(fields) => Some((Seq::empty(), fields)),
                None => None,
            }
        } else if n >= 1 && s.len() >= d + 2 + n + 2 && s[d + 2 + n] == CR && s[d + 2 + n + 1]
            == LF {
            match decoded_message(s.skip(d + 2 + n + 2)) {
                Some((payload, fields)) => Some((s.subrange(d + 2, d + 2 + n) + payload, fields)),
                None => None,
            }
        } else {
            None
        }
    }
}

/// Every byte of a minimal hex representation is a hex digit.
pub proof fn lemma_hex_rep_digits(n: nat)
    ensures
        hex_rep(n).len() >= 1,
        forall|i: int| 0 <= i < hex_rep(n).len() ==> is_hex_digit(#[trigger] hex_rep(n)[i]),
    decreases n,
{
    if n >= 16 {
        lemma_hex_rep_digits(n / 16);
    }
}

/// A hex digit byte reads back as the digit it printed.
proof fn lemma_hex_digit_round_trip(d: int)
    requires
        0 <= d < 16,
    ensures
        is_hex_digit(spec_hex_digit(d)),
        hex_digit_value(spec_hex_digit(d)) == d,
{
}

/// The value of a one-digit string is that digit's value.
proof fn lemma_hex_value_singleton(b: u8)
    ensures
        hex_value(seq![b]) == hex_digit_value(b),
{
    let s = seq![b];
    assert(s.drop_last() =~= Seq::<u8>::empty());
    assert(hex_value(s.drop_last()) == 0);
    assert(s.last() == b);
}

/// Reading the minimal hex representation back gives the number it printed.
pub proof fn lemma_hex_value_of_rep(n: nat)
    ensures
        hex_value(hex_rep(n)) == n,
    decreases n,
{
    if n < 16 {
        lemma_hex_digit_round_trip(n as int);
        lemma_hex_value_singleton(spec_hex_digit(n as int));
        assert(hex_rep(n) == seq![spec_hex_digit(n as int)]);
    } else {
        lemma_hex_value_of_rep(n / 16);
        lemma_hex_digit_round_trip((n % 16) as int);
        let whole = hex_rep(n / 16) + seq![spec_hex_digit((n % 16) as int)];
        assert(hex_rep(n) == whole);
        assert(whole.drop_last() =~= hex_rep(n / 16));
        assert(whole.last() == spec_hex_digit((n % 16) as int));
        assert(hex_value(whole) == hex_value(whole.drop_last()) * 16 + hex_digit_value(
            whole.last(),
        ));
        vstd::arithmetic::div_mod::lemma_fundamental_div_mod(n as int, 16);
    }
}

/// The hex-digit prefix of `digits + rest` is exactly `digits` when `rest`
/// opens with a byte that is no hex digit.
pub proof fn lemma_hex_prefix_of_concat(digits: Seq<u8>, rest: Seq<u8>)
    requires
        forall|i: int| 0 <= i < digits.len() ==> is_hex_digit(#[trigger] digits[i]),
        rest.len() > 0,
        !is_hex_digit(rest.first()),
    ensures
        hex_prefix_len(digits + rest) == digits.len(),
    decreases digits.len(),
{
    if digits.len() == 0 {
        assert(digits + rest =~= rest);
    } else {
        assert((digits + rest).first() == digits.first());
        assert((digits + rest).drop_first() =~= digits.drop_first() + rest);
        lemma_hex_prefix_of_concat(digits.drop_first(), rest);
    }
}

/// The name prefix of `name + rest` is exactly `name` when `name` is a
/// well-formed trailer name and `rest` opens with a colon, CR or LF.
pub proof fn lemma_name_prefix_of_concat(name: Seq<u8>, rest: Seq<u8>)
    requires
        forall|i: int| 0 <= i < name.len() ==> name[i] != COLON && name[i] != CR && name[i] != LF,
        rest.len() > 0,
        rest.first() == COLON || rest.first() == CR || rest.first() == LF,
    ensures
        name_prefix_len(name + rest) == name.len(),
    decreases name.len(),
{
    if name.len() == 0 {
        assert(name + rest =~= rest);
    } else {
        assert((name + rest).first() == name.first());
        assert((name + rest).drop_first() =~= name.drop_first() + rest);
        lemma_name_prefix_of_concat(name.drop_first(), rest);
    }
}

/// The value prefix of `value + rest` is exactly `value` when `value` is a
/// well-formed trailer value and `rest` opens with CR or LF.
pub proof fn lemma_value_prefix_of_concat(value: Seq<u8>, rest: Seq<u8>)
    requires
        forall|i: int| 0 <= i < value.len() ==> value[i] != CR && value[i] != LF,
        rest.len() > 0,
        rest.first() == CR || rest.first() == LF,
    ensures
        value_prefix_len(value + rest) == value.len(),
    decreases value.len(),
{
    if value.len() == 0 {
        assert(value + rest =~= rest);
    } else {
        assert((value + rest).first() == value.first());
        assert((value + rest).drop_first() =~= value.drop_first() + rest);
        lemma_value_prefix_of_concat(value.drop_first(), rest);
    }
}

/// Decoding the trailer section of well-formed fields gives the fields back.
pub proof fn lemma_decode_trailer_section(fields: Seq<(Seq<u8>, Seq<u8>)>)
    requires
        wf_fields(fields),
    ensures
        decoded_trailers(trailer_section(fields) + crlf()) == Some(fields),
    decreases fields.len(),
{
    let s = trailer_section(fields) + crlf();
    if fields.len() == 0 {
        assert(s =~= crlf());
        assert(decoded_trailers(s) == Some(Seq::<(Seq<u8>, Seq<u8>)>::empty()));
        assert(Seq::<(Seq<u8>, Seq<u8>)>::empty() =~= fields);
    } else {
        let name = fields.first().0;
        let value = fields.first().1;
        assert(wf_trailer_name(name) && wf_trailer_value(value));
        let tail = trailer_section(fields.drop_first()) + crlf();
        assert(s =~= name + (seq![COLON] + value + crlf() + tail));
        lemma_name_prefix_of_concat(name, seq![COLON] + value + crlf() + tail);
        let nl = name.len() as int;
        assert(name_prefix_len(s) == nl);
        assert(s[nl] == COLON);
        assert(s.skip(nl + 1) =~= value + (crlf() + tail));
        lemma_value_prefix_of_concat(value, crlf() + tail);
        assert(value_prefix_len(s.skip(nl + 1)) == value.len());
        let value_end = nl + 1 + value.len() as int;
        assert(s[value_end] == CR);
        assert(s[value_end + 1] == LF);
        // The first byte is the name's first byte, so no blank line starts here.
        assert(s[0] == name[0]);
        assert(s[0] != CR);
        lemma_decode_trailer_section(fields.drop_first());
        assert(s.skip(value_end + 2) =~= tail);
        assert(s.take(nl) =~= name);
        assert(s.subrange(nl + 1, value_end) =~= value);
        assert(seq![(name, value)] + fields.drop_first() =~= fields);
    }
}

/// Law: decoding an encoded message gives back exactly the payload bytes,
/// in order, and exactly the configured trailer fields. The payload may have
/// been framed as any sequence of nonempty pieces: the framing is
/// chunk-size-independent.
#[verifier::rlimit(100)]
pub proof fn lemma_round_trip(pieces: Seq<Seq<u8>>, fields: Seq<(Seq<u8>, Seq<u8>)>)
    requires
        wf_pieces(pieces),
        wf_fields(fields),
    ensures
        decoded_message(encoded_message(pieces, fields)) == Some((pieces.flatten(), fields)),
    decreases pieces.len(),
{
    let s = encoded_message(pieces, fields);
    let trailer = trailer_section(fields) + crlf();
    if pieces.len() == 0 {
        assert(s =~= seq![48u8] + (seq![CR, LF] + trailer));
        lemma_hex_prefix_of_concat(seq![48u8], seq![CR, LF] + trailer);
        assert(hex_prefix_len(s) == 1);
        assert(s[1] == CR && s[2] == LF);
        assert(s.take(1) =~= seq![48u8]);
        assert(hex_value(seq![48u8]) == 0) by {
            lemma_hex_value_singleton(48u8);
        }
        lemma_decode_trailer_section(fields);
        assert(s.skip(3) =~= trailer);
        assert(pieces.flatten() =~= Seq::<u8>::empty());
    } else {
        let p0 = pieces.first();
        let rest_msg = encoded_message(pieces.drop_first(), fields);
        let digits = hex_rep(p0.len());
        assert(s =~= digits + (crlf() + p0 + crlf() + rest_msg));
        lemma_hex_rep_digits(p0.len());
        assert(!is_hex_digit(CR));
        lemma_hex_prefix_of_concat(digits, crlf() + p0 + crlf() + rest_msg);
        let d = digits.len() as int;
        assert(hex_prefix_len(s) == d);
        assert(s.take(d) =~= digits);
        lemma_hex_value_of_rep(p0.len());
        let n = p0.len() as int;
        assert(hex_value(s.take(d)) == n);
        assert(n >= 1);
        assert(s[d] == CR && s[d + 1] == LF);
        assert(s[d + 2 + n] == CR && s[d + 2 + n + 1] == LF);
        assert(s.len() >= d + 2 + n + 2);
        lemma_round_trip(pieces.drop_first(), fields);
        assert(s.skip(d + 2 + n + 2) =~= rest_msg);
        assert(s.subrange(d + 2, d + 2 + n) =~= p0);
        assert(p0 + pieces.drop_first().flatten() =~= pieces.flatten());
    }
}

/// Formats `n` as minimal lowercase ASCII hex.
pub fn hex_of_u64(n: u64) -> (r: Vec<u8>)
    ensures
        r@ == hex_rep(n as nat),
    decreases n,
{
    if n < 16 {
        let mut v: Vec<u8> = Vec::new();
        v.push(hex_digit_of(n as u8));
        proof {
            assert(v@ =~= hex_rep(n as nat));
        }
        v
    } else {
        let mut v = hex_of_u64(n / 16);
        v.push(hex_digit_of((n % 16) as u8));
        proof {
            assert(v@ =~= hex_rep(n as nat));
        }
        v
    }
}

/// The ASCII byte for hex digit `d`.
fn hex_digit_of(d: u8) -> (r: u8)
    requires
        d < 16,
    ensures
        r == spec_hex_digit(d as int),
{
    if d < 10 {
        48 + d
    } else {
        87 + d
    }
}

/// The minimal decimal ASCII representation of `n`.
pub open spec fn dec_rep(n: nat) -> Seq<u8>
    decreases n,
{
    if n < 10 {
        seq![(48 + n) as u8]
    } else {
        dec_rep(n / 10) + seq![(48 + n % 10) as u8]
    }
}

/// Formats `n` as minimal decimal ASCII, as a length header value carries it.
pub fn dec_of_u64(n: u64) -> (r: Vec<u8>)
    ensures
        r@ == dec_rep(n as nat),
    decreases n,
{
    if n < 10 {
        let mut v: Vec<u8> = Vec::new();
        v.push(48 + (n as u8));
        proof {
            assert(v@ =~= dec_rep(n as nat));
        }
        v
    } else {
        let mut v = dec_of_u64(n / 10);
        v.push(48 + ((n % 10) as u8));
        proof {
            assert(v@ =~= dec_rep(n as nat));
        }
        v
    }
}

} // verus!
