use resilience_core::chunked::{
    encoding_marker, AwsChunkedContentEncodingInterceptor, BodyTransformError,
    ChunkedBodyTransform, TrailerField,
};
use resilience_core::handoff::DeferredHandoff;

/// The checksum trailer value the library is expected to emit: base64 of the
/// big-endian CRC-32 digest, computed here independently of the library.
fn expected_checksum_value(payload: &[u8]) -> Vec<u8> {
    let digest = crc32fast::hash(payload);
    aws_smithy_types::base64::encode(digest.to_be_bytes()).into_bytes()
}

/// A plain chunked-transfer-encoding parser: returns the decoded payload and
/// the trailer fields, or `None` if the input is not one whole well-formed
/// message.
fn decode_chunked(full: &[u8]) -> Option<(Vec<u8>, Vec<(Vec<u8>, Vec<u8>)>)> {
    let mut s = full;
    let mut payload = Vec::new();
    loop {
        let mut i = 0;
        while i < s.len() && s[i].is_ascii_hexdigit() {
            i += 1;
        }
        if i == 0 {
            return None;
        }
        let n = usize::from_str_radix(std::str::from_utf8(&s[..i]).ok()?, 16).ok()?;
        if s.len() < i + 2 || &s[i..i + 2] != b"\r\n" {
            return None;
        }
        s = &s[i + 2..];
        if n == 0 {
            break;
        }
        if s.len() < n + 2 {
            return None;
        }
        payload.extend_from_slice(&s[..n]);
        if &s[n..n + 2] != b"\r\n" {
            return None;
        }
        s = &s[n + 2..];
    }
    let mut trailers = Vec::new();
    loop {
        if s.len() >= 2 && &s[..2] == b"\r\n" {
            if s.len() == 2 {
                return Some((payload, trailers));
            }
            return None;
        }
        let colon = s.iter().position(|&b| b == b':')?;
        let name = s[..colon].to_vec();
        let rest = &s[colon + 1..];
        let end = rest.windows(2).position(|w| w == b"\r\n")?;
        trailers.push((name, rest[..end].to_vec()));
        s = &rest[end + 2..];
    }
}

fn drain_all(
    transform: &mut ChunkedBodyTransform,
    pieces: &[&[u8]],
    handoff: &mut DeferredHandoff,
) -> Result<Vec<u8>, BodyTransformError> {
    let mut out = Vec::new();
    for piece in pieces {
        out.extend_from_slice(&transform.next_payload_chunk(piece));
    }
    out.extend_from_slice(&transform.finish_payload());
    let trailer = transform.resolve_trailers(handoff)?;
    out.extend_from_slice(&trailer);
    Ok(out)
}

#[test]
fn test_chunked_output_with_checksum_trailer() {
    // declared_length=12, payload "Hello, world", one trailer field named
    // "checksum": the output must be bit-exact.
    let fields = vec![TrailerField::Checksum { name: b"checksum".to_vec() }];
    let mut transform = ChunkedBodyTransform::new(Some(12), fields).unwrap();
    // The trailer's size is known before any payload byte is read:
    // "checksum:" + 8 base64 bytes + CRLF, then the blank CRLF line.
    assert_eq!(transform.trailer_length(0), 9 + 8 + 2 + 2);
    let mut unused = DeferredHandoff::new();
    let out = drain_all(&mut transform, &[b"Hello, world"], &mut unused).unwrap();

    let mut expected = b"c\r\nHello, world\r\n0\r\n".to_vec();
    expected.extend_from_slice(b"checksum:");
    expected.extend_from_slice(&expected_checksum_value(b"Hello, world"));
    expected.extend_from_slice(b"\r\n\r\n");
    assert_eq!(out.len(), 20 + transform.trailer_length(0) as usize);
    assert_eq!(out, expected);
}

#[test]
fn test_round_trip_small_chunks() {
    let payload: Vec<u8> = (0..36u8).map(|i| b'a' + (i % 26)).collect();
    let fields = vec![
        TrailerField::Immediate { name: b"meta".to_vec(), value: b"v1".to_vec() },
        TrailerField::Checksum { name: b"x-amz-checksum-crc32".to_vec() },
        TrailerField::DeferredSignature { name: b"x-amz-trailer-signature".to_vec() },
    ];
    let mut transform = ChunkedBodyTransform::new(Some(payload.len() as u64), fields).unwrap();
    let mut handoff = DeferredHandoff::new();
    handoff.fulfill(b"deadbeef-signature".to_vec());
    let pieces: Vec<&[u8]> = payload.chunks(5).collect();
    let out = drain_all(&mut transform, &pieces, &mut handoff).unwrap();

    let (decoded, trailers) = decode_chunked(&out).expect("well-formed message");
    assert_eq!(decoded, payload);
    assert_eq!(
        trailers,
        vec![
            (b"meta".to_vec(), b"v1".to_vec()),
            (b"x-amz-checksum-crc32".to_vec(), expected_checksum_value(&payload)),
            (b"x-amz-trailer-signature".to_vec(), b"deadbeef-signature".to_vec()),
        ]
    );
}

#[test]
fn test_round_trip_single_large_chunk() {
    // The framing must be chunk-size-independent: the same payload in one
    // piece decodes to the same bytes.
    let payload: Vec<u8> = (0..36u8).map(|i| b'a' + (i % 26)).collect();
    let fields = vec![TrailerField::Checksum { name: b"x-amz-checksum-crc32".to_vec() }];
    let mut transform = ChunkedBodyTransform::new(Some(payload.len() as u64), fields).unwrap();
    let mut unused = DeferredHandoff::new();
    let out = drain_all(&mut transform, &[payload.as_slice()], &mut unused).unwrap();

    let (decoded, trailers) = decode_chunked(&out).expect("well-formed message");
    assert_eq!(decoded, payload);
    assert_eq!(trailers.len(), 1);
    assert_eq!(trailers[0].1, expected_checksum_value(&payload));
}

#[test]
fn test_hex_length_prefix_large_chunk() {
    let payload = vec![7u8; 256];
    let mut transform = ChunkedBodyTransform::new(Some(256), Vec::new()).unwrap();
    let frame = transform.next_payload_chunk(&payload);
    assert!(frame.starts_with(b"100\r\n"));
    assert!(frame.ends_with(b"\r\n"));
    assert_eq!(frame.len(), 3 + 2 + 256 + 2);
}

#[test]
fn test_deferred_fulfilled_early_still_resolves_after_terminal_chunk() {
    // Even when the producer fulfills before the payload drains, the
    // signature bytes appear only after the terminal zero-length chunk.
    let sig = b"early-signature".to_vec();
    let fields = vec![TrailerField::DeferredSignature { name: b"sig".to_vec() }];
    let mut transform = ChunkedBodyTransform::new(Some(10), fields).unwrap();
    let mut handoff = DeferredHandoff::new();
    handoff.fulfill(sig.clone());

    let mut body = Vec::new();
    body.extend_from_slice(&transform.next_payload_chunk(b"0123456789"));
    body.extend_from_slice(&transform.finish_payload());
    // Nothing emitted so far holds the signature.
    assert!(!body.windows(sig.len()).any(|w| w == sig.as_slice()));
    let trailer = transform.resolve_trailers(&mut handoff).unwrap();
    assert!(trailer.windows(sig.len()).any(|w| w == sig.as_slice()));
    body.extend_from_slice(&trailer);
    let (decoded, trailers) = decode_chunked(&body).expect("well-formed message");
    assert_eq!(decoded, b"0123456789".to_vec());
    assert_eq!(trailers, vec![(b"sig".to_vec(), sig)]);
}

#[test]
fn test_abandoned_producer_fails_drain() {
    // A producer that drops out before fulfilling fails the drain with
    // `HandoffAbandoned`, and no trailer bytes are emitted.
    let fields = vec![TrailerField::DeferredSignature { name: b"sig".to_vec() }];
    let mut transform = ChunkedBodyTransform::new(Some(5), fields).unwrap();
    let mut handoff = DeferredHandoff::new();
    handoff.abandon();

    let _ = transform.next_payload_chunk(b"hello");
    let _ = transform.finish_payload();
    let err = transform.resolve_trailers(&mut handoff).unwrap_err();
    assert_eq!(err, BodyTransformError::HandoffAbandoned);

    // The failed attempt emitted nothing: a later producer can still
    // complete the very same trailer in full.
    let mut second = DeferredHandoff::new();
    second.fulfill(b"late".to_vec());
    let trailer = transform.resolve_trailers(&mut second).unwrap();
    assert_eq!(trailer, b"sig:late\r\n\r\n".to_vec());
}

#[test]
fn test_unsized_body_rejected() {
    // A source that cannot report an exact length is refused outright.
    let r = ChunkedBodyTransform::new(None, Vec::new());
    assert!(matches!(r, Err(BodyTransformError::UnsizedBody)));
}

#[test]
fn test_prestream_metadata() {
    let transform = ChunkedBodyTransform::new(Some(12), Vec::new()).unwrap();
    assert_eq!(transform.declared_length(), 12);
    assert_eq!(transform.decoded_length_header_value(), b"12".to_vec());
    assert_eq!(encoding_marker(), b"aws-chunked".to_vec());
    let _stage = AwsChunkedContentEncodingInterceptor::new();
}

#[test]
fn test_immediate_only_trailer() {
    // No checksum, no signature: immediate fields pass through verbatim.
    let fields = vec![TrailerField::Immediate { name: b"k".to_vec(), value: b"v".to_vec() }];
    let mut transform = ChunkedBodyTransform::new(Some(2), fields).unwrap();
    let mut unused = DeferredHandoff::new();
    let out = drain_all(&mut transform, &[b"ab"], &mut unused).unwrap();
    assert_eq!(out, b"2\r\nab\r\n0\r\nk:v\r\n\r\n".to_vec());
}
