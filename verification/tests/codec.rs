use bytes::BufMut;
use bytes::BytesMut;
use sonr_extras::codecs::Codec;
use sonr_extras::codecs::LineCodec;

#[test]
fn test_line_codec_encode() {
    let mut payload = BytesMut::from(&b"hello"[..]);
    let mut newline = LineCodec::new();

    let result = newline.encode(&mut payload).unwrap();
    assert_eq!(result, "hello\n");
}

#[test]
fn test_line_codec_decode() {
    let mut payload = BytesMut::from(&b"hello\n"[..]);
    let mut newline = LineCodec::new();

    let result = newline.decode(&mut payload).unwrap();
    assert_eq!(result, "hello");
}

#[test]
fn test_line_codec_partial_decodes() {
    let mut newline = LineCodec::new();
    let mut payload = BytesMut::from(&b"he"[..]);
    assert!(newline.decode(&mut payload).is_none());

    payload.put_slice(&b"llo\n"[..]);
    let hello = newline.decode(&mut payload).unwrap();

    assert_eq!(hello, "hello");
}

#[test]
fn test_line_codec_partial_decodes_2() {
    let mut newline = LineCodec::new();
    let mut payload = BytesMut::from(&b"he"[..]);
    assert!(newline.decode(&mut payload).is_none());

    payload.put_slice(&b"llo\nwor"[..]);
    let hello = newline.decode(&mut payload).unwrap();

    payload.put_slice(&b"ld\n"[..]);
    let world = newline.decode(&mut payload).unwrap();

    assert_eq!(hello, "hello");
    assert_eq!(world, "world");
}

#[test]
fn test_no_delimiter_chunks_stay_silent() {
    let mut newline = LineCodec::new();
    let mut payload = BytesMut::new();
    for chunk in [&b"ab"[..], &b"cd"[..], &b"ef"[..]] {
        payload.put_slice(chunk);
        assert!(newline.decode(&mut payload).is_none());
    }
    assert_eq!(&payload[..], b"abcdef");

    payload.put_slice(&b"\n"[..]);
    let message = newline.decode(&mut payload).unwrap();
    assert_eq!(message, "abcdef");
}

#[test]
fn test_repeated_decode_without_new_bytes_is_idempotent() {
    let mut newline = LineCodec::new();
    let mut payload = BytesMut::from(&b"incomplete"[..]);

    assert!(newline.decode(&mut payload).is_none());
    assert!(newline.decode(&mut payload).is_none());
    assert!(newline.decode(&mut payload).is_none());
    assert_eq!(&payload[..], b"incomplete");

    payload.put_slice(&b"\n"[..]);
    let message = newline.decode(&mut payload).unwrap();
    assert_eq!(message, "incomplete");
}

#[test]
fn test_multi_message_draining() {
    let mut newline = LineCodec::new();
    let mut payload = BytesMut::from(&b"a\nb\nc\n"[..]);

    assert_eq!(newline.decode(&mut payload).unwrap(), "a");
    assert_eq!(newline.decode(&mut payload).unwrap(), "b");
    assert_eq!(newline.decode(&mut payload).unwrap(), "c");
    assert!(newline.decode(&mut payload).is_none());
    assert_eq!(payload.len(), 0);
}

#[test]
fn test_fragmented_equals_one_shot() {
    let mut fragmented = LineCodec::new();
    let mut split_payload = BytesMut::from(&b"he"[..]);
    assert!(fragmented.decode(&mut split_payload).is_none());
    split_payload.put_slice(&b"llo\n"[..]);
    let from_fragments = fragmented.decode(&mut split_payload).unwrap();

    let mut one_shot = LineCodec::new();
    let mut whole_payload = BytesMut::from(&b"hello\n"[..]);
    let from_whole = one_shot.decode(&mut whole_payload).unwrap();

    assert_eq!(from_fragments, from_whole);
    assert_eq!(from_fragments, "hello");
}

#[test]
fn test_round_trip_strips_one_trailing_carriage_return() {
    let mut newline = LineCodec::new();
    let mut payload = BytesMut::from(&b"hello\r"[..]);
    let framed = newline.encode(&mut payload).unwrap();
    assert_eq!(framed, "hello\r\n");

    let mut decoder = LineCodec::new();
    let mut received = BytesMut::from(&framed[..]);
    let message = decoder.decode(&mut received).unwrap();
    assert_eq!(message, "hello");
}

#[test]
fn test_round_trip_empty_payload() {
    let mut newline = LineCodec::new();
    let mut payload = BytesMut::new();
    let framed = newline.encode(&mut payload).unwrap();
    assert_eq!(framed, "\n");

    let mut decoder = LineCodec::new();
    let mut received = BytesMut::from(&framed[..]);
    let message = decoder.decode(&mut received).unwrap();
    assert_eq!(message.len(), 0);
}

#[test]
fn test_delimiter_at_front_yields_empty_message() {
    let mut newline = LineCodec::new();
    let mut payload = BytesMut::from(&b"\nrest"[..]);
    let message = newline.decode(&mut payload).unwrap();
    assert_eq!(message.len(), 0);
    assert_eq!(&payload[..], b"rest");
}

#[test]
fn test_crlf_line_strips_carriage_return() {
    let mut newline = LineCodec::new();
    let mut payload = BytesMut::from(&b"hello\r\nworld\n"[..]);
    assert_eq!(newline.decode(&mut payload).unwrap(), "hello");
    assert_eq!(newline.decode(&mut payload).unwrap(), "world");
}

#[test]
fn test_embedded_delimiter_splits_payload() {
    // The documented limitation: framing does not escape a delimiter
    // inside the payload, so decoding splits it into two messages.
    let mut newline = LineCodec::new();
    let mut payload = BytesMut::from(&b"a\nb"[..]);
    let framed = newline.encode(&mut payload).unwrap();
    assert_eq!(framed, "a\nb\n");

    let mut decoder = LineCodec::new();
    let mut received = BytesMut::from(&framed[..]);
    assert_eq!(decoder.decode(&mut received).unwrap(), "a");
    assert_eq!(decoder.decode(&mut received).unwrap(), "b");
}
