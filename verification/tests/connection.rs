use bytes::Bytes;
use bytes::BytesMut;
use sonr_extras::connections::connection::IoError;
use sonr_extras::connections::connection::ReadOutcome;
use sonr_extras::connections::connection::RecvState;
use sonr_extras::connections::connection::WriteOutcome;
use sonr_extras::connections::connection::WriteState;
use sonr_extras::reactor::Event;
use sonr_extras::reactor::Reaction;
use sonr_extras::reactor::Reactive;
use sonr_extras::Connection;
use sonr_extras::LineCodec;

fn fresh(token: usize) -> Connection<LineCodec> {
    Connection::new(token, LineCodec::new(), 1024, 1024)
}

fn make_readable(conn: &mut Connection<LineCodec>, token: usize) {
    let reaction = conn.react(Reaction::Event(Event { token, readable: true, writable: false }));
    assert!(matches!(reaction, Reaction::Continue));
}

fn make_writable(conn: &mut Connection<LineCodec>, token: usize) {
    let reaction = conn.react(Reaction::Event(Event { token, readable: false, writable: true }));
    assert!(matches!(reaction, Reaction::Continue));
}

#[test]
fn test_recv_not_ready_before_any_event() {
    let mut conn = fresh(7);
    assert!(!conn.readable());
    assert!(!conn.writable());
    assert!(matches!(conn.recv(), RecvState::NotReady));
}

#[test]
fn test_react_updates_readiness() {
    let mut conn = fresh(7);
    make_readable(&mut conn, 7);
    assert!(conn.readable());
    assert!(!conn.writable());
    assert!(matches!(conn.recv(), RecvState::NeedRead));
}

#[test]
fn test_react_ignores_foreign_token() {
    let mut conn = fresh(7);
    let foreign = Reaction::Event(Event { token: 8, readable: true, writable: true });
    let reaction = conn.react(foreign);
    assert!(matches!(reaction, Reaction::Event(ev) if ev.token == 8));
    assert!(!conn.readable());
    assert!(!conn.writable());
}

#[test]
fn test_recv_complete_delivers_message() {
    let mut conn = fresh(7);
    make_readable(&mut conn, 7);
    assert!(matches!(conn.recv(), RecvState::NeedRead));
    let outcome = ReadOutcome::Data(b"ping\n".to_vec());
    match conn.recv_complete(outcome) {
        Some(Ok(message)) => assert_eq!(message, "ping"),
        other => panic!("expected a message, got {:?}", other),
    }
}

#[test]
fn test_zero_length_read_is_connection_reset() {
    let mut conn = fresh(7);
    make_readable(&mut conn, 7);
    assert!(matches!(conn.recv(), RecvState::NeedRead));
    match conn.recv_complete(ReadOutcome::Closed) {
        Some(Err(IoError::ConnectionReset)) => {},
        other => panic!("expected a connection reset, got {:?}", other),
    }
}

#[test]
fn test_would_block_read_is_nothing_available() {
    let mut conn = fresh(7);
    make_readable(&mut conn, 7);
    assert!(matches!(conn.recv(), RecvState::NeedRead));
    assert!(conn.recv_complete(ReadOutcome::WouldBlock).is_none());
}

#[test]
fn test_other_read_error_propagates() {
    let mut conn = fresh(7);
    make_readable(&mut conn, 7);
    assert!(matches!(conn.recv(), RecvState::NeedRead));
    let failure = ReadOutcome::Failed(IoError::Other(String::from("boom")));
    match conn.recv_complete(failure) {
        Some(Err(IoError::Other(text))) => assert_eq!(text, "boom"),
        other => panic!("expected the error back, got {:?}", other),
    }
}

#[test]
fn test_one_read_two_messages_drain_one_per_call() {
    let mut conn = fresh(7);
    make_readable(&mut conn, 7);
    assert!(matches!(conn.recv(), RecvState::NeedRead));
    match conn.recv_complete(ReadOutcome::Data(b"a\nb\n".to_vec())) {
        Some(Ok(message)) => assert_eq!(message, "a"),
        other => panic!("expected the first message, got {:?}", other),
    }
    match conn.recv() {
        RecvState::Message(message) => assert_eq!(message, "b"),
        other => panic!("expected the second message, got {:?}", other),
    }
    assert!(matches!(conn.recv(), RecvState::NeedRead));
}

#[test]
fn test_incomplete_bytes_are_retained() {
    let mut conn = fresh(7);
    make_readable(&mut conn, 7);
    assert!(matches!(conn.recv(), RecvState::NeedRead));
    assert!(conn.recv_complete(ReadOutcome::Data(b"par".to_vec())).is_none());
    assert!(matches!(conn.recv(), RecvState::NeedRead));
    match conn.recv_complete(ReadOutcome::Data(b"tial\n".to_vec())) {
        Some(Ok(message)) => assert_eq!(message, "partial"),
        other => panic!("expected the joined message, got {:?}", other),
    }
}

#[test]
fn test_write_idle_without_data_or_readiness() {
    let mut conn = fresh(7);
    assert_eq!(conn.write(), WriteState::Idle);
    make_writable(&mut conn, 7);
    // Writable but nothing buffered: still nothing to do.
    assert_eq!(conn.write(), WriteState::Idle);
}

#[test]
fn test_enqueue_frames_and_buffers() {
    let mut conn = fresh(7);
    let framed = conn.encode(BytesMut::from(&b"ping"[..]));
    assert_eq!(framed, "ping\n");
    conn.add_payload(framed);
    assert_eq!(conn.pending_writes(), b"ping\n");
    // The transport was not touched: without readiness nothing is sent.
    assert_eq!(conn.write(), WriteState::Idle);
}

#[test]
fn test_write_buffer_drains_one_byte_at_a_time() {
    let mut conn = fresh(7);
    let framed = conn.encode(BytesMut::from(&b"ping"[..]));
    conn.add_payload(framed);
    make_writable(&mut conn, 7);

    let mut sent: Vec<u8> = Vec::new();
    let mut writes = 0;
    while conn.write() == WriteState::NeedWrite {
        sent.push(conn.pending_writes()[0]);
        match conn.write_complete(WriteOutcome::Wrote(1)) {
            Some(Ok(n)) => assert_eq!(n, 1),
            other => panic!("expected one accepted byte, got {:?}", other),
        }
        writes += 1;
    }
    assert_eq!(writes, b"ping\n".len());
    assert_eq!(sent, b"ping\n");
    assert_eq!(conn.pending_writes(), b"");
}

#[test]
fn test_partial_write_keeps_remainder_in_order() {
    let mut conn = fresh(7);
    let framed = conn.encode(BytesMut::from(&b"hello"[..]));
    conn.add_payload(framed);
    make_writable(&mut conn, 7);
    assert_eq!(conn.write(), WriteState::NeedWrite);
    match conn.write_complete(WriteOutcome::Wrote(2)) {
        Some(Ok(n)) => assert_eq!(n, 2),
        other => panic!("expected two accepted bytes, got {:?}", other),
    }
    assert_eq!(conn.pending_writes(), b"llo\n");
}

#[test]
fn test_would_block_write_changes_nothing() {
    let mut conn = fresh(7);
    let framed = conn.encode(BytesMut::from(&b"hi"[..]));
    conn.add_payload(framed);
    make_writable(&mut conn, 7);
    assert!(conn.write_complete(WriteOutcome::WouldBlock).is_none());
    assert_eq!(conn.pending_writes(), b"hi\n");
}

#[test]
fn test_write_error_propagates() {
    let mut conn = fresh(7);
    let framed = conn.encode(BytesMut::from(&b"hi"[..]));
    conn.add_payload(framed);
    make_writable(&mut conn, 7);
    let failure = WriteOutcome::Failed(IoError::Other(String::from("pipe")));
    match conn.write_complete(failure) {
        Some(Err(IoError::Other(text))) => assert_eq!(text, "pipe"),
        other => panic!("expected the error back, got {:?}", other),
    }
}

#[test]
fn test_add_payload_appends_preformatted_bytes() {
    let mut conn = fresh(7);
    conn.add_payload(Bytes::from_static(b"one\n"));
    conn.add_payload(Bytes::from_static(b"two\n"));
    assert_eq!(conn.pending_writes(), b"one\ntwo\n");
}

#[test]
fn test_token_is_stable() {
    let mut conn = fresh(42);
    assert_eq!(conn.token(), 42);
    make_readable(&mut conn, 42);
    assert_eq!(conn.token(), 42);
}
