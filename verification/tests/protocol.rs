//! The frames between the daemon and its clients.

use b3_cli::protocol::{read_body, read_length, read_message, write_message, Message, ReadError};

fn round_trip(m: &Message) -> Message {
    let buf = write_message(m);
    let (decoded, used) = read_message(&buf).unwrap();
    assert_eq!(used, buf.len());
    decoded
}

#[test]
fn test_roundtrip_input() {
    match round_trip(&Message::Input(b"hello world".to_vec())) {
        Message::Input(data) => assert_eq!(data, b"hello world"),
        other => panic!("Expected Input, got: {other:?}"),
    }
}

#[test]
fn test_roundtrip_resize() {
    match round_trip(&Message::Resize { rows: 40, cols: 120 }) {
        Message::Resize { rows, cols } => {
            assert_eq!(rows, 40);
            assert_eq!(cols, 120);
        }
        other => panic!("Expected Resize, got: {other:?}"),
    }
}

#[test]
fn test_roundtrip_output() {
    match round_trip(&Message::Output(b"\x1b[32mgreen text\x1b[0m".to_vec())) {
        Message::Output(data) => assert_eq!(data, b"\x1b[32mgreen text\x1b[0m"),
        other => panic!("Expected Output, got: {other:?}"),
    }
}

#[test]
fn test_roundtrip_welcome() {
    match round_trip(&Message::Welcome { rows: 24, cols: 80 }) {
        Message::Welcome { rows, cols } => {
            assert_eq!(rows, 24);
            assert_eq!(cols, 80);
        }
        other => panic!("Expected Welcome, got: {other:?}"),
    }
}

#[test]
fn test_roundtrip_detach() {
    assert!(matches!(round_trip(&Message::Detach), Message::Detach));
}

#[test]
fn test_roundtrip_stop() {
    assert!(matches!(round_trip(&Message::Stop), Message::Stop));
}

#[test]
fn test_roundtrip_exited() {
    match round_trip(&Message::Exited(42)) {
        Message::Exited(code) => assert_eq!(code, 42),
        other => panic!("Expected Exited, got: {other:?}"),
    }
}

#[test]
fn test_roundtrip_status_resp() {
    match round_trip(&Message::StatusResp(r#"{"running":true}"#.to_string())) {
        Message::StatusResp(s) => assert_eq!(s, r#"{"running":true}"#),
        other => panic!("Expected StatusResp, got: {other:?}"),
    }
}

#[test]
fn test_multiple_messages_in_stream() {
    let messages = vec![
        Message::Input(b"key1".to_vec()),
        Message::Output(b"output1".to_vec()),
        Message::Resize { rows: 50, cols: 100 },
        Message::Detach,
    ];
    let mut buf: Vec<u8> = Vec::new();
    for msg in &messages {
        buf.extend_from_slice(&write_message(msg));
    }
    let mut at: usize = 0;
    let (m1, used) = read_message(&buf[at..]).unwrap();
    at += used;
    assert!(matches!(m1, Message::Input(_)));
    let (m2, used) = read_message(&buf[at..]).unwrap();
    at += used;
    assert!(matches!(m2, Message::Output(_)));
    let (m3, used) = read_message(&buf[at..]).unwrap();
    at += used;
    assert!(matches!(m3, Message::Resize { .. }));
    let (m4, used) = read_message(&buf[at..]).unwrap();
    at += used;
    assert!(matches!(m4, Message::Detach));
    assert_eq!(at, buf.len());
}

#[test]
fn test_empty_input() {
    match round_trip(&Message::Input(vec![])) {
        Message::Input(data) => assert!(data.is_empty()),
        other => panic!("Expected Input, got: {other:?}"),
    }
}

#[test]
fn frames_have_the_documented_bytes() {
    assert_eq!(write_message(&Message::Input(b"hi".to_vec())), vec![3, 0, 0, 0, 0x01, b'h', b'i']);
    assert_eq!(
        write_message(&Message::Resize { rows: 0x0102, cols: 0x0304 }),
        vec![5, 0, 0, 0, 0x02, 2, 1, 4, 3]
    );
    assert_eq!(write_message(&Message::Status), vec![1, 0, 0, 0, 0x05]);
    assert_eq!(write_message(&Message::Exited(-2)), vec![5, 0, 0, 0, 0x82, 0xfe, 0xff, 0xff, 0xff]);
}

#[test]
fn bad_frames_are_refused() {
    assert_eq!(read_message(&[1, 0, 0]).unwrap_err(), ReadError::Incomplete);
    assert_eq!(read_message(&[0, 0, 0, 0]).unwrap_err(), ReadError::Empty);
    assert_eq!(read_message(&[1, 0, 0x40, 0, 0]).unwrap_err(), ReadError::TooLarge);
    assert_eq!(read_message(&[2, 0, 0, 0, 0x02, 1]).unwrap_err(), ReadError::BadResize);
    assert_eq!(read_message(&[2, 0, 0, 0, 0x82, 1]).unwrap_err(), ReadError::BadExited);
    assert_eq!(read_message(&[2, 0, 0, 0, 0x83, 0xff]).unwrap_err(), ReadError::BadUtf8);
    assert_eq!(read_message(&[2, 0, 0, 0, 0x84, 1]).unwrap_err(), ReadError::BadWelcome);
    assert_eq!(read_message(&[1, 0, 0, 0, 0x77]).unwrap_err(), ReadError::UnknownType(0x77));
    assert_eq!(read_length(&[0, 0, 0x40, 0]).unwrap(), 0x40_0000);
    assert_eq!(read_length(&[1, 0, 0x40, 0]).unwrap_err(), ReadError::TooLarge);
    assert!(matches!(read_body(0x04, vec![]), Ok(Message::Stop)));
}
