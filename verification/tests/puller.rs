//! Events from the server.

use b3_cli::config::Config;
use b3_cli::events::{AgentEvent, ChannelEvent};
use b3_cli::json;
use b3_cli::puller::{
    agent_name, answer_body, classify_status, deliver_dm, deliver_room, events_url, handle_event,
    new_message_id, on_room_message, poll_seed, poll_step, readable, sanitize, server_urls,
    update_marker, update_ready_path, update_wanted, verify_checksum, Backoff, HiveDedup,
    stream_result, PullAction, Reconnect, RoomAction, SseResult, StreamEnd,
};

fn test_config() -> Config {
    Config {
        agent_id: "test-id".to_string(),
        agent_email: "test@hey-code.ai".to_string(),
        api_key: "test-key".to_string(),
        api_url: "https://test.example.com".to_string(),
        wg_address: "10.44.0.1".to_string(),
        relay_endpoint: "127.0.0.1:51820".to_string(),
        relay_public_key: "AAAA".to_string(),
        push_interval_ms: 100,
        web_url: "https://test.example.com/a/test".to_string(),
        b3_version: "0.0.0".to_string(),
        servers: vec![],
        auto_update: false,
    }
}

/// What handling an event writes to the terminal.
fn injected(kind: &str, data: &str) -> Vec<u8> {
    let config = test_config();
    match handle_event(kind, data, &config.api_url, &config.agent_id, &mut HiveDedup::new()) {
        PullAction::Inject(bytes) => bytes,
        _ => Vec::new(),
    }
}

#[test]
fn test_handle_transcription_event() {
    let data = r#"{"type":"transcription","text":"Hello agent"}"#;
    assert!(
        injected("transcription", data).is_empty(),
        "Transcription must not fall back to PTY injection"
    );
    let config = test_config();
    match handle_event("transcription", data, &config.api_url, "id", &mut HiveDedup::new()) {
        PullAction::Transcription { text } => assert_eq!(text, "Hello agent"),
        other => panic!("Expected Transcription, got: {other:?}"),
    }
}

#[test]
fn test_handle_hive_event() {
    let data = r#"{"type":"hive","sender":"cloister","text":"run the tests"}"#;
    assert!(injected("hive", data).is_empty(), "Hive DM must not fall back to PTY injection");
    let mut dedup = HiveDedup::new();
    match handle_event("hive", data, "https://x", "id", &mut dedup) {
        PullAction::Dm { sender, text } => {
            assert_eq!(sender, "cloister");
            assert_eq!(text, "run the tests");
        }
        other => panic!("Expected Dm, got: {other:?}"),
    }
    assert!(matches!(handle_event("hive", data, "https://x", "id", &mut dedup), PullAction::Ignore));
}

#[test]
fn test_handle_unknown_event_is_ignored() {
    assert!(injected("unknown_type", "{}").is_empty(), "Unknown events should not inject anything");
}

#[test]
fn test_handle_malformed_transcription() {
    assert!(
        injected("transcription", r#"{"type":"transcription"}"#).is_empty(),
        "Malformed event should not inject anything"
    );
}

#[test]
fn test_handle_malformed_hive() {
    assert!(
        injected("hive", r#"{"type":"hive","text":"hello"}"#).is_empty(),
        "Malformed hive should not inject anything"
    );
}

#[test]
fn test_multiple_events_accumulate() {
    let t1 = r#"{"type":"transcription","text":"first"}"#;
    let t2 = r#"{"type":"transcription","text":"second"}"#;
    let mut all = injected("transcription", t1);
    all.extend(injected("transcription", t2));
    assert!(all.is_empty(), "Transcription events must not fall back to PTY injection");
}

#[test]
fn malformed_json_all_event_types_safe() {
    let event_types = [
        "transcription", "hive", "hive_room", "pty_input",
        "pty_resize", "update_available", "tts", "led",
    ];
    let bad_jsons = [
        "not json at all",
        "{}",
        r#"{"type":"wrong"}"#,
        "",
        "null",
        r#"{"text": 42}"#,
    ];
    let mut all: Vec<u8> = Vec::new();
    for event_type in &event_types {
        for bad_json in &bad_jsons {
            all.extend(injected(event_type, bad_json));
        }
    }
    assert!(all.is_empty(), "Malformed JSON should never inject data: got {:?}", all);
}

#[test]
fn unknown_event_types_ignored() {
    for event_type in &["future_event", "v2_migration", "🎵", ""] {
        assert!(injected(event_type, "{}").is_empty());
    }
}

#[test]
fn puller_backoff_bounded() {
    let max: u64 = 30_000;
    let mut backoff = Backoff::new(1_000, max);
    for _ in 0..100 {
        assert!(backoff.next_delay() <= max);
    }
}

#[test]
fn backoff_reset_clears_state() {
    let mut backoff = Backoff::new(1_000, 30_000);
    for _ in 0..50 {
        backoff.next_delay();
    }
    assert_eq!(backoff.consecutive_failures(), 50);
    backoff.reset();
    assert_eq!(backoff.consecutive_failures(), 0);
    assert_eq!(backoff.next_delay(), 1_000);
}

#[test]
fn input_events_are_written() {
    assert_eq!(injected("pty_input", r#"{"type":"pty_input","data":"ls\n"}"#), b"ls\n".to_vec());
}

#[test]
fn the_config_gives_names_and_urls() {
    let mut c = test_config();
    assert_eq!(agent_name(&c), "test");
    assert_eq!(server_urls(&c), vec!["https://test.example.com".to_string()]);
    c.servers = vec!["https://a.example".to_string(), "https://b.example".to_string()];
    assert_eq!(
        server_urls(&c),
        vec![
            "https://test.example.com".to_string(),
            "https://a.example".to_string(),
            "https://b.example".to_string()
        ]
    );
    assert_eq!(events_url("https://a.example", "hc-1"), "https://a.example/api/agents/hc-1/events");
}

#[test]
fn statuses_are_classified() {
    assert!(classify_status(200).is_none());
    assert!(matches!(classify_status(401), Some(SseResult::PermanentFailure(401))));
    assert!(matches!(classify_status(503), Some(SseResult::TransientFailure(_))));
    assert!(matches!(stream_result(StreamEnd::Closed), SseResult::CleanClose));
    assert!(matches!(stream_result(StreamEnd::TimedOut), SseResult::CleanClose));
    assert!(matches!(
        stream_result(StreamEnd::Broke("reset".to_string())),
        SseResult::TransientFailure(e) if e == "reset"
    ));
}

#[test]
fn lasting_refusals_end_the_loop() {
    let mut r = Reconnect::new();
    for _ in 0..9 {
        assert!(r.after(&SseResult::PermanentFailure(401)).is_some());
    }
    assert!(r.after(&SseResult::PermanentFailure(401)).is_none());
    let mut r = Reconnect::new();
    assert!(r.after(&SseResult::NetworkError("down".to_string())).is_some());
    assert!(r.after(&SseResult::CleanClose).is_some());
}

#[test]
fn repeated_messages_are_known() {
    let mut d = HiveDedup::new();
    assert!(!d.check_and_mark("a", "hello"));
    assert!(d.check_and_mark("a", "hello"));
    assert!(!d.check_and_mark("b", "hello"));
    assert_eq!(d.len(), 2);
    for i in 0..300 {
        d.check_and_mark("c", &format!("{i}"));
    }
    assert_eq!(d.len(), 200);
    assert!(!d.check_and_mark("a", "hello"));
    for i in 0..199 {
        d.check_and_mark("d", &format!("{i}"));
        d.check_and_mark("d", "0");
    }
    assert!(d.check_and_mark("a", "hello"));
    assert_eq!(HiveDedup::fingerprint("a", "x"), HiveDedup::fingerprint("a", "x"));
    assert_ne!(HiveDedup::fingerprint("a", "x"), HiveDedup::fingerprint("a", "y"));
}

#[test]
fn messages_are_delivered_to_both_channels() {
    assert_eq!(sanitize("a\rb\nc"), sanitize(&sanitize("a\rb\nc")));
    let (c, e) = deliver_dm("ann", "hi", "M1");
    assert!(matches!(c, ChannelEvent::HiveDm { message_id, .. } if message_id == "M1"));
    assert!(matches!(e, AgentEvent::Hive { sender, text } if sender == "ann" && text == "hi"));
    let (c, e) = deliver_room("ann", "r1", "plans", "hi", "M2");
    assert!(matches!(c, ChannelEvent::HiveRoom { room_id, .. } if room_id == "r1"));
    assert!(matches!(e, AgentEvent::HiveRoom { room_topic, .. } if room_topic == "plans"));
    assert_ne!(new_message_id(), new_message_id());
    assert_eq!(readable(Ok("plain".to_string()), "raw"), "plain");
    assert_eq!(readable(Err("bad".to_string()), "raw"), "raw");
}

#[test]
fn only_the_creator_hands_out_room_keys() {
    let meta = r#"{"creator":"ann","members":["ann","bob"]}"#;
    let key = r#"{"msg_type":"key_distribution","keys":{"bob":{"nonce":"n","encrypted_key":"k"}}}"#;
    assert!(matches!(
        on_room_message("eve", "r", key, Some(meta), "bob", "https://x"),
        RoomAction::Reject { creator } if creator == "ann"
    ));
    assert!(matches!(
        on_room_message("eve", "r", "just text", Some(meta), "bob", "https://x"),
        RoomAction::Message
    ));
}

#[test]
fn polling_starts_after_what_is_there() {
    let body = json::parse(r#"{"messages":[{"id":4},{"id":9},{"id":7}]}"#).unwrap();
    let mut last: i64 = poll_seed(&body);
    assert_eq!(last, 4);
    let mut dedup = HiveDedup::new();
    let old = json::parse(r#"{"id":4,"from_agent":"ann","content":"x"}"#).unwrap();
    assert!(poll_step(&old, &mut last, "me", &mut dedup).is_none());
    assert_eq!(last, 4);
    let other = json::parse(r#"{"id":5,"to_agent":"bob","from_agent":"ann","content":"x"}"#).unwrap();
    assert!(poll_step(&other, &mut last, "me", &mut dedup).is_none());
    assert_eq!(last, 5);
    let mine = json::parse(r#"{"id":6,"to_agent":"me","from_agent":"ann","content":"x"}"#).unwrap();
    assert_eq!(
        poll_step(&mine, &mut last, "me", &mut dedup),
        Some(("ann".to_string(), "x".to_string()))
    );
    let again = json::parse(r#"{"id":7,"from_agent":"ann","content":"x"}"#).unwrap();
    assert!(poll_step(&again, &mut last, "me", &mut dedup).is_none());
    assert_eq!(last, 7);
}

#[test]
fn updates_are_taken_once() {
    assert!(!update_wanted("1.0.0", "1.0.0"));
    assert!(update_wanted("1.0.1", "1.0.0"));
    assert!(verify_checksum("abc", "abc  /tmp/x\n").is_ok());
    assert!(verify_checksum("abc", "abd  /tmp/x\n").is_err());
    let marker = json::parse(&update_marker("1.2.3", 77)).unwrap();
    assert_eq!(marker.text("version").unwrap(), "1.2.3");
    assert!(update_ready_path("/home/x/.b3").starts_with("/home/x/.b3/"));
    let answer = answer_body("s1", "v=0");
    assert_eq!(answer.text("sdp").unwrap(), "v=0");
}
