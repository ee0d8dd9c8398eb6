//! The daemon: terminal sessions, browsers, peers and the tunnel.

use b3_cli::config::Config;
use b3_cli::counters::PipelineCounters;
use b3_cli::cursor::clamp_cursor_up;
use b3_cli::ec2_proxy::{
    generate_keypair, handle_ec2_frame, http_error, http_response, init_frame, is_binary_type,
    keypair_path, load_keypair, load_or_generate_keypair, local_ws_url, message_for, method_of,
    on_payload, peer_domains, register_frame, register_url, response_body, session_base_url,
    url_to_domain, url_to_domain_pub, Attempt, FrameAction, Method, PayloadAction, Registration,
};
use b3_cli::events::{AgentEvent, Received};
use b3_cli::fork_state;
use b3_cli::ids::IdMap;
use b3_cli::json;
use b3_cli::protocol::Message;
use b3_cli::rtc::{
    answer_of, collect_answer, handle_control_message, handle_rpc, ice_servers, make_way,
    offer_refusal, relay, terminal_input, Bridge, BridgeStep, ControlAction, Kept, PeerEvent,
    PeerInfo, Relay, RelayStep,
};
use b3_cli::server::{
    after_probe, allow_tools, env_assignments, env_line, gpu_access, gpu_env_file, is_focus_report,
    is_running, new_tunnel_url, on_client_message, on_local_event, on_output, pid_of, pid_path,
    proxy_token, refresh_config, registration_servers, runpod_endpoint, stamp_version, welcome,
    with_channels, ClientAction, ConfigFields, LocalAction, OutputAction, Probe, Running,
};
use b3_cli::session::{Pusher, SessionBuffer, SessionStore};
use b3_cli::terminal::{
    auth_failed, auth_ok, auth_required, auth_step, cleanup_timeout, echo_pong, emit, greet,
    heartbeat, inbound, min_size, push_console, stale_sessions, stt_lost_notice, tts_lost_notice,
    AuthInput, AuthStep, Browsers, Consumer, Emission, Inbound,
};
use base64::Engine;

fn config() -> Config {
    Config {
        agent_id: "hc-1".to_string(),
        agent_email: "ann@example.com".to_string(),
        api_key: "key".to_string(),
        api_url: "https://babel3.com".to_string(),
        wg_address: String::new(),
        relay_endpoint: String::new(),
        relay_public_key: String::new(),
        push_interval_ms: 100,
        web_url: "https://babel3.com/a/ann".to_string(),
        b3_version: "1.0.0".to_string(),
        servers: vec![],
        auto_update: false,
    }
}

fn b64(b: &[u8]) -> String {
    base64::engine::general_purpose::STANDARD.encode(b)
}

// ── Terminal output ─────────────────────────────────────────────────

#[test]
fn deltas_carry_exactly_the_new_output() {
    let mut store = SessionStore::new();
    assert!(store.get().is_none());
    assert!(store.delta_msg(0).is_none());
    store.update(b"hello world".to_vec(), 24, 80, 11);
    let (msg, n) = store.delta_msg(5).unwrap();
    assert_eq!(n, 11);
    assert_eq!(msg.text("type").unwrap(), "delta");
    assert_eq!(msg.text("data").unwrap(), b64(b" world"));
    assert!(store.delta_msg(11).is_none());
    let b = SessionBuffer { terminal_data: b"tail".to_vec(), rows: 1, cols: 2, write_offset: 100 };
    let (msg, n) = b.delta_msg(10).unwrap();
    assert_eq!(n, 100);
    assert_eq!(msg.text("type").unwrap(), "full");
    assert_eq!(msg.text("terminal_data").unwrap(), b64(b"tail"));
    assert_eq!((msg.uint("rows"), msg.uint("cols")), (Some(1), Some(2)));
    assert!(b.init_msg().to_text().contains(&b64(b"tail")));
}

#[test]
fn the_pusher_keeps_the_last_output() {
    let mut p = Pusher::new(4);
    assert!(p.publish(24, 80).is_none());
    p.receive(b"abc");
    p.receive(b"def");
    let (buf, e) = p.publish(24, 80).unwrap();
    assert_eq!(buf.terminal_data, b"cdef");
    assert_eq!(buf.write_offset, 6);
    assert!(matches!(e, AgentEvent::SessionUpdated { size: 4 }));
}

#[test]
fn long_moves_up_are_clamped() {
    assert_eq!(clamp_cursor_up(b"\x1b[3A".to_vec()), b"\x1b[3A".to_vec());
    assert_eq!(clamp_cursor_up(b"plain".to_vec()), b"plain".to_vec());
    let huge = b"\x1b[99999999999999999999A".to_vec();
    assert_eq!(clamp_cursor_up(huge), b"\x1b[100A".to_vec());
    let long = clamp_cursor_up(b"\x1b[500A".to_vec());
    assert_ne!(long, b"\x1b[500A".to_vec());
    let mut many: Vec<u8> = Vec::new();
    for _ in 0..150 {
        many.extend_from_slice(b"\x1b[1A");
    }
    let kept = clamp_cursor_up(many);
    assert_eq!(kept, b"\x1b[1A".repeat(100));
}

// ── Browsers ────────────────────────────────────────────────────────

#[test]
fn only_the_password_opens_a_session() {
    let hash = Config::hash_daemon_password("sesame");
    let auth = |s: &str| auth_step(AuthInput::Text(s.to_string()), &hash);
    assert!(matches!(auth(r#"{"type":"auth","password":"sesame"}"#), AuthStep::Accept));
    assert!(matches!(auth(r#"{"type":"auth","password":"open"}"#), AuthStep::Refuse));
    assert!(matches!(auth(r#"{"type":"auth"}"#), AuthStep::Refuse));
    assert!(matches!(auth(r#"{"type":"ping"}"#), AuthStep::Wait));
    assert!(matches!(auth("x"), AuthStep::Wait));
    assert!(matches!(auth_step(AuthInput::Closed, &hash), AuthStep::End));
    assert!(matches!(auth_step(AuthInput::Other, &hash), AuthStep::Wait));
    assert!(matches!(auth_step(AuthInput::Binary(vec![1]), &hash), AuthStep::Buffer(b) if b == [1]));
    assert_eq!(auth_required().to_text(), r#"{"type":"auth_required"}"#);
    assert_eq!(auth_ok().to_text(), r#"{"type":"auth_ok"}"#);
    assert_eq!(
        auth_failed().to_text(),
        r#"{"error":"Invalid daemon password","type":"auth_failed"}"#
    );
    assert_eq!(greet(Some(7)).unwrap().to_text(), r#"{"session_id":7,"type":"welcome"}"#);
    assert!(greet(None).is_err());
    assert_eq!(heartbeat().to_text(), r#"{"type":"heartbeat"}"#);
    assert_eq!(echo_pong("9").to_text(), r#"{"id":"9","type":"echo_pong"}"#);
}

#[test]
fn browsers_share_the_smallest_size() {
    let mut b = Browsers::new();
    assert_eq!(b.resize(1, 40, 120), (40, 120));
    assert_eq!(b.resize(2, 24, 200), (24, 120));
    b.version(1, "v1".to_string());
    b.info(1, Some("Chrome".to_string()), Some(50), Some(true));
    assert_eq!(b.disconnect(2), Some((40, 120)));
    assert_eq!(b.disconnect(1), None);
    assert!(min_size(&IdMap::new()).is_none());
}

#[test]
fn silent_sessions_are_abandoned() {
    let mut silent: IdMap<u64> = IdMap::new();
    silent.insert(1, 121);
    silent.insert(2, 120);
    assert_eq!(stale_sessions(9, &[1, 2, 3, 9], &silent), vec![1, 3]);
    assert_eq!(cleanup_timeout(true), 1800);
    assert_eq!(cleanup_timeout(false), 300);
}

#[test]
fn frames_from_browsers_are_understood() {
    assert!(matches!(inbound("ls\n"), Inbound::Input { data } if data == "ls\n"));
    assert!(matches!(inbound("{bad"), Inbound::Ignore));
    assert!(matches!(
        inbound(r#"{"type":"resize","rows":30,"cols":100}"#),
        Inbound::Resize { rows: 30, cols: 100 }
    ));
    assert!(matches!(inbound(r#"{"type":"resize","rows":0,"cols":100}"#), Inbound::Ignore));
    assert!(matches!(inbound(r#"{"type":"echo_ping","id":"4"}"#), Inbound::EchoPong { id } if id == "4"));
    assert!(matches!(
        inbound(r#"{"type":"volume_change","volume":180}"#),
        Inbound::BrowserInfo { volume: Some(100), .. }
    ));
    assert!(matches!(inbound(r#"{"type":"rtc_inactive"}"#), Inbound::RtcInactive));
    assert_eq!(
        stt_lost_notice(3, "1.5", "20"),
        "[TRANSCRIPTION LOST] seq=3 duration=1.5s energy=20 — audio saved to daemon for recovery"
    );
    let (file, notice) = tts_lost_notice("m1", "play", "boom", 99, "hi");
    assert_eq!(file, "m1_99.txt");
    assert_eq!(
        notice,
        "[TTS LOST] msg=m1 stage=play error=boom file=~/.b3/lost-tts/m1_99.txt text=\"hi\""
    );
    let mut buf: Vec<String> = Vec::new();
    push_console(&mut buf, (0..600).map(|i| format!("{i}")).collect());
    assert_eq!(buf.len(), 500);
    assert_eq!(buf[0], "100");
}

#[test]
fn events_reach_browsers() {
    let e = AgentEvent::Transcription { text: "hi".to_string() };
    match emit(&e, false, &[]) {
        Emission::Critical(j) => assert_eq!(j.to_text(), r#"{"text":"hi","type":"transcription"}"#),
        other => panic!("Expected Critical, got: {other:?}"),
    }
    let e = AgentEvent::Tts {
        text: "t".to_string(),
        msg_id: "m".to_string(),
        voice: "v".to_string(),
    };
    assert!(matches!(emit(&e, true, &[]), Emission::Nothing));
    let mut store = SessionStore::new();
    store.update(b"abc".to_vec(), 24, 80, 3);
    let mut c = Consumer::new(0);
    let updated = Received::Item(AgentEvent::SessionUpdated { size: 3 });
    assert!(matches!(c.step(&updated, &store, false, &[]), Emission::BestEffort(_)));
    assert_eq!(c.sent_offset, 3);
    for _ in 0..4 {
        assert!(matches!(c.step(&Received::Lagged(1), &store, false, &[]), Emission::Nothing));
    }
    assert!(matches!(c.step(&Received::Lagged(1), &store, false, &[]), Emission::Stop));
}

// ── The tunnel ──────────────────────────────────────────────────────

#[test]
fn domains_and_urls_of_the_tunnel() {
    assert_eq!(url_to_domain("https://babel3.com/x"), url_to_domain_pub("https://babel3.com/x"));
    assert_eq!(url_to_domain("https://babel3.com/"), "babel3.com");
    assert_eq!(url_to_domain("babel3.com:8443"), "babel3.com:8443");
    assert_eq!(
        register_url("babel3.com", "hc-1"),
        "wss://babel3.com/api/daemon-register?agent_id=hc-1"
    );
    assert_eq!(session_base_url("babel3.com"), "wss://babel3.com/api/daemon-session");
    assert_eq!(
        peer_domains(&["https://a.x".to_string(), "https://b.x/".to_string()]),
        vec!["b.x".to_string()]
    );
    assert_eq!(
        local_ws_url(8080, "tok", 5),
        "ws://127.0.0.1:8080/ws-proxy?proxy_token=tok&session_id=5"
    );
    let (secret, text) = generate_keypair();
    assert_eq!(load_keypair(Some(&text)), Some(secret));
    assert_eq!(load_or_generate_keypair(Some(&text)), (secret, None));
    assert!(load_or_generate_keypair(Some("bad")).1.is_some());
    assert!(keypair_path("/d").starts_with("/d/"));
    let f = register_frame(&secret, 99);
    let public = x25519_dalek::PublicKey::from(&x25519_dalek::StaticSecret::from(secret));
    assert_eq!(f.text("pubkey").unwrap(), b64(public.as_bytes()));
    assert_eq!(f.uint("lan_port"), Some(99));
    assert_eq!(f.truth("multi_server"), Some(true));
}

#[test]
fn registration_backs_off() {
    let mut r = Registration::new();
    assert_eq!(r.after(Attempt::Failed), 1);
    assert_eq!(r.after(Attempt::Failed), 2);
    for _ in 0..10 {
        r.after(Attempt::Failed);
    }
    assert_eq!(r.after(Attempt::Failed), 30);
}

#[test]
fn nothing_passes_before_the_handshake() {
    assert!(matches!(handle_ec2_frame(b"xx", false), FrameAction::Ignore));
    let hs = br#"{"type":"handshake","pubkey":"p","session_id":7}"#;
    assert!(matches!(
        handle_ec2_frame(hs, false),
        FrameAction::Connect { reset: false, session_id: 7 }
    ));
    assert!(matches!(
        handle_ec2_frame(hs, true),
        FrameAction::Connect { reset: true, session_id: 7 }
    ));
    assert!(matches!(handle_ec2_frame(b"\x00\x01", true), FrameAction::Decrypt));
}

#[test]
fn requests_stay_on_the_daemons_paths() {
    let req = br#"{"type":"http_request","id":"1","method":"POST","path":"/api/tts","body":"{}"}"#;
    match on_payload(req.to_vec()) {
        PayloadAction::Request { id, method, path, .. } => {
            assert_eq!(id, "1");
            assert_eq!(method, Method::Post);
            assert_eq!(path, "/api/tts");
        }
        other => panic!("Expected Request, got: {other:?}"),
    }
    let bad = br#"{"type":"http_request","id":"1","method":"GET","path":"http://evil"}"#;
    assert!(matches!(on_payload(bad.to_vec()), PayloadAction::Reply(_)));
    assert!(matches!(on_payload(b"keys".to_vec()), PayloadAction::ForwardText(s) if s == "keys"));
    assert!(matches!(on_payload(vec![0xff]), PayloadAction::ForwardBytes(_)));
    assert_eq!(method_of("DELETE"), Method::Delete);
    assert_eq!(method_of("anything"), Method::Get);
    assert!(is_binary_type("audio/wav") && !is_binary_type("application/json"));
    assert_eq!(response_body("application/json", b"{}"), "{}");
    assert_eq!(response_body("audio/wav", &[0xff]), b64(&[0xff]));
    assert_eq!(http_response("1", 200, "b", "text/plain").uint("status"), Some(200));
    assert!(http_error("1", "boom").to_text().contains("boom"));
    let e = AgentEvent::Led { emotion: "joy".to_string() };
    assert_eq!(message_for(&e).unwrap().text("emotion").unwrap(), "joy");
    let mut store = SessionStore::new();
    let mut offset: u64 = 0;
    assert!(init_frame(&store, &mut offset).is_none());
    store.update(b"abc".to_vec(), 24, 80, 9);
    assert!(init_frame(&store, &mut offset).is_some());
    assert_eq!(offset, 9);
}

// ── Peers ───────────────────────────────────────────────────────────

#[test]
fn a_browser_has_one_peer() {
    assert!(offer_refusal(Some(1), true).is_none());
    assert!(offer_refusal(Some(1), false).is_some());
    assert!(offer_refusal(None, false).is_none());
    let peers = vec![
        PeerInfo { session_id: "a".to_string(), browser_session_id: Some(1), finished: false },
        PeerInfo { session_id: "b".to_string(), browser_session_id: Some(2), finished: false },
        PeerInfo { session_id: "c".to_string(), browser_session_id: Some(3), finished: true },
    ];
    let (finished, stopped) = make_way(&peers, Some(1));
    assert_eq!(finished, vec!["c".to_string()]);
    assert_eq!(stopped, vec!["a".to_string()]);
    let v = ice_servers(None, None, None);
    assert_eq!(v.len(), 1);
    assert_eq!(v[0].url, "stun:stun.l.google.com:19302");
    let v = ice_servers(Some("stun:s"), Some("t.example"), Some(("u", "p")));
    assert_eq!(v[0].url, "stun:s");
    assert!(v.iter().any(|s| s.username.as_deref() == Some("u")));
}

#[test]
fn an_answer_is_collected() {
    let mut answer: Option<String> = None;
    assert!(!collect_answer(&mut answer, PeerEvent::Other));
    assert!(!collect_answer(
        &mut answer,
        PeerEvent::LocalDescription { sdp: "v=0".to_string(), sdp_type: "answer".to_string() }
    ));
    assert!(collect_answer(&mut answer, PeerEvent::GatheringComplete { description: None }));
    assert_eq!(answer_of(answer).unwrap(), "v=0");
    assert!(answer_of(None).is_err());
}

#[test]
fn a_lost_peer_has_a_grace_period() {
    let mut b = Bridge::new();
    assert_eq!(b.on_state("disconnected", 1_000), BridgeStep::Suspend);
    assert!(!b.expired(30_999));
    assert!(b.expired(31_000));
    assert_eq!(b.on_state("connected", 2_000), BridgeStep::Continue);
    assert!(!b.expired(99_000));
    assert_eq!(b.on_state("closed", 3_000), BridgeStep::Close);
    assert!(matches!(terminal_input(b"ls"), Some(AgentEvent::PtyInput { data }) if data == "ls"));
    let mut r = Relay::new();
    assert!(matches!(r.step(&Received::Closed), RelayStep::End));
    let e = AgentEvent::Led { emotion: "joy".to_string() };
    assert!(relay(&e).is_some());
}

#[test]
fn control_messages_wait_for_the_password() {
    let hash = Config::hash_daemon_password("sesame");
    let mut ok: bool = false;
    let input = json::parse(r#"{"type":"rpc","id":"1","path":"/api/tts-history"}"#).unwrap();
    let first = handle_control_message(&input, Some(&hash), &mut ok);
    assert!(!matches!(first, ControlAction::Rpc { .. }));
    let auth = json::parse(r#"{"type":"auth","password":"sesame"}"#).unwrap();
    assert!(matches!(handle_control_message(&auth, Some(&hash), &mut ok), ControlAction::Reply(_)));
    assert!(ok);
    assert!(matches!(handle_control_message(&input, Some(&hash), &mut ok), ControlAction::Rpc { .. }));
    let kept = Kept {
        tts_history: json::parse("[1]").unwrap(),
        info_archive: json::parse("[]").unwrap(),
        console: vec![],
        local_gpu_url: String::new(),
        force_lowercase: true,
    };
    let (reply, event) = handle_rpc("1", "/api/unknown", None, &kept);
    assert!(event.is_none());
    assert_eq!(reply.text("id").unwrap(), "1");
}

// ── Running ─────────────────────────────────────────────────────────

#[test]
fn the_daemon_knows_whether_it_runs() {
    assert_eq!(pid_path("/d"), "/d/b3.pid");
    assert_eq!(pid_of(" 42\n"), Some(42));
    assert_eq!(pid_of("x"), None);
    assert_eq!(is_running(false, None, false), Running::No);
    assert_eq!(is_running(true, Some(42), true), Running::Yes);
    assert_eq!(is_running(true, Some(42), false), Running::Stale);
    assert_eq!(after_probe(1, true), Probe::Connected);
    assert!(matches!(after_probe(1, false), Probe::Retry(_)));
    assert_eq!(after_probe(5, false), Probe::GiveUp);
}

#[test]
fn the_config_follows_the_server() {
    let mut c = config();
    assert!(!stamp_version(&mut c, "1.0.0"));
    assert!(stamp_version(&mut c, "1.1.0"));
    assert_eq!(c.b3_version, "1.1.0");
    let changed = refresh_config(
        &mut c,
        ConfigFields {
            agent_email: "new@example.com".to_string(),
            api_url: "https://babel3.com".to_string(),
            web_url: "https://babel3.com/a/new".to_string(),
            servers: vec![],
        },
    );
    assert!(changed);
    assert_eq!(c.web_url, "https://babel3.com/a/new");
    assert_eq!(c.agent_email, "new@example.com");
    assert_eq!(c.api_url, "https://babel3.com");
    c.servers = vec!["https://babel3.com".to_string(), "https://b.example".to_string()];
    assert_eq!(
        registration_servers(&c),
        vec!["https://babel3.com".to_string(), "https://b.example".to_string()]
    );
    let mut ported = config();
    ported.api_url = "https://babel3.com:8443".to_string();
    ported.servers = vec!["wss://babel3.com:8443/x".to_string(), "https://babel3.com".to_string()];
    assert_eq!(
        registration_servers(&ported),
        vec!["https://babel3.com:8443".to_string(), "https://babel3.com".to_string()]
    );
    let settings = allow_tools(json::parse(r#"{"x":1}"#).unwrap());
    assert_eq!(settings.to_text(), r#"{"permissions":{"allow":["mcp__b3__"]},"x":1}"#);
    assert_eq!(
        with_channels(vec!["-p".to_string()]),
        vec!["-p".to_string(), "--channels".to_string(), "plugin:b3".to_string()]
    );
    assert_ne!(proxy_token(), proxy_token());
}

#[test]
fn gpu_settings_are_read() {
    assert_eq!(env_line("A=1"), Some(("A".to_string(), "1".to_string())));
    assert_eq!(env_line("# A=1"), None);
    assert_eq!(env_assignments("A=1\n\nB=2\n").len(), 2);
    assert_eq!(runpod_endpoint("https://api.runpod.ai/v2/abc/runsync").unwrap(), "abc");
    assert!(runpod_endpoint("https://other").is_none());
    assert!(gpu_access(&json::parse("{}").unwrap()).is_none());
    assert!(gpu_env_file("", "", "", "").is_none());
    assert!(gpu_env_file("g", "k", "", "").unwrap().contains("RUNPOD_GPU_ID=g"));
    let body = json::parse(r#"{"local_gpu_url":"https://t"}"#).unwrap();
    assert!(new_tunnel_url(&body, "https://t").is_none());
    assert_eq!(new_tunnel_url(&body, "https://old").unwrap(), "https://t");
    let empty = json::parse(r#"{"local_gpu_url":""}"#).unwrap();
    assert!(new_tunnel_url(&empty, "https://old").is_none());
}

#[test]
fn clients_are_served() {
    assert_eq!(welcome(24, 80, b"hi").len(), 2);
    assert_eq!(welcome(24, 80, b"").len(), 1);
    let c = config();
    let mut size: (u16, u16) = (24, 80);
    let input = Some(Message::Input(b"x".to_vec()));
    assert!(matches!(on_client_message(input, &c, true, &mut size), ClientAction::Write(_)));
    let resize = Some(Message::Resize { rows: 30, cols: 90 });
    assert!(matches!(
        on_client_message(resize, &c, true, &mut size),
        ClientAction::Resize { rows: 30, cols: 90 }
    ));
    assert_eq!(size, (30, 90));
    assert!(matches!(on_client_message(Some(Message::Stop), &c, true, &mut size), ClientAction::Shutdown));
    assert!(matches!(on_client_message(None, &c, true, &mut size), ClientAction::Close));
    assert!(matches!(on_output(Received::Item(vec![1])), OutputAction::Send(Message::Output(_))));
    assert!(matches!(on_output(Received::Lagged(2)), OutputAction::Nothing));
    assert!(is_focus_report("\x1b[I") && !is_focus_report("i"));
    let e = AgentEvent::PtyInput { data: "a".to_string() };
    assert!(matches!(on_local_event(&e), LocalAction::Write(_)));
}

#[test]
fn the_fork_state_is_set_once() {
    let mut s = fork_state::unset();
    assert!(fork_state::config_dir(&s).is_none());
    fork_state::init(&mut s, "/a".to_string(), "/b".to_string(), None, Some(3000), true);
    fork_state::init(&mut s, "/x".to_string(), "/y".to_string(), None, None, false);
    assert_eq!(fork_state::config_dir(&s).unwrap(), "/a");
    assert_eq!(fork_state::start_cwd(&s).unwrap(), "/b");
    assert!(fork_state::browser_dir(&s).is_none());
    assert_eq!(fork_state::app_port(&s), Some(3000));
    assert!(fork_state::app_public(&s));
    let mut c = PipelineCounters {
        pty_reads: 1, pty_broadcast_sends: 2, pusher_recvs: 3, store_updates: 4, events_sent: 5,
        event_consumer_recvs: 6, delta_msg_some: 7, emit_ok: 8, bridge_recvs: 9, bridge_sends: 10,
        transport_writes: 11, acks_received: 12, browser_frames_in: 13,
    };
    c.pty_reads = 100;
    assert!(c.snapshot().to_line().contains("100"));
}
