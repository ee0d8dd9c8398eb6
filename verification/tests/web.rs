//! The web server: access, files, speech, archives and the routes to the hive.

use b3_cli::archives::{extract_info_title, InfoArchive, TtsArchive, TtsEntry};
use b3_cli::clock::Timestamp;
use b3_cli::events::AgentEvent;
use b3_cli::files::{
    change_failed, conflict, copied, delete_request, deleted, file_upload_json, image_mime,
    is_shown, language, list_files, looks_binary, lost_audio, lost_notice, lost_reply,
    name_request, no_directory, obstacle, place_upload, read_file, read_file_raw, read_path,
    recover_url, refuse, renamed, resolve, resolve_dir, rounded_kb, safe_name, sort_entries,
    target, upload_notice, upload_refusal, uploaded, write_request, written, FileInfo,
};
use b3_cli::gpu_client::{
    after_local, after_runpod, conditionals_of, job_body, pcm_bytes, stream_access, submit_job,
    voice_urls, Answer, GpuConfig, PollState, Submit, VoiceCache,
};
use b3_cli::hive_routes::{
    content_of, create_room, created_room, destroy_key_body, encrypted_request, hive_messages,
    hive_send, proxy_error, proxy_url, room_members, room_message_body, room_path, room_send,
    timelock_request,
};
use b3_cli::json::{self, Json};
use b3_cli::speech::{
    chunk_text, clean_for_tts, flatten, keep_ascii, lower, spell, strip_emoji, strip_markup,
};
use b3_cli::voice::{
    audio_refusal, confidence, effective_voice, fetch_force_lowercase, injection,
    is_default_voice, maker, merge, register_voice_job, report_voice_job, resolve_agent_voice,
    stt_after_local, stt_first, stt_unavailable, transcribe_payload, transcription_callback,
    tts_audio_callback, tts_request, voice_report, whisper_reply, whisper_text, Maker, Similarity,
    SttBackends, SttStep, Tier,
};
use b3_cli::web::{
    allowed_origins, auth_cookie, auth_middleware, browser_console, check_token, is_open,
    dev_dashboard, load_env_file, no_template, site_placeholder, strip_prefix, Access, AgentPage,
};
use base64::Engine;

fn parse(s: &str) -> Json {
    json::parse(s).unwrap()
}

fn b64(b: &[u8]) -> String {
    base64::engine::general_purpose::STANDARD.encode(b)
}

// ── Access ──────────────────────────────────────────────────────────

#[test]
fn tokens_are_checked() {
    assert!(check_token(Some("Bearer k"), None, None, "k"));
    assert!(!check_token(Some("Bearer x"), Some("token=k"), None, "k"));
    assert!(check_token(None, Some("a=1&token=k"), None, "k"));
    assert!(check_token(None, None, Some("a=1; b3_token=k"), "k"));
    assert!(!check_token(None, None, None, "k"));
    assert!(is_open("/health", "GET") && is_open("/x", "OPTIONS") && !is_open("/", "GET"));
    assert!(matches!(auth_middleware("/", "GET", None, None, None, "k"), Access::Refused));
    assert!(matches!(auth_middleware("/health", "GET", None, None, None, "k"), Access::Allowed));
    assert!(matches!(
        auth_middleware("/", "GET", Some("Bearer k"), None, None, "k"),
        Access::Allowed
    ));
    match auth_middleware("/", "GET", None, Some("token=k"), None, "k") {
        Access::SetsCookie(c) => assert_eq!(c, auth_cookie("k")),
        other => panic!("Expected SetsCookie, got: {other:?}"),
    }
    assert_eq!(
        auth_cookie("k"),
        "b3_token=k; Path=/; HttpOnly; SameSite=None; Secure; Max-Age=86400"
    );
    assert_eq!(strip_prefix("abc", "a").unwrap(), "bc");
    let o = allowed_origins("hey-code.ai", "babel3.com", "https://hey-code.ai");
    assert!(o.contains(&"https://hey-code.ai".to_string()));
    assert!(o.contains(&"https://babel3.com".to_string()));
    assert!(!o.contains(&"http://localhost:3000".to_string()));
}

#[test]
fn environment_files_fill_in() {
    let set = load_env_file("A=1\nB=2\n# C=3\n");
    assert_eq!(
        set,
        vec![("A".to_string(), "1".to_string()), ("B".to_string(), "2".to_string())]
    );
    let page = AgentPage {
        agent_id: "hc-1".to_string(),
        agent_name: "ann".to_string(),
        agent_email: "ann@x".to_string(),
        api_key: "k".to_string(),
        api_url: "https://x".to_string(),
        server_domain: "x".to_string(),
    };
    assert!(site_placeholder(&page).contains("<html"));
    assert!(dev_dashboard("<p>{{AGENT_ID}}</p>", &page, "1.2.3").contains("hc-1"));
    assert!(no_template("/t").contains("/t"));
}

#[test]
fn the_console_is_filtered() {
    let lines: Vec<String> = (0..150).map(|i| format!("line {i}")).collect();
    let all = browser_console(&lines, None, None, None);
    assert!(all.to_text().contains("line 149"));
    assert!(!all.to_text().contains("line 49\""));
    let some = browser_console(&lines, Some("2"), Some("14"), None);
    assert!(some.to_text().contains("line 149") && some.to_text().contains("line 148"));
    assert!(!some.to_text().contains("line 147"));
}

// ── Files ───────────────────────────────────────────────────────────

#[test]
fn paths_are_resolved() {
    assert_eq!(resolve("/home/a", "/etc"), "/etc");
    assert_eq!(resolve("/home/a", "~/x"), "/home/a/x");
    assert_eq!(resolve("/home/a", "x"), "/home/a/x");
    assert_eq!(resolve_dir("/home/a", None), "/home/a");
    assert_eq!(read_path("/home/a", None).unwrap_err().status, 400);
    assert_eq!(read_path("/home/a", Some("x")).unwrap(), "/home/a/x");
}

fn file(name: &str, is_dir: bool) -> FileInfo {
    FileInfo { name: name.to_string(), is_dir, size: 1, modified: 2 }
}

#[test]
fn directories_come_first() {
    let v = sort_entries(vec![file("b", false), file("Z", true), file("A", false), file("y", true)]);
    let names: Vec<&str> = v.iter().map(|f| f.name.as_str()).collect();
    assert_eq!(names, vec!["y", "Z", "A", "b"]);
    assert!(is_shown("a", None) && !is_shown(".a", None));
    let r = list_files(true, None, "/home/a", vec![file("b", false)]);
    assert_eq!(r.status, 200);
    assert!(r.body.to_text().contains("\"b\""));
    assert_eq!(no_directory(false, "x").status, 404);
}

#[test]
fn files_are_read_by_kind() {
    assert_eq!(image_mime("svg"), Some("image/svg+xml"));
    assert_eq!(image_mime("rs"), None);
    assert_eq!(language("rs"), "rust");
    assert_eq!(language("zzz"), "text");
    assert!(looks_binary(b"a\0b") && !looks_binary(b"ab"));
    assert!(refuse(true, "", 0).is_some());
    assert!(refuse(false, "txt", 1_048_576).is_none());
    assert!(refuse(false, "txt", 1_048_577).is_some());
    assert!(refuse(false, "PNG", 1_048_577).is_none());
    assert!(refuse(false, "png", 10_485_761).is_some());
    let r = read_file("x.rs", "x.rs", "rs", b"a\nb\n", 4, 9);
    assert_eq!(r.body.uint("lines"), Some(2));
    assert_eq!(r.body.text("language").unwrap(), "rust");
    let r = read_file("x.png", "x.png", "png", &[1, 2], 2, 9);
    assert_eq!(
        r.body.text("data_url").unwrap(),
        format!("data:image/png;base64,{}", b64(&[1, 2]))
    );
    let r = read_file("x", "x", "", &[0], 1, 9);
    assert_eq!(r.body.text("type").unwrap(), "binary");
    let r = read_file("x", "x", "", &[0xff, b'a'], 2, 9);
    assert_eq!(r.body.text("content").unwrap(), "\u{fffd}a");
    assert!(read_file_raw("pdf", 20_971_521).is_none());
}

#[test]
fn files_are_changed() {
    let c = write_request("/h", &parse(r#"{"path":"x","content":"hi"}"#)).unwrap();
    assert_eq!((c.path.as_str(), c.value.as_str()), ("/h/x", "hi"));
    assert_eq!(write_request("/h", &parse("{}")).unwrap_err().status, 400);
    assert_eq!(name_request("/h", &parse(r#"{"path":"x"}"#)).unwrap_err().status, 400);
    assert_eq!(delete_request("/h", &parse(r#"{"path":"/x"}"#)).unwrap(), "/x");
    assert_eq!(target(Some("/d"), Some("/p"), "/h", "n"), "/d/n");
    assert_eq!(target(None, Some("/p"), "/h", "n"), "/p/n");
    assert!(obstacle(false, false, "delete").is_some());
    assert!(obstacle(true, true, "delete").is_none());
    assert_eq!(conflict().status, 409);
    assert_eq!(change_failed("write", "boom").status, 500);
    for r in [written("x", "hi"), renamed("a", "b"), copied("a", "b", 3), deleted("x")] {
        assert_eq!(r.status, 200);
    }
}

#[test]
fn uploads_are_placed() {
    assert_eq!(safe_name("../a\\b"), "__a_b");
    let u = place_upload("a/b", None, "/h", 77);
    assert_eq!(u.path, "/h/uploads/77_a_b");
    let u = place_upload("a.txt", Some("/d"), "/h", 77);
    assert_eq!(u.path, "/d/a.txt");
    assert_eq!(upload_refusal(None), Some(400));
    assert_eq!(upload_refusal(Some(52_428_801)), Some(413));
    assert_eq!(upload_refusal(Some(52_428_800)), None);
    for n in [0usize, 511, 512, 513, 1024, 1536, 2560, 3584, 1_000_000] {
        assert_eq!(rounded_kb(n).to_string(), format!("{:.0}", n as f64 / 1024.0));
    }
    assert_eq!(upload_notice("/d/a", 2048), "[file-upload] /d/a (2 KB)");
    assert_eq!(uploaded(&u, 2048).uint("size_kb"), Some(2));
    let j = parse(&format!(r#"{{"filename":"a","data_b64":"{}"}}"#, b64(b"hi")));
    assert_eq!(file_upload_json(&j).unwrap().data, b"hi");
    assert_eq!(file_upload_json(&parse("{}")).unwrap_err(), 400);
}

#[test]
fn lost_audio_is_kept() {
    let j = parse(&format!(r#"{{"seq":4,"audio_b64":"{}"}}"#, b64(b"aa")));
    let l = lost_audio(&j, "/h", 9).unwrap();
    assert_eq!(l.file_name, "lost_seq4_9.webm");
    assert_eq!(l.path, "/h/.b3/lost-audio/lost_seq4_9.webm");
    assert_eq!(l.audio, b"aa");
    assert_eq!(lost_audio(&parse("{}"), "/h", 9).unwrap_err(), 400);
    assert_eq!(recover_url("http://g/", ""), "http://g/runsync");
    assert_eq!(recover_url("", "id"), "https://api.runpod.ai/v2/id/runsync");
    assert!(lost_notice(&l, "1.0", "u").starts_with("[LOST AUDIO SAVED] seq=4 duration=1.0s"));
    assert_eq!(
        lost_reply(&l, Json::Uint(1)).text("path").unwrap(),
        "~/.b3/lost-audio/lost_seq4_9.webm"
    );
}

// ── Speech ──────────────────────────────────────────────────────────

#[test]
fn markup_is_not_spoken() {
    assert_eq!(clean_for_tts("**Hello** [there](http://x.y)", true), "Hello there");
    assert_eq!(clean_for_tts("Use the API now", true), "Use the api now");
    assert_eq!(clean_for_tts("Use the API now", false), "Use the API now");
    assert_eq!(strip_markup("# Title"), "Title");
    assert_eq!(lower("ABC"), "abc");
    assert_eq!(keep_ascii("a\u{e9}b"), "ab");
    assert!(!strip_emoji("a\u{1f600}b").contains('\u{1f600}'));
    assert!(!flatten("a\nb").contains('\n'));
    assert!(spell("a\u{2019}b").is_ascii());
}

#[test]
fn speech_is_cut_at_sentences() {
    assert!(chunk_text("  ").is_empty());
    assert_eq!(chunk_text("Short."), vec!["Short.".to_string()]);
    let s = "This is a sentence of a certain length that goes on. ".repeat(12);
    let v = chunk_text(&s);
    assert!(v.len() > 1);
    for c in &v {
        assert!(c.ends_with('.'));
    }
    assert_eq!(v.join(" "), s.trim());
}

// ── The voice pipeline ──────────────────────────────────────────────

#[test]
fn the_local_gpu_comes_first() {
    let c = GpuConfig::from_env(Some("http://g"), Some("t"), Some("id"), Some("k"));
    match submit_job(&c) {
        Submit::TryLocal { url, auth } => {
            assert_eq!(url, "http://g/run");
            assert_eq!(auth.unwrap(), "Bearer t");
        }
        other => panic!("Expected TryLocal, got: {other:?}"),
    }
    let down = Answer::Unreached("down".to_string());
    match after_local(&c, &down) {
        Submit::TryRunpod { url, auth } => {
            assert_eq!(url, "https://api.runpod.ai/v2/id/run");
            assert_eq!(auth.unwrap(), "Bearer k");
        }
        other => panic!("Expected TryRunpod, got: {other:?}"),
    }
    assert!(matches!(after_runpod(&c, &down), Submit::Fail(_)));
    let ok = Answer::Status {
        success: true,
        code: 200,
        shown: "200 OK".to_string(),
        body: r#"{"id":"j1"}"#.to_string(),
    };
    match after_local(&c, &ok) {
        Submit::Submitted { job_id, base_url } => {
            assert_eq!((job_id.as_str(), base_url.as_str()), ("j1", "http://g"));
        }
        other => panic!("Expected Submitted, got: {other:?}"),
    }
    let odd = Answer::Status {
        success: true,
        code: 200,
        shown: "200 OK".to_string(),
        body: "<html>".to_string(),
    };
    for step in [after_local(&c, &odd), after_runpod(&c, &odd)] {
        match step {
            Submit::Fail(e) => assert_eq!(e, "error decoding response body"),
            other => panic!("Expected Fail, got: {other:?}"),
        }
    }
    let none = GpuConfig::from_env(None, None, None, None);
    assert!(matches!(submit_job(&none), Submit::Fail(_)));
    assert_eq!(job_body(parse(r#"{"a":1}"#)).to_text(), r#"{"input":{"a":1}}"#);
    assert_eq!(stream_access(&c, "http://g", "j1").0, "http://g/stream/j1");
}

#[test]
fn streamed_parts_are_put_in_order() {
    let mut p = PollState::new();
    p.on_parts(vec![(1, vec![2]), (0, vec![1])], true);
    assert_eq!(p.finish().unwrap(), vec![vec![1], vec![2]]);
    let p = PollState::new();
    assert!(p.finish().is_err());
    assert_eq!(pcm_bytes(&[]), Some(0));
    let mut v = VoiceCache::new();
    v.keep("ann", "data", 1_000);
    assert_eq!(v.get_cached_conditionals("ann", 1_001).unwrap(), "data");
    assert!(v.get_cached_conditionals("ann", 301_000).is_none());
    assert!(v.get_cached_conditionals("bob", 1_001).is_none());
    assert!(voice_urls("https://x", "hc-1", "ann").0.starts_with("https://x"));
    assert!(conditionals_of(&Answer::Unreached(String::new())).is_none());
}

#[test]
fn jobs_are_reported() {
    assert!(report_voice_job("https://x", "", "done", "1", None).is_none());
    let r = report_voice_job("https://x", "j", "done", "1", Some(parse(r#"{"k":2}"#))).unwrap();
    assert!(r.url.contains("j") && r.body.to_text().contains("\"k\":2"));
    assert!(register_voice_job("https://x", "j", "hc", "tts", "1", None).is_some());
    assert_eq!(merge(parse(r#"{"a":1}"#), Some(parse(r#"{"b":2}"#))).to_text(), r#"{"a":1,"b":2}"#);
}

#[test]
fn speech_is_recognised() {
    assert_eq!(audio_refusal(None), Some(400));
    assert_eq!(audio_refusal(Some(10)), None);
    let p = transcribe_payload(b"au", "hc-1").to_text();
    assert!(p.contains(&b64(b"au")));
    let b = SttBackends::from_env(Some("http://g"), None, Some("id"), Some("k"), None);
    assert!(matches!(stt_first(&b), SttStep::TryLocal { .. }));
    let down = Answer::Unreached("down".to_string());
    assert!(matches!(stt_after_local(&b, &down), SttStep::TryRunpod { .. }));
    let b = SttBackends::from_env(None, None, None, None, None);
    assert!(matches!(stt_first(&b), SttStep::TryWhisper { .. }));
    assert_eq!(confidence(Similarity::High, "a", "a"), Tier::High);
    assert_eq!(confidence(Similarity::Low, "a", "b"), Tier::Noise);
    assert!(injection("hi", "hi", "1.0", "1.1", "0.99").contains("hi"));
    assert_eq!(whisper_text(&parse(r#"{"text":" hi "}"#)), "hi");
    assert!(whisper_reply("hi").to_text().contains("hi"));
    assert!(stt_unavailable("http://w").to_text().contains("http://w"));
    let (said, job) = transcription_callback(&parse(r#"{"text":"hi","voice_job_id":"j"}"#));
    assert_eq!(said, "hi");
    assert_eq!(job, "j");
}

#[test]
fn speech_is_requested() {
    assert!(tts_request(&parse("{}")).is_err());
    let t = tts_request(&parse(r#"{"text":"hi","emotion":"joy"}"#)).unwrap();
    assert_eq!((t.text.as_str(), t.emotion.as_str()), ("hi", "joy"));
    assert!(fetch_force_lowercase(&Answer::Unreached(String::new())));
    assert!(resolve_agent_voice(&Answer::Unreached(String::new())).is_none());
    assert!(is_default_voice(""));
    assert_eq!(effective_voice("", Some("ann".to_string())), "ann");
    assert_eq!(effective_voice("bob", Some("ann".to_string())), "bob");
    assert_eq!(maker(0), Maker::Daemon);
    assert_eq!(maker(1), Maker::Watched);
    let e = tts_audio_callback(
        &parse(r#"{"msg_id":"m","chunk":1,"total":2,"audio_b64":"AA=="}"#),
        "1.0".to_string(),
        "2.0".to_string(),
    );
    assert!(matches!(e, Some(AgentEvent::TtsAudioData { chunk: 1, total: 2, .. })));
    let r = voice_report(&parse(
        r#"{"msg_id":"m","status":"played","chunks_played":1,"chunks_scheduled":2,"volume":40}"#,
    ));
    assert!(format!("{r:?}").contains("[voice-report] msg=m status=played chunks=1/2 vol=40%"));
}

// ── Archives ────────────────────────────────────────────────────────

fn entry(id: &str) -> TtsEntry {
    TtsEntry {
        msg_id: id.to_string(),
        text: String::new(),
        original_text: String::new(),
        voice: String::new(),
        emotion: String::new(),
        replying_to: String::new(),
        timestamp: 1,
        duration_sec: "1.0".to_string(),
        size_bytes: 1,
    }
}

#[test]
fn archives_keep_the_newest() {
    let mut a = TtsArchive::open(vec![]);
    for i in 0..60 {
        let gone = a.store(entry(&format!("m{i}")));
        assert_eq!(gone.len(), if i < 50 { 0 } else { 1 });
    }
    assert_eq!(a.list().len(), 50);
    assert_eq!(a.list()[0].msg_id, "m59");
    assert!(a.contains("m10") && !a.contains("m9"));
    assert_eq!(a.audio_path("/d", "m59").unwrap(), "/d/m59.wav");
    assert!(a.audio_path("/d", "m0").is_none());
    let mut i = InfoArchive::open(vec![]);
    i.store(5, "t".to_string(), "<p>".to_string());
    i.store(6, "u".to_string(), "<q>".to_string());
    assert_eq!(i.len(), 2);
    assert_eq!((i.list()[0].index, i.list()[0].title.as_str()), (1, "u"));
    assert_eq!(i.get(0).unwrap().html, "<p>");
    assert_eq!(i.latest().unwrap().ts, 6);
    assert!(i.get(2).is_none());
}

#[test]
fn titles_come_from_headings() {
    assert_eq!(extract_info_title("<p>x</p><h2 class=\"a\"> Hi </h2>"), "Hi");
    assert_eq!(extract_info_title("<h1>Hi <em>you</em></h1>"), "Hi you");
    assert_eq!(extract_info_title("<p>plain</p>"), "plain");
    assert_eq!(extract_info_title("<p></p>"), "Info");
    assert_eq!(extract_info_title(&"x".repeat(80)).len(), 60);
}

// ── The hive ────────────────────────────────────────────────────────

#[test]
fn requests_go_on_to_the_hive() {
    assert_eq!(proxy_url("https://x", "/agents"), "https://x/api/hive/agents");
    assert_eq!(room_path("r1", "send"), "/rooms/r1/send");
    assert_eq!(proxy_error("boom").status, 502);
    assert!(hive_send("{").is_err());
    let s = hive_send(r#"{"target":"bob","message":"hi"}"#).unwrap();
    assert_eq!((s.target.as_str(), s.plaintext.as_str(), s.ephemeral), ("bob", "hi", false));
    let out = encrypted_request(s, Some(r#"{"encrypted":true}"#), "orig");
    assert!(out.contains("encrypted"));
    let s = hive_send(r#"{"target":"bob","message":"hi"}"#).unwrap();
    assert!(timelock_request(s).is_none());
    let s = hive_send(r#"{"target":"bob","message":"hi","deliver_at":"2030-01-01T00:00:00Z"}"#).unwrap();
    let out = timelock_request(s).unwrap().unwrap();
    assert!(out.contains("unlock_key") && !out.contains("\"hi\""));
    let msg = parse(r#"{"from_agent":"ann","content":"x"}"#);
    assert_eq!(content_of(&msg, true), Some(("ann".to_string(), "x".to_string())));
    let out = hive_messages(
        parse(r#"{"messages":[{"content":"x"},{"content":"y"}]}"#),
        &[Some("plain".to_string()), None],
    );
    assert_eq!(out, r#"{"messages":[{"content":"plain"},{"content":"y"}]}"#);
}

#[test]
fn rooms_are_made() {
    let now = Timestamp { secs: 1_700_000_000, nanos: 0 };
    let req = parse(r#"{"topic":"t","members":["ann"],"expires_in":"1h"}"#);
    let (at, body) = create_room(&req, now);
    assert_eq!(at.unwrap(), "2023-11-14T23:13:20+00:00");
    assert!(body.contains("2023-11-14T23:13:20+00:00"));
    assert_eq!(room_members(&req), vec!["ann".to_string()]);
    assert_eq!(created_room(r#"{"room_id":"r9"}"#).unwrap(), "r9");
    assert!(created_room("x").is_none());
    assert_eq!(room_message_body("hi"), r#"{"message":"hi"}"#);
    assert!(room_send(parse(r#"{"message":"hi"}"#), Some("E")).contains("\"E\""));
    assert!(destroy_key_body("r1", "ann").contains("key_destroy"));
}
