//! Speech, its reports, and the pages that show the daemon.

use b3_cli::events::AgentEvent;
use b3_cli::gpu_client::{Answer, GpuConfig, PollState, Submit};
use b3_cli::gpu_client;
use b3_cli::ids::IdMap;
use b3_cli::json;
use b3_cli::json::Json;
use b3_cli::session::SessionStore;
use b3_cli::terminal::Browsers;
use b3_cli::voice::{
    audio_upload, browser_profiles, daemon_entry, generated_report, maker, report_voice_job,
    spoken_text, stt_after_local, stt_after_runpod, stt_after_whisper, stt_first, stt_unavailable, transcribe_payload,
    transcription_callback, transcription_outcome, tts_audio_callback, tts_form_field,
    tts, tts_generating, tts_job, tts_reply, tts_request, tts_stored, tts_stream, tts_upload,
    tts_upload_json, voice_event, voice_report, watchdog, whisper_reply, whisper_text, Heard, Maker,
    Similarity, SttBackends, SttStep, TtsUpload, Watch, WATCH_MS,
};
use b3_cli::web::{
    archived_title, eval_reply, init_bundle, session_read, update_status, EvalOutcome, GpuEnv,
};

fn value(s: &str) -> Json {
    json::parse(s).unwrap()
}

fn answered(success: bool, body: &str) -> Answer {
    Answer::Status {
        success,
        code: if success { 200 } else { 500 },
        shown: "status".to_string(),
        body: body.to_string(),
    }
}

fn upload(audio: &[u8], msg_id: &str) -> TtsUpload {
    TtsUpload {
        audio: audio.to_vec(),
        msg_id: msg_id.to_string(),
        text: "hi".to_string(),
        original_text: "Hi".to_string(),
        voice: "v".to_string(),
        emotion: "calm".to_string(),
        replying_to: "you".to_string(),
        duration_sec: "1.5".to_string(),
        voice_job_id: "job".to_string(),
    }
}

#[test]
fn job_reports_name_their_state() {
    let r = report_voice_job("https://s", "j1", "done", "1.0", Some(value(r#"{"x":1}"#))).unwrap();
    assert!(!r.new_job);
    assert_eq!(r.url, "https://s/api/voice-jobs/j1");
    assert_eq!(r.body.text("status").unwrap(), "done");
    assert_eq!(r.body.text("reporter_version").unwrap(), "daemon:1.0");
    assert_eq!(r.body.uint("x"), Some(1));
    let r = report_voice_job("u", "j", "a", "1", Some(value(r#"{"status":"b"}"#))).unwrap();
    assert_eq!(r.body.text("status").unwrap(), "b");
    assert!(report_voice_job("", "j1", "done", "1.0", None).is_none());
    assert!(report_voice_job("https://s", "", "done", "1.0", None).is_none());
    let done = generated_report("u", "m", "watchdog", "1", None).unwrap();
    assert_eq!(done.body.text("audio_output").unwrap(), "daemon_archive");
    assert_eq!(done.body.text("origin").unwrap(), "watchdog");
    let long = "e".repeat(300);
    let failed = generated_report("u", "m", "no_browsers", "1", Some(&long)).unwrap();
    assert_eq!(failed.body.text("status").unwrap(), "failed");
    assert_eq!(failed.body.text("error").unwrap().len(), 200);
    assert_eq!(failed.body.text("error_stage").unwrap(), "daemon_tts_generation");
}

#[test]
fn transcriptions_are_answered() {
    let (said, job) = transcription_callback(&value(r#"{"text":"  hello ","voice_job_id":"j"}"#));
    assert_eq!((said.as_str(), job.as_str()), ("hello", "j"));
    let (report, reply) = transcription_outcome("hello", "j", "u", "1");
    assert_eq!(report.unwrap().body.text("status").unwrap(), "injected");
    assert_eq!(reply.truth("injected"), Some(true));
    let (report, reply) = transcription_outcome("", "j", "u", "1");
    assert_eq!(report.unwrap().body.text("error").unwrap(), "empty_text");
    assert_eq!(reply.truth("injected"), Some(false));
    assert!(transcription_outcome("hello", "", "u", "1").0.is_none());
}

#[test]
fn gpu_audio_goes_to_browsers() {
    let body = value(r#"{"msg_id":"m","chunk":2,"audio_b64":"AAA="}"#);
    match tts_audio_callback(&body, "1.5".to_string(), "0.2".to_string()) {
        Some(AgentEvent::TtsAudioData { msg_id, chunk, total, audio_b64, duration_sec, .. }) => {
            assert_eq!((msg_id.as_str(), chunk, total), ("m", 2, 1));
            assert_eq!((audio_b64.as_str(), duration_sec.as_str()), ("AAA=", "1.5"));
        }
        other => panic!("Expected audio, got: {other:?}"),
    }
    let bad = value(r#"{"audio_b64":"AAA=","error":"boom"}"#);
    assert!(tts_audio_callback(&bad, String::new(), String::new()).is_none());
    assert!(tts_audio_callback(&value("{}"), String::new(), String::new()).is_none());
}

#[test]
fn speech_is_recognised_somewhere() {
    let all = SttBackends::from_env(Some("http://g/"), Some("t"), Some("id"), Some("k"), None);
    match stt_first(&all) {
        SttStep::TryLocal { url, auth } => {
            assert_eq!((url.as_str(), auth.as_str()), ("http://g/runsync", "Bearer t"))
        }
        other => panic!("Expected TryLocal, got: {other:?}"),
    }
    match stt_after_local(&all, &Answer::Unreached("down".to_string())) {
        SttStep::TryRunpod { url, auth } => {
            assert_eq!(url, "https://api.runpod.ai/v2/id/runsync");
            assert_eq!(auth, "k");
        }
        other => panic!("Expected TryRunpod, got: {other:?}"),
    }
    match stt_after_local(&all, &answered(true, r#"{"output":{"text":"hi"}}"#)) {
        SttStep::Done(j) => assert!(j.get("output").is_some()),
        other => panic!("Expected Done, got: {other:?}"),
    }
    assert!(matches!(
        stt_after_local(&all, &answered(true, r#"{"error":"x"}"#)),
        SttStep::TryRunpod { .. }
    ));
    assert!(matches!(stt_after_runpod(&answered(true, "{}")), SttStep::Done(_)));
    assert!(matches!(stt_after_runpod(&answered(false, "{}")), SttStep::Fail(502)));
    assert!(matches!(stt_after_runpod(&answered(true, "no json")), SttStep::Fail(502)));
    let only_local = SttBackends::from_env(Some("http://g"), None, None, Some("k"), None);
    assert!(matches!(stt_after_local(&only_local, &answered(false, "")), SttStep::Fail(502)));
    let none = SttBackends::from_env(Some(""), None, Some("id"), None, None);
    match stt_first(&none) {
        SttStep::TryWhisper { url } => assert_eq!(url, "http://localhost:5124/transcribe"),
        other => panic!("Expected TryWhisper, got: {other:?}"),
    }
    let payload = transcribe_payload(b"abc", "agent");
    let input = payload.get("input").unwrap();
    assert_eq!(input.text("audio_b64").unwrap(), "YWJj");
    assert_eq!(input.text("action").unwrap(), "transcribe");
    assert_eq!(input.text("agent_id").unwrap(), "agent");
    match stt_after_whisper("http://w", &answered(true, r#"{"text":" hi "}"#)) {
        Heard::Said { notice, reply } => {
            assert_eq!(notice.as_deref(), Some("hi"));
            assert_eq!(reply.to_text(), r#"{"injected":true,"transcription":"hi"}"#);
        }
        other => panic!("Expected Said, got: {other:?}"),
    }
    match stt_after_whisper("http://w", &answered(true, "{}")) {
        Heard::Said { notice, reply } => {
            assert!(notice.is_none());
            assert_eq!(reply.truth("injected"), Some(false));
        }
        other => panic!("Expected Said, got: {other:?}"),
    }
    match stt_after_whisper("http://w", &Answer::Unreached("down".to_string())) {
        Heard::Said { notice, reply } => {
            assert!(notice.is_none());
            assert_eq!(reply.text("error").unwrap(), "stt_unavailable");
        }
        other => panic!("Expected Said, got: {other:?}"),
    }
    assert!(matches!(stt_after_whisper("http://w", &answered(true, "no")), Heard::Refused(502)));
    assert!(matches!(stt_after_whisper("http://w", &answered(false, "{}")), Heard::Refused(502)));
    assert_eq!(whisper_text(&value(r#"{"transcription":" a "}"#)), "a");
    assert_eq!(whisper_text(&value(r#"{"text":1,"transcription":"a"}"#)), "");
    assert_eq!(whisper_reply("").truth("injected"), Some(false));
    assert!(stt_unavailable("http://w").text("message").unwrap().contains("http://w"));
}

#[test]
fn recognised_speech_is_weighed() {
    let rp = value(r#"{"output":{"text":" one ","whisperx_text":"two"}}"#);
    let (line, reply) = audio_upload(&rp, Similarity::High, Json::Null, "0.5", "1.0", "90%");
    assert_eq!(
        line.unwrap(),
        "[text model: 0.5s] one [voices model: 1.0s] two [self-similarity: 90%]"
    );
    assert_eq!(reply.text("transcription").unwrap(), "one");
    assert_eq!(reply.text("whisperx").unwrap(), "two");
    assert_eq!(reply.text("confidence").unwrap(), "high");
    assert_eq!(reply.truth("injected"), Some(true));
    let (line, reply) = audio_upload(&rp, Similarity::Low, Json::Null, "0.5", "1.0", "1%");
    assert!(line.is_none());
    assert_eq!(reply.text("filtered").unwrap(), "noise");
    assert_eq!(reply.text("medium_text").unwrap(), "one");
    assert_eq!(reply.truth("injected"), Some(false));
    let only = value(r#"{"text":"one"}"#);
    let (line, reply) = audio_upload(&only, Similarity::Unknown, Json::Null, "0.5", "0.0", "n/a");
    assert_eq!(line.unwrap(), "[text model: 0.5s] one [self-similarity: n/a]");
    assert_eq!(reply.text("confidence").unwrap(), "medium");
    let voices = value(r#"{"whisperx_text":"two"}"#);
    let (line, reply) = audio_upload(&voices, Similarity::Medium, Json::Null, "0.5", "1.0", "70%");
    assert_eq!(
        line.unwrap(),
        "[text model: 0.5s] (empty) [voices model: 1.0s] two [self-similarity: 70%]"
    );
    assert_eq!(reply.truth("injected"), Some(false));
    let (line, _) =
        audio_upload(&value("{}"), Similarity::Unknown, Json::Null, "0.0", "0.0", "n/a");
    assert!(line.is_none());
}

#[test]
fn speaking_is_asked_of_browsers() {
    let t = match tts_request(&value(r#"{"text":"STOP *now*","msg_id":"m","emotion":"calm"}"#)) {
        Ok(t) => t,
        Err(e) => panic!("Expected a request, got: {e:?}"),
    };
    assert_eq!(t.voice, "default");
    assert_eq!(spoken_text(&t, true), "stop now");
    assert_eq!(spoken_text(&t, false), "STOP now");
    match tts_request(&value(r#"{"msg_id":"m"}"#)) {
        Err(e) => assert_eq!((e.status, e.body.text("error").unwrap().as_str()), (400, "text is required")),
        Ok(t) => panic!("Expected an error, got: {t:?}"),
    }
    match tts_generating(&t) {
        AgentEvent::TtsGenerating { msg_id, chunk, total } => {
            assert_eq!((msg_id.as_str(), chunk, total), ("m", 0, 1))
        }
        other => panic!("Expected TtsGenerating, got: {other:?}"),
    }
    match tts_stream(&t, "stop now", "cond") {
        AgentEvent::TtsStream { text, original_text, split_chars, min_chunk_chars, conditionals_b64, .. } => {
            assert_eq!((text.as_str(), original_text.as_str()), ("stop now", "STOP *now*"));
            assert_eq!((split_chars.as_str(), min_chunk_chars), (".!?", 80));
            assert_eq!(conditionals_b64, "cond");
        }
        other => panic!("Expected TtsStream, got: {other:?}"),
    }
    let job = tts_job(&t, &"x".repeat(100), "u", "agent", "1").unwrap();
    assert!(job.new_job);
    assert_eq!(job.url, "u/api/voice-jobs");
    assert_eq!(job.body.text("text_preview").unwrap().len(), 80);
    assert_eq!(job.body.text("job_type").unwrap(), "tts");
    let reply = tts_reply("m", 2, vec![Json::Null]);
    assert_eq!(reply.uint("clients"), Some(2));
    assert_eq!(reply.items("browsers").len(), 1);
    assert!(matches!(reply.get("credits_remaining"), Some(Json::Null)));
}

#[test]
fn only_browsers_that_play_count() {
    let mut b = Browsers::new();
    b.version(1, "1.0".to_string());
    b.version(2, "1.1".to_string());
    b.resize(1, 10, 20);
    b.info(2, Some("UA".to_string()), Some(50), Some(true));
    let mut silent: IdMap<u64> = IdMap::new();
    silent.insert(2, 1234);
    let (profiles, live) = browser_profiles(&b, &silent);
    assert_eq!((profiles.len(), live), (2, 1));
    for p in &profiles {
        if p.uint("session_id") == Some(2) {
            assert_eq!(p.uint("last_seen_ms"), Some(1234));
            assert_eq!(p.uint("volume"), Some(50));
            assert_eq!(p.truth("audio_context"), Some(true));
        } else {
            assert_eq!(p.uint("rows"), Some(10));
            assert_eq!(p.uint("volume"), Some(100));
            assert_eq!(p.truth("audio_context"), Some(false));
        }
    }
    assert_eq!(maker(0), Maker::Daemon);
    assert_eq!(maker(live), Maker::Watched);
    assert_eq!(watchdog(true, None), Watch::Finished);
    assert_eq!(watchdog(false, Some(WATCH_MS - 1)), Watch::Wait);
    assert_eq!(watchdog(false, Some(WATCH_MS)), Watch::Generate);
    assert_eq!(watchdog(false, None), Watch::Generate);
}

#[test]
fn a_request_to_speak_is_planned() {
    let mut b = Browsers::new();
    let silent: IdMap<u64> = IdMap::new();
    let body = value(r#"{"text":"GO **on**","msg_id":"m"}"#);
    match tts(&body, &b, &silent, true, "u", "agent", "1") {
        Ok(p) => {
            assert_eq!(p.cleaned, "go on");
            assert_eq!(p.maker, Maker::Daemon);
            assert_eq!(p.reply.uint("clients"), Some(0));
            assert_eq!(p.job.unwrap().body.text("text_preview").unwrap(), "go on");
            assert!(matches!(p.generating, AgentEvent::TtsGenerating { .. }));
        }
        Err(e) => panic!("Expected a plan, got: {e:?}"),
    }
    b.version(1, "1.0".to_string());
    b.info(1, None, None, Some(true));
    match tts(&body, &b, &silent, true, "u", "agent", "1") {
        Ok(p) => assert_eq!((p.maker, p.reply.items("browsers").len()), (Maker::Watched, 1)),
        Err(e) => panic!("Expected a plan, got: {e:?}"),
    }
    assert!(tts(&value("{}"), &b, &silent, true, "u", "agent", "1").is_err());
}

#[test]
fn browsers_report_what_they_play() {
    let played = value(r#"{"event":"started","msg_id":"m"}"#);
    assert_eq!(voice_event(&played).unwrap(), "m");
    assert!(voice_event(&value(r#"{"event":"error","msg_id":"m"}"#)).is_none());
    assert!(voice_event(&value(r#"{"event":"started"}"#)).is_none());
    let full = value(
        r#"{"msg_id":"m","status":"played","chunks_played":1,"chunks_scheduled":2,"stage":"s","error":"e","session_id":7,"volume":80}"#,
    );
    let (id, line) = voice_report(&full);
    assert_eq!(id.unwrap(), "m");
    assert_eq!(
        line.unwrap(),
        "[voice-report] msg=m status=played chunks=1/2 stage=s error=e session=7 vol=80%"
    );
    let (id, line) = voice_report(&value(r#"{"inject":false}"#));
    assert!(id.is_none() && line.is_none());
    let (_, line) = voice_report(&value("{}"));
    assert_eq!(line.unwrap(), "[voice-report] msg=unknown status=unknown");
}

#[test]
fn uploads_of_speech_are_kept() {
    let u = tts_upload_json(&value(r#"{"audio_b64":"YWJj","msg_id":"m"}"#), "2.0".to_string());
    match u {
        Ok(u) => {
            assert_eq!(u.audio, b"abc");
            assert_eq!((u.msg_id.as_str(), u.duration_sec.as_str()), ("m", "2.0"));
        }
        Err(e) => panic!("Expected an upload, got: {e:?}"),
    }
    for (body, error) in [
        ("{}", "audio_b64 is required"),
        (r#"{"audio_b64":"%"}"#, "invalid base64: "),
    ] {
        match tts_upload_json(&value(body), "0.0".to_string()) {
            Err(e) => {
                assert_eq!(e.status, 400);
                assert!(e.body.text("error").unwrap().starts_with(error));
            }
            Ok(u) => panic!("Expected an error, got: {u:?}"),
        }
    }
    let blank = TtsUpload::blank();
    assert!(blank.audio.is_empty() && blank.msg_id.is_empty());
    assert_eq!(blank.duration_sec, "0.0");
    let u = tts_form_field(upload(b"abc", ""), "msg_id", "m".to_string());
    assert_eq!(u.msg_id, "m");
    let u = tts_form_field(u, "other", "x".to_string());
    assert_eq!((u.text.as_str(), u.voice.as_str()), ("hi", "v"));
    match tts_upload(&u, false, 99) {
        Ok(e) => {
            assert_eq!((e.msg_id.as_str(), e.timestamp, e.size_bytes), ("m", 99, 3));
            assert_eq!((e.original_text.as_str(), e.duration_sec.as_str()), ("Hi", "1.5"));
        }
        Err(e) => panic!("Expected an entry, got: {e:?}"),
    }
    match tts_upload(&u, true, 99) {
        Err(e) => {
            assert_eq!((e.status, e.body.text("status").unwrap().as_str()), (200, "already_archived"))
        }
        Ok(e) => panic!("Expected an answer, got: {e:?}"),
    }
    match tts_upload(&upload(b"", "m"), true, 99) {
        Err(e) => assert_eq!(e.body.text("error").unwrap(), "audio is required"),
        Ok(e) => panic!("Expected an error, got: {e:?}"),
    }
    match tts_upload(&upload(b"abc", ""), false, 99) {
        Err(e) => assert_eq!(e.body.text("error").unwrap(), "msg_id is required"),
        Ok(e) => panic!("Expected an error, got: {e:?}"),
    }
    let (report, reply) = tts_stored(&u, "u", "1", None);
    assert_eq!(report.unwrap().body.text("audio_output").unwrap(), "browser_archive");
    assert_eq!((reply.status, reply.body.text("status").unwrap().as_str()), (200, "archived"));
    let (report, reply) = tts_stored(&u, "u", "1", Some("disk full"));
    assert_eq!(report.unwrap().body.text("error_stage").unwrap(), "daemon_archive");
    assert_eq!((reply.status, reply.body.text("error").unwrap().as_str()), (500, "disk full"));
    let e = daemon_entry("m", "hi", "v", "calm", 5, "1.0", 7);
    assert_eq!((e.original_text.as_str(), e.replying_to.as_str(), e.size_bytes), ("", "", 7));
}

#[test]
fn speech_jobs_are_followed() {
    let config = GpuConfig::from_env(None, None, None, None);
    assert!(matches!(gpu_client::submit_job(&config), Submit::Fail(_)));
    let mut state = PollState::new();
    assert!(!state.asks_status());
    let mut asked = false;
    for _ in 0..100 {
        state.on_nothing();
        asked = asked || state.asks_status();
    }
    assert!(asked);
    state.on_parts(vec![(1, vec![2]), (0, vec![1])], false);
    assert!(!state.done);
    state.on_status(&value(r#"{"status":"FAILED"}"#));
    assert!(state.done);
    match state.finish() {
        Ok(chunks) => assert_eq!(chunks, vec![vec![1], vec![2]]),
        Err(e) => panic!("Expected chunks, got: {e}"),
    }
    assert!(PollState::new().finish().is_err());
}

#[test]
fn pages_show_the_state() {
    let env = GpuEnv {
        runpod_api_key: "k".to_string(),
        runpod_gpu_id: "g".to_string(),
        local_gpu_url: "http://l".to_string(),
        local_gpu_token: String::new(),
    };
    let bundle = init_bundle(&env, value("[1]"), value("[]"));
    assert_eq!(bundle.items("tts_history").len(), 1);
    assert_eq!(bundle.items("info_archive").len(), 0);
    let config = bundle.get("gpu_config").unwrap();
    assert_eq!(config.truth("configured"), Some(true));
    assert_eq!(config.text("gpu_url").unwrap(), "https://api.runpod.ai/v2/g/runsync");
    let mut store = SessionStore::new();
    let empty = session_read("a", &store);
    assert_eq!((empty.uint("rows"), empty.uint("cols")), (Some(24), Some(80)));
    store.update(b"abc".to_vec(), 10, 20, 3);
    let read = session_read("a", &store);
    assert_eq!(read.text("terminal_data").unwrap(), "YWJj");
    assert_eq!((read.uint("rows"), read.uint("cols")), (Some(10), Some(20)));
    let shared = AgentEvent::Hive { sender: "info".to_string(), text: "<h1>T</h1>".to_string() };
    assert_eq!(archived_title(&shared).unwrap(), "T");
    let other = AgentEvent::Hive { sender: "bob".to_string(), text: "<h1>T</h1>".to_string() };
    assert!(archived_title(&other).is_none());
    let (reply, remove) = update_status(Some(r#"{"version":"2.0"}"#), "1.0");
    assert_eq!((reply.truth("ready"), remove), (Some(true), false));
    assert_eq!(reply.text("staged_version").unwrap(), "2.0");
    let (reply, remove) = update_status(Some(r#"{"version":"1.0"}"#), "1.0");
    assert_eq!((reply.truth("ready"), remove), (Some(false), true));
    let (reply, remove) = update_status(Some("broken"), "1.0");
    assert_eq!((reply.truth("ready"), remove), (Some(false), true));
    assert!(reply.get("current_version").is_none());
    let (reply, remove) = update_status(None, "1.0");
    assert_eq!((reply.truth("ready"), remove), (Some(false), false));
    assert_eq!(reply.text("current_version").unwrap(), "1.0");
    let result = eval_reply("e", &EvalOutcome::Result("42".to_string()));
    assert_eq!(result.text("result").unwrap(), "42");
    assert!(eval_reply("e", &EvalOutcome::Closed).text("error").unwrap().contains("closed"));
    assert!(eval_reply("e", &EvalOutcome::Timeout).text("error").unwrap().contains("timeout"));
}
