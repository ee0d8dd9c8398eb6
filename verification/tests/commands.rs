//! The commands.

use b3_cli::attach::{
    ended, greeting, on_output, refusal, resized, type_bytes, ExitReason, OutputStep, StdinSignal,
};
use b3_cli::child::{
    child_config, child_row, children_url, extract_domain, is_id, killed, list, parse_duration,
    resolve_child_id, restore_key, restored, spawn_body,
};
use b3_cli::clock::Timestamp;
use b3_cli::config::{host, password_of, Ancestor, Config};
use b3_cli::hive_commands::{failed, join_names, pad, send_body, sent, show, Listing};
use b3_cli::instructions::{
    agents_section, first_section, has_section, refresh, version_tag, voice_section,
    without_section, Instructions,
};
use b3_cli::ipc::{ipc_address, ipc_path, ipc_port_path};
use b3_cli::json::{self, Json};
use b3_cli::protocol::Message;
use b3_cli::setup::{
    agent_name, can_register, clean_instructions, clean_settings, default_name, find_b3_binary,
    is_yes, new_config, password_step, read_settings, register_codex_mcp, register_request, register_voice_mcp,
    remove_mcp_entry, typed_token, Cleanup, PasswordStep, Registration,
};
use b3_cli::start::{
    after_check, await_ready, ignored_options, is_long_enough, nested, production_dashboard_url,
    set_password, start_args, start_plan, startup_banner, stays_running, stop_plan, Ready, Signal,
    StartPlan, StopPlan, StopStep,
};
use b3_cli::status::{connectivity, status_lines, DaemonState, Reached};
use b3_cli::update::{
    chain_args, compute_sha256, detect_platform, download_urls, expected_checksum, latest_version,
    releases_base_url, update_plan, verify_download, version_url, UpdatePlan,
};

use base64::Engine;

fn parse(s: &str) -> Json {
    json::parse(s).unwrap()
}

fn config() -> Config {
    Config {
        agent_id: "hc-1".to_string(),
        agent_email: "ann@example.com".to_string(),
        api_key: "key".to_string(),
        api_url: "https://babel3.com".to_string(),
        wg_address: "10.0.0.1".to_string(),
        relay_endpoint: "relay:1".to_string(),
        relay_public_key: "PK".to_string(),
        push_interval_ms: 100,
        web_url: "https://babel3.com/a/ann".to_string(),
        b3_version: "1.0.0".to_string(),
        servers: vec!["https://babel3.com".to_string()],
        auto_update: false,
    }
}

// ── Configuration ───────────────────────────────────────────────────

#[test]
fn the_config_directory_is_found() {
    let up = |dir: &str, has_config: bool| Ancestor { dir: dir.to_string(), has_config };
    let v = [up("/h/a/b", false), up("/h/a", true), up("/h", true)];
    assert_eq!(Config::resolve_config_dir(Some("/f"), &v, Some("/h")), "/f");
    assert_eq!(Config::resolve_config_dir(None, &v, Some("/h")), "/h/a/.b3");
    assert_eq!(Config::resolve_config_dir(None, &[], Some("/h")), "/h/.b3");
    assert_eq!(Config::config_dir(Some("/pin"), Some("/f"), &v, Some("/h")), "/pin");
    assert_eq!(Config::config_path("/h/.b3"), "/h/.b3/config.json");
    assert_eq!(Config::daemon_password_path("/h/.b3"), "/h/.b3/daemon_password");
    assert_eq!(Config::wg_private_key_path("/h/.b3"), "/h/.b3/wg/private.key");
    assert_eq!(config().agent_dir("/h/.b3"), "/h/.b3/agents/ann");
    assert_eq!(config().dashboard_port_file("/h/.b3"), "/h/.b3/agents/ann/dashboard.port");
    assert_eq!(config().server_domain(), "babel3.com");
    assert_eq!(host("https://babel3.com/x"), "babel3.com");
    assert_eq!(Config::dashboard_port(Some("8080\n")), Some(8080));
    assert_eq!(Config::dashboard_port(Some("x")), None);
    assert!(Config::inject_url(Some("8080")).unwrap().contains("8080"));
}

#[test]
fn bad_configs_are_refused() {
    assert!(config().validate().is_ok());
    let mut c = config();
    c.api_key = String::new();
    assert_eq!(c.validate().unwrap_err(), "api_key cannot be empty");
    let mut c = config();
    c.api_url = String::new();
    assert_eq!(c.validate().unwrap_err(), "api_url cannot be empty");
    let mut c = config();
    c.api_url = "ftp://x".to_string();
    assert_eq!(c.validate().unwrap_err(), "api_url must be an HTTP(S) URL, got: ftp://x");
    let mut c = config();
    c.push_interval_ms = 49;
    assert_eq!(c.validate().unwrap_err(), "push_interval_ms must be 50-10000, got: 49");
}

#[test]
fn passwords_are_hashed_and_checked() {
    let hash = Config::hash_daemon_password("sesame");
    assert!(hash.starts_with("$argon2id$v=19$m=19456,t=2,p=1$"));
    assert!(Config::verify_daemon_password("sesame", &hash));
    assert!(!Config::verify_daemon_password("sesamf", &hash));
    assert!(!Config::verify_daemon_password("sesame", "no hash"));
    let lanes = hash.replace(",p=1$", ",p=536870912$");
    assert!(!Config::verify_daemon_password("sesame", &lanes));
    let lanes = hash.replace(",p=1$", ",p=99999999$");
    assert!(!Config::verify_daemon_password("sesame", &lanes));
    let twice = hash.replace(",p=1$", ",p=536870912,p=1$");
    assert!(Config::verify_daemon_password("sesame", &twice));
    let p = Config::generate_daemon_password();
    assert_eq!(p.len(), 8);
    assert!(p.chars().all(|c| c.is_ascii_lowercase() || c.is_ascii_digit()));
    assert_eq!(password_of(&[0, 35]).len(), 2);
    assert_eq!(Config::load_daemon_password_hash(Some(" h \n")).unwrap(), "h");
    assert!(Config::load_daemon_password_hash(Some("")).is_none());
    let (_, made, stored) = Config::ensure_daemon_password(None);
    assert!(made && stored.is_some());
    let (_, made, stored) = Config::ensure_daemon_password(Some(&hash));
    assert!(!made && stored.is_none());
    let key = base64::engine::general_purpose::STANDARD.encode([5u8; 32]);
    assert_eq!(Config::load_wg_private_key(Some(&key)), Some([5; 32]));
    assert!(Config::load_wg_private_key(Some("x")).is_none());
}

// ── Start, stop, attach ─────────────────────────────────────────────

#[test]
fn starting_is_planned() {
    assert!(nested(true, false).is_some() && nested(false, false).is_none());
    assert_eq!(start_plan(true, false, true), StartPlan::Attach);
    assert_eq!(start_plan(false, false, true), StartPlan::Start);
    assert!(ignored_options(None, false).is_none());
    assert!(ignored_options(Some(3000), true).unwrap().contains("--app-port 3000"));
    let args = start_args(None, Some(3000), false, true, &["-c".to_string()]);
    assert_eq!(args.last().unwrap(), "-c");
    assert!(args.contains(&"--app-port".to_string()) && args.contains(&"3000".to_string()));
    assert_eq!(production_dashboard_url(&config()), "https://babel3.com/a/ann");
    let banner = startup_banner(&config(), "1.2.3", "Helper", "helper");
    assert!(banner.contains("Babel3 v1.2.3") && banner.contains("Helper Code keeps running"));
    assert!(banner.contains("helper --dangerously-load-development-channels server:b3"));
    assert!(matches!(await_ready(&Signal::Said(Some(b'R')), false, true, 5), Ready::Started));
    assert!(matches!(await_ready(&Signal::Silent, false, true, 5), Ready::Wait));
    assert!(matches!(await_ready(&Signal::Said(None), false, false, 5), Ready::Failed(_)));
    assert!(stays_running(ExitReason::Detached) && !stays_running(ExitReason::Stopped));
}

#[test]
fn stopping_is_planned() {
    assert_eq!(stop_plan(true, false, true, true), StopPlan::Refuse);
    assert_eq!(stop_plan(false, false, false, false), StopPlan::CleanUp);
    assert_eq!(stop_plan(false, false, true, true), StopPlan::Ask);
    assert_eq!(stop_plan(false, false, true, false), StopPlan::Kill);
    assert_eq!(after_check(1, 8, false), StopStep::Stopped);
    assert_eq!(after_check(1, 8, true), StopStep::LookAgain);
    assert!(is_long_enough("abcd") && !is_long_enough("abc"));
    assert!(set_password("abcd", Some("abcd")).is_ok());
    assert!(set_password("abcd", Some("abce")).is_err());
    assert!(set_password("abc", None).is_err());
}

#[test]
fn typing_in_an_attached_session() {
    assert!(refusal(false, false).is_some() && refusal(true, true).is_none());
    let mut prefix: bool = false;
    let t = type_bytes(&mut prefix, b"ls\n");
    assert_eq!(t.input, b"ls\n".to_vec());
    assert!(t.signal.is_none());
    let t = type_bytes(&mut prefix, &[0x02, b'd']);
    assert_eq!(t.signal, Some(StdinSignal::Detach));
    assert!(t.input.is_empty());
    let t = type_bytes(&mut prefix, &[b'a', 0x02, b'x', b'b', 0x02]);
    assert_eq!(t.input, vec![b'a', 0x02, b'x', b'b']);
    assert!(t.signal.is_none() && prefix);
    let t = type_bytes(&mut prefix, &[b'y']);
    assert_eq!(t.input, vec![0x02, b'y']);
    assert!(!prefix);
    let t = type_bytes(&mut prefix, &[b'z', 0x02, b'Q', b'w']);
    assert_eq!((t.input, t.signal), (b"z".to_vec(), Some(StdinSignal::Stop)));
    let mut prefix: bool = false;
    assert!(type_bytes(&mut prefix, &[0x02]).signal.is_none());
    assert!(prefix);
    assert_eq!(type_bytes(&mut prefix, b"q").signal, Some(StdinSignal::Stop));
    assert!(matches!(on_output(Some(Message::Exited(3))), OutputStep::Exited(3)));
    assert!(matches!(on_output(None), OutputStep::Disconnected));
    assert_eq!(greeting(&Message::Welcome { rows: 24, cols: 80 }), Some((24, 80)));
    assert_eq!(greeting(&Message::Stop), None);
    let mut last: (u16, u16) = (24, 80);
    assert!(resized(&mut last, (24, 80)).is_none());
    assert!(matches!(resized(&mut last, (80, 30)), Some(Message::Resize { .. })));
    assert_eq!(ended(Some(StdinSignal::Detach)), ExitReason::Detached);
}

// ── Update ──────────────────────────────────────────────────────────

#[test]
fn updates_are_found() {
    assert_eq!(releases_base_url(Some("https://x/"), "https://p"), "https://x/releases/latest");
    assert_eq!(version_url(None, "https://p"), "https://p/releases/latest/version.json");
    assert_eq!(detect_platform("macos", "aarch64"), "darwin-arm64");
    assert_eq!(detect_platform("linux", "x86_64"), "linux-amd64");
    let info = parse(r#"{"version":"1.0","platforms":{"linux-amd64":"1.1"}}"#);
    assert_eq!(latest_version(&info, "linux-amd64").unwrap(), "1.1");
    assert_eq!(latest_version(&info, "darwin-arm64").unwrap(), "1.0");
    assert_eq!(
        latest_version(&parse("{}"), "p").unwrap_err(),
        "Invalid version.json: missing version for p"
    );
    assert_eq!(update_plan("1", "1", false), UpdatePlan::Nothing);
    assert_eq!(update_plan("1", "1", true), UpdatePlan::Refresh);
    assert_eq!(update_plan("2", "1", false), UpdatePlan::Download);
    let (name, url, sum) = download_urls("https://x/r", "linux-amd64", false);
    assert_eq!(name, "b3-linux-amd64");
    assert_eq!(url, "https://x/r/b3-linux-amd64");
    assert_eq!(sum, "https://x/r/b3-linux-amd64.sha256");
    assert_eq!(download_urls("u", "windows-amd64", true).0, "b3-windows-amd64.exe");
    assert_eq!(expected_checksum(Some("abc  file\n")), "abc");
    assert_eq!(expected_checksum(None), "");
    assert_eq!(compute_sha256(true, "abc  f").unwrap(), "abc");
    assert_eq!(compute_sha256(true, " ").unwrap_err(), "Could not parse SHA256 output");
    assert_eq!(compute_sha256(false, "abc").unwrap_err(), "SHA256 computation failed");
    assert!(verify_download("", "abc").is_ok() && verify_download("abc", "abc").is_ok());
    assert_eq!(
        verify_download("a", "b").unwrap_err(),
        "Checksum mismatch!\n  Expected: a\n  Got:      b"
    );
    assert_eq!(chain_args(&[]), vec!["install-skills".to_string()]);
    assert_eq!(
        chain_args(&["-d".to_string()]),
        vec!["install-skills".to_string(), "--and-start".to_string(), "-d".to_string()]
    );
}

// ── Setup and removal ───────────────────────────────────────────────

#[test]
fn setup_reads_its_answers() {
    assert!(is_yes(" Y\n") && is_yes("y") && !is_yes("yes") && !is_yes(""));
    assert_eq!(typed_token(" t \n", "u").unwrap(), "t");
    assert_eq!(
        typed_token(" ", "U").unwrap_err(),
        "No token provided. Visit U to generate one."
    );
    assert_eq!(default_name("My Mac.local"), "my-mac-local");
    assert_eq!(default_name("\u{c4}b_1"), "\u{e4}b-1");
    assert_eq!(agent_name(Some("g".to_string()), Some("t"), "p".to_string()), "g");
    assert_eq!(agent_name(None, Some(" t "), "p".to_string()), "t");
    assert_eq!(agent_name(None, Some(" "), "p".to_string()), "p");
    assert_eq!(agent_name(None, None, "p".to_string()), "p");
    match password_step(" abcd\n") {
        PasswordStep::Store(hash) => {
            assert!(hash.starts_with("$argon2id$v=19$m=19456,t=2,p=1$"));
            assert!(Config::verify_daemon_password("abcd", &hash));
            assert!(!Config::verify_daemon_password(" abcd", &hash));
        }
        other => panic!("Expected Store, got: {other:?}"),
    }
    assert!(matches!(password_step("abc"), PasswordStep::TooShort));
    assert!(matches!(password_step(" \n"), PasswordStep::Skip));
    let places = [("/a".to_string(), false), ("/b".to_string(), true)];
    assert_eq!(find_b3_binary(&places, Some("/c")), "/b");
    assert_eq!(find_b3_binary(&[], Some("/c")), "/c");
    assert_eq!(find_b3_binary(&[], None), "b3");
    let reg = Registration {
        agent_id: "hc-2".to_string(),
        agent_email: "bob@x".to_string(),
        api_key: "k".to_string(),
        wg_address: "w".to_string(),
        relay_endpoint: "r".to_string(),
        relay_public_key: "p".to_string(),
        web_url: "u".to_string(),
        servers: vec!["s".to_string()],
    };
    let c = new_config(reg, "https://x", "1.2.3");
    assert_eq!((c.agent_id.as_str(), c.api_url.as_str(), c.push_interval_ms), ("hc-2", "https://x", 100));
}

#[test]
fn tool_settings_are_merged_and_taken_back() {
    let before = r#"{"mcpServers":{"b3":{"env":{"A":"1"}},"other":{"command":"x"}},"y":1}"#;
    let settings = read_settings(Some(before)).unwrap();
    assert!(can_register(&settings));
    let text = register_voice_mcp(settings, "/bin/b3", "1.2.3");
    let j = parse(&text);
    let servers = j.get("mcpServers").unwrap();
    let b3 = servers.get("b3").unwrap();
    assert_eq!(b3.text("command").unwrap(), "/bin/b3");
    assert_eq!(b3.text("_b3_version").unwrap(), "1.2.3");
    assert_eq!(b3.get("args").unwrap().to_text(), r#"["mcp","voice"]"#);
    assert_eq!(b3.get("env").unwrap().to_text(), r#"{"A":"1"}"#);
    let after = parse(&remove_mcp_entry(&text).unwrap());
    assert_eq!(after.to_text(), r#"{"mcpServers":{"other":{"command":"x"}},"y":1}"#);
    assert!(remove_mcp_entry("{}").is_none() && remove_mcp_entry("{").is_none());
    assert!(read_settings(Some("{")).unwrap_err().starts_with(
        "Cannot safely merge into .mcp.json (parse error: "
    ));
    assert_eq!(read_settings(None).unwrap().to_text(), r#"{"mcpServers":{}}"#);
    assert!(!can_register(&parse("[]")) && !can_register(&parse(r#"{"mcpServers":1}"#)));
}

#[test]
fn the_other_assistants_settings_are_merged() {
    let section = "[mcp_servers.b3]\ncommand = \"/b\"\nargs = [\"mcp\", \"voice\"]\n";
    assert_eq!(register_codex_mcp("", "/b"), format!("\n{section}"));
    assert_eq!(register_codex_mcp("a = 1", "/b"), format!("a = 1\n\n{section}"));
    assert_eq!(
        register_codex_mcp("x\n[mcp_servers.b3]\ncommand = \"/old\"\n\n[next]\ny\n", "/b"),
        format!("x\n{section}[next]\ny\n")
    );
    assert_eq!(
        register_codex_mcp("x\n[mcp_servers.b3]\ncommand = \"/old\"\n", "/b"),
        format!("x\n{section}")
    );
}

#[test]
fn files_are_brought_back() {
    assert_eq!(clean_settings(false, true, None), Cleanup::Nothing);
    assert_eq!(clean_settings(true, false, None), Cleanup::TakeOut);
    assert_eq!(clean_settings(true, true, Some("S\n")), Cleanup::TakeOut);
    assert_eq!(clean_settings(true, true, Some("\n")), Cleanup::Restore);
    assert_eq!(clean_instructions(true, false, true, None), Cleanup::DropBackup);
    assert_eq!(clean_instructions(true, true, true, Some("r")), Cleanup::Restore);
}

#[test]
fn instructions_are_added_and_taken_out() {
    let section = voice_section("https://u", "ann@x", "1.0");
    assert!(section.starts_with("\n\n## Babel3 Voice\n\nThis project has Babel3 voice"));
    assert!(section.ends_with("Agent: ann@x\n<!-- b3 v1.0 -->\n"));
    assert_eq!(version_tag("1.0"), "<!-- b3 v1.0 -->");
    assert!(agents_section("u", "ann@x").ends_with("Agent: ann@x\n"));
    let before = "# Mine\n";
    let added = first_section(Some(before), section.clone()).unwrap();
    let file = format!("{before}{added}");
    assert!(has_section(&file) && !has_section(before));
    assert!(first_section(Some(&file), section.clone()).is_none());
    assert_eq!(without_section(&file).unwrap(), before);
    let longer = format!("{file}\n## Later\nkept\n");
    assert_eq!(without_section(&longer).unwrap(), "# Mine\n\n## Later\nkept\n");
    assert!(without_section(before).is_none());
    let unmarked = "A\n\n## Babel3 Voice\nx\n\n## Other\ny\n";
    assert_eq!(without_section(unmarked).unwrap(), "A\n## Other\ny\n");
    assert_eq!(without_section("A\n\n## Babel3 Voice\nx\n\n# Top\n").unwrap(), "A\n# Top\n");
    assert_eq!(without_section("A\n\n## Babel3 Voice\nx\n").unwrap(), "A");
    let later = "A\n\n## Babel3 Voice\nx\n\n## Other\n<!-- b3 v1 -->\ny\n";
    assert_eq!(without_section(later).unwrap(), "A\n## Other\n<!-- b3 v1 -->\ny\n");
    assert!(matches!(refresh(&file, "https://u", "ann@x", "1.0"), Instructions::Keep));
    assert!(matches!(refresh(before, "https://u", "ann@x", "1.0"), Instructions::Append(_)));
    match refresh(&file, "https://u", "ann@x", "2.0") {
        Instructions::Rewrite(s) => {
            assert!(s.contains("<!-- b3 v2.0 -->") && !s.contains("<!-- b3 v1.0 -->"));
            assert!(s.starts_with(before));
        }
        other => panic!("Expected Rewrite, got: {other:?}"),
    }
    match refresh(unmarked, "https://u", "ann@x", "2.0") {
        Instructions::Rewrite(s) => {
            assert!(s.starts_with("A\n\n\n## Babel3 Voice\n"));
            assert!(s.ends_with("Agent: ann@x\n<!-- b3 v2.0 -->\n"));
        }
        other => panic!("Expected Rewrite, got: {other:?}"),
    }
}

// ── Agents, messages, state ─────────────────────────────────────────

#[test]
fn agents_are_started_and_listed() {
    let now = Timestamp { secs: 1_700_000_000, nanos: 0 };
    assert_eq!(parse_duration("1d", now).unwrap(), "2023-11-15T22:13:20+00:00");
    assert_eq!(parse_duration("x", now).unwrap_err(), "invalid duration number");
    assert_eq!(
        parse_duration("1w", now).unwrap_err(),
        "unknown duration unit 'w' — use s, m, h, or d"
    );
    assert_eq!(spawn_body("kid", None).to_text(), r#"{"expires_at":null,"name":"kid"}"#);
    assert_eq!(children_url("https://x", "hc-1", true), "https://x/api/agents/hc-1/children?all=1");
    assert_eq!(extract_domain("https://babel3.com/x"), "babel3.com");
    let data = parse(r#"{"id":"hc-9","api_key":"ck","dashboard_url":"d"}"#);
    let c = parse(&child_config(&config(), "kid", &data, "1.2.3"));
    assert_eq!(c.text("agent_email").unwrap(), "kid@babel3.com");
    assert_eq!(c.text("agent_id").unwrap(), "hc-9");
    assert_eq!(c.get("parent_id").unwrap().to_text(), "null");
    assert_eq!(c.uint("push_interval_ms"), Some(100));
    let kid = parse(r#"{"address":"kid@x","id":"hc-9","status":"deleted","created_at":"c"}"#);
    assert_eq!(
        child_row(&kid, true),
        format!("{:<30} {:<12} {:<26} {:<26}  (id: {})", "kid@x", "deleted", "c", "never", "hc-9")
    );
    assert_eq!(list(&parse("{}"), false), vec!["No child agents.".to_string()]);
    let rows = list(&parse(r#"{"children":[{"address":"a"}]}"#), false);
    assert_eq!(rows.len(), 3);
    assert_eq!(
        rows[0],
        format!("{:<30} {:<12} {:<26} {:<26}", "ADDRESS", "STATUS", "CREATED", "EXPIRES")
    );
    assert_eq!(rows[1], "-".repeat(98));
    assert!(is_id("hc-9") && !is_id("kid"));
    let all = parse(r#"{"children":[{"name":"kid"},{"name":"kid","id":"hc-9"}]}"#);
    assert_eq!(resolve_child_id(&all, "kid", false).unwrap(), "hc-9");
    assert_eq!(
        resolve_child_id(&all, "x", false).unwrap_err(),
        "no active child agent named 'x'"
    );
    assert!(resolve_child_id(&all, "x", true).unwrap_err().contains("hc-XXXXXX"));
    assert_eq!(killed(204, "kid", "").unwrap(), "✓ Child agent kid killed.");
    assert_eq!(killed(404, "kid", "").unwrap_err(), "child agent not found: kid");
    assert_eq!(killed(403, "kid", "").unwrap_err(), "permission denied — not your child agent");
    assert_eq!(killed(500, "kid", "b").unwrap_err(), "kill failed (500): b");
    assert!(restored(200, "kid", "").is_ok());
    assert_eq!(restored(500, "kid", "b").unwrap_err(), "restore failed (500): b");
    assert!(restore_key(r#"{"a":1}"#, "").is_none() && restore_key("[]", "k").is_none());
    let text = restore_key(r#"{"api_key":"old"}"#, "new").unwrap();
    assert_eq!(text, "{\n  \"api_key\": \"new\"\n}");
}

#[test]
fn hive_answers_are_shown() {
    assert_eq!(pad("ab", 4), "ab  ");
    assert_eq!(pad("abcdef", 4), "abcdef");
    assert_eq!(join_names(&["a".to_string(), "b".to_string()]), "a, b");
    assert_eq!(
        send_body("bob", "hi").to_text(),
        r#"{"deliver_at":null,"ephemeral":false,"message":"hi","target":"bob","unlock_key":null}"#
    );
    assert_eq!(sent(&parse(r#"{"to":"Bob"}"#), "bob"), "Message sent to Bob");
    assert_eq!(sent(&parse("{}"), "bob"), "Message sent to bob");
    let v = show(
        Listing::Agents,
        &parse(r#"{"agents":[{"name":"ann","agent_id":"hc-1","is_self":true}]}"#),
    );
    assert_eq!(v[0], "Your agents:");
    assert_eq!(v[1], format!("{:<20} {:<14} {}", "Name", "ID", ""));
    assert_eq!(v[2], "-".repeat(40));
    assert_eq!(v[3], format!("{:<20} {:<14}{}", "ann", "hc-1", " (you)"));
    assert_eq!(v.len(), 6);
    assert_eq!(show(Listing::Agents, &parse(r#"{"agents":[]}"#)), vec!["No agents found.".to_string()]);
    assert_eq!(show(Listing::Rooms, &parse("{}")), vec!["Unexpected response format".to_string()]);
    let v = show(Listing::Rooms, &parse(r#"{"rooms":[{"id":"r","members":["a",1,"b"]}]}"#));
    assert_eq!(v, vec!["Conversation rooms:".to_string(), "  r  [(no topic)]  members: a, b".to_string()]);
    let v = show(
        Listing::Messages,
        &parse(r#"{"messages":[{"from_agent":"ann","content":"hi","created_at":"t"}]}"#),
    );
    assert_eq!(v, vec!["[t] ann: hi".to_string()]);
    assert_eq!(failed("Failed to list rooms", "500", "b"), "Failed to list rooms: HTTP 500 — b");
}

#[test]
fn the_state_is_shown() {
    assert_eq!(ipc_path("/d"), "/d/b3.sock");
    assert_eq!(ipc_port_path("/d"), "/d/b3-ipc.port");
    assert_eq!(ipc_address("4711\n").unwrap(), "127.0.0.1:4711");
    assert!(ipc_address("x").is_none());
    let v = status_lines(&config(), None);
    assert_eq!(v[1], "  Email:     ann@example.com");
    assert_eq!(v[6], "  Status:    stopped");
    let d = DaemonState {
        pid_path: "/d/b3.pid".to_string(),
        pid: Some("42\n".to_string()),
        browser_dir: None,
    };
    let v = status_lines(&config(), Some(&d));
    assert_eq!(v[7], "  PID file:  /d/b3.pid");
    assert_eq!(v[8], "  PID:       42");
    assert_eq!(v[9], "  Browser:   official");
    let ok = Reached::Answered { success: true, status: "200 OK".to_string() };
    assert_eq!(connectivity(&ok, "https://x"), "  Public API:  ✓ reachable (https://x)");
    let down = Reached::Failed("down".to_string());
    assert_eq!(connectivity(&down, "https://x"), "  Public API:  ✗ unreachable (down)");
}

#[test]
fn registration_names_the_platform() {
    let r = register_request("t", "box", "linux", "x86_64", "ann");
    assert_eq!(r.text("platform").unwrap(), "linux-x86_64");
    assert_eq!(r.text("requested_name").unwrap(), "ann");
    assert_eq!((r.text("token").unwrap(), r.text("hostname").unwrap()), ("t".to_string(), "box".to_string()));
}
