//! Starting and stopping the daemon.

use vstd::prelude::*;

use crate::attach::ExitReason;
use crate::config;
use crate::config::Config;
use crate::text;

verus! {

// ── Before the start ────────────────────────────────────────────────

/// Why the daemon is not started from within one of its own sessions.
pub const NESTED: &'static str = "Cannot start Babel3 inside a Babel3 session.\nYou're already inside a running Babel3 daemon.\nTo start a child agent from here, use --detached:\n\n\x1b[1m  b3 start --detached\x1b[0m\n\nTo restart this session, use the restart_session MCP tool, or from a separate terminal:\n\n\x1b[1m  b3 stop && b3 start\x1b[0m";

/// Why the daemon is not started, where it is not: from within one of its own
/// sessions only a peer can be started, detached.
pub fn nested(in_session: bool, detached: bool) -> (r: Option<&'static str>)
    ensures
        match r {
            Some(m) => in_session && !detached && m@ == NESTED@,
            None => !in_session || detached,
        },
{
    if in_session && !detached {
        Some(NESTED)
    } else {
        None
    }
}

/// The arguments that start the daemon as it was asked for.
pub open spec fn start_args_of(
    browser_dir: Option<Seq<char>>,
    app_port: Option<u16>,
    app_public: bool,
    detached: bool,
    assistant_args: Seq<Seq<char>>,
) -> Seq<Seq<char>> {
    (match browser_dir {
        Some(d) => seq!["--browser-dir"@, d],
        None => Seq::empty(),
    }) + (match app_port {
        Some(p) => seq!["--app-port"@, text::decimal(p as nat)],
        None => Seq::empty(),
    }) + (if app_public {
        seq!["--app-public"@]
    } else {
        Seq::empty()
    }) + (if detached {
        seq!["--detached"@]
    } else {
        Seq::empty()
    }) + (if assistant_args.len() > 0 {
        seq!["--"@] + assistant_args
    } else {
        Seq::empty()
    })
}

/// Adds an argument.
fn add_arg(v: &mut Vec<String>, s: &str)
    ensures
        text::views(final(v)@) == text::views(old(v)@).push(s@),
{
    let ghost before = text::views(v@);
    v.push(s.to_owned());
    assert(text::views(v@) =~= before.push(s@));
}

/// The arguments that start the daemon as it was asked for.
pub fn start_args(
    browser_dir: Option<&str>,
    app_port: Option<u16>,
    app_public: bool,
    detached: bool,
    assistant_args: &[String],
) -> (r: Vec<String>)
    ensures
        text::views(r@) == start_args_of(
            config::opt(browser_dir),
            app_port,
            app_public,
            detached,
            text::views(assistant_args@),
        ),
{
    let mut v: Vec<String> = Vec::new();
    let ghost e = Seq::<Seq<char>>::empty();
    let ghost a = match config::opt(browser_dir) {
        Some(d) => seq!["--browser-dir"@, d],
        None => e,
    };
    match browser_dir {
        Some(d) => {
            add_arg(&mut v, "--browser-dir");
            add_arg(&mut v, d);
        },
        None => {},
    }
    assert(text::views(v@) =~= a);
    let ghost b = match app_port {
        Some(p) => seq!["--app-port"@, text::decimal(p as nat)],
        None => e,
    };
    match app_port {
        Some(p) => {
            let n = text::to_decimal(p as u64);
            add_arg(&mut v, "--app-port");
            add_arg(&mut v, n.as_str());
        },
        None => {},
    }
    assert(text::views(v@) =~= a + b);
    let ghost c = if app_public {
        seq!["--app-public"@]
    } else {
        e
    };
    if app_public {
        add_arg(&mut v, "--app-public");
    }
    assert(text::views(v@) =~= a + b + c);
    let ghost d = if detached {
        seq!["--detached"@]
    } else {
        e
    };
    if detached {
        add_arg(&mut v, "--detached");
    }
    let ghost head = a + b + c + d;
    assert(text::views(v@) =~= head);
    let ghost args = text::views(assistant_args@);
    if assistant_args.len() > 0 {
        add_arg(&mut v, "--");
        let mut i: usize = 0;
        assert(text::views(v@) =~= head + (seq!["--"@] + args.take(0)));
        while i < assistant_args.len()
            invariant
                i <= assistant_args@.len(),
                args == text::views(assistant_args@),
                text::views(v@) == head + (seq!["--"@] + args.take(i as int)),
            decreases assistant_args.len() - i,
        {
            let ghost before = text::views(v@);
            add_arg(&mut v, assistant_args[i].as_str());
            assert(args.take(i + 1) =~= args.take(i as int).push(args[i as int]));
            assert(text::views(v@) =~= head + (seq!["--"@] + args.take(i + 1)));
            i = i + 1;
        }
        assert(args.take(i as int) =~= args);
    } else {
        assert(head + e =~= head);
    }
    v
}

/// What to do when a daemon is asked for.
#[derive(Debug, Clone, Copy, PartialEq, Eq, Structural)]
pub enum StartPlan {
    /// Start one.
    Start,
    /// One runs: attach to it.
    Attach,
    /// One runs, and there is no terminal to attach.
    Report,
    /// One runs, and that is all that was asked for.
    Nothing,
}

/// What starting comes to.
pub open spec fn start_plan_of(running: bool, detached: bool, has_terminal: bool) -> StartPlan {
    if !running {
        StartPlan::Start
    } else if detached {
        StartPlan::Nothing
    } else if has_terminal {
        StartPlan::Attach
    } else {
        StartPlan::Report
    }
}

/// What to do when a daemon is asked for.
pub fn start_plan(running: bool, detached: bool, has_terminal: bool) -> (r: StartPlan)
    ensures
        r == start_plan_of(running, detached, has_terminal),
{
    if !running {
        StartPlan::Start
    } else if detached {
        StartPlan::Nothing
    } else if has_terminal {
        StartPlan::Attach
    } else {
        StartPlan::Report
    }
}

/// The notice that options were ignored because a daemon runs.
pub const IGNORED: &'static str = "\u{26a0}  Babel3 daemon is already running \u{2014} --app-port/--app-public flags ignored.\nTo apply new proxy settings, restart the daemon:\n\n\x1b[1m  b3 stop && b3 start --app-port ";

/// The notice that options were ignored because a daemon runs; none where there
/// were none.
pub fn ignored_options(app_port: Option<u16>, app_public: bool) -> (r: Option<String>)
    ensures
        config::opt_string(r) == (if app_port is Some || app_public {
            Some(
                IGNORED@ + (match app_port {
                    Some(p) => text::decimal(p as nat),
                    None => "<port>"@,
                }) + (if app_public {
                    " --app-public"@
                } else {
                    ""@
                }) + "\x1b[0m"@,
            )
        } else {
            None
        }),
{
    if app_port.is_none() && !app_public {
        return None;
    }
    let port = match app_port {
        Some(p) => text::to_decimal(p as u64),
        None => "<port>".to_owned(),
    };
    let public = if app_public {
        " --app-public"
    } else {
        ""
    };
    Some(text::cat4(IGNORED, port.as_str(), public, "\x1b[0m"))
}

// ── The banner ──────────────────────────────────────────────────────

/// The agent's dashboard on the public server, whatever server the agent uses: by
/// the last part of its URL, else by its address.
pub open spec fn public_dashboard(web_url: Seq<char>, email: Seq<char>) -> Seq<char> {
    let last = text::after_last_spec(web_url, '/');
    "https://babel3.com/a/"@ + (if last.len() > 0 {
        last
    } else {
        config::name_of(email)
    })
}

/// The agent's dashboard on the public server.
pub fn production_dashboard_url(config: &Config) -> (r: String)
    ensures
        r@ == public_dashboard(config.web_url@, config.agent_email@),
{
    let last = text::after_last(config.web_url.as_str(), '/');
    if last.as_str().is_empty() {
        let name = text::before_first(config.agent_email.as_str(), '@');
        text::cat2("https://babel3.com/a/", name.as_str())
    } else {
        text::cat2("https://babel3.com/a/", last.as_str())
    }
}

/// The banner, up to the version.
pub const BANNER_A: &'static str = "\x1b[36m\x1b[1mBabel3 v";

/// The banner, from the version up to the name of the assistant.
pub const BANNER_B: &'static str = "\x1b[0m\r\n\r\n\x1b[90m  This is a persistent session. ";

/// The banner, from the name of the assistant up to the dashboard.
pub const BANNER_C: &'static str = " Code keeps running even\r\nwhen you disconnect \u{2014} your tools, voice, and dashboard stay live.\x1b[0m\r\n\r\n\x1b[33mCtrl+B d\x1b[0m   Detach (daemon keeps running in background)\r\n\x1b[33mCtrl+B q\x1b[0m   Quit (stop the daemon)\r\n\x1b[33mb3 stop\x1b[0m  Stop from another terminal\r\n\r\n\x1b[34mDashboard:\x1b[0m ";

/// The banner, from the dashboard up to the name of the assistant.
pub const BANNER_D: &'static str = "\r\n\r\n\x1b[90mFor voice tools, launch ";

/// The banner, from the name of the assistant up to its program.
pub const BANNER_E: &'static str = " with:\x1b[0m\r\n\x1b[33m";

/// The banner, from the assistant's program on.
pub const BANNER_F: &'static str = " --dangerously-load-development-channels server:b3\x1b[0m\r\n\r\n\x1b[90m\u{2500}\u{2500}\u{2500}\u{2500}\u{2500}\u{2500}\u{2500}\u{2500}\u{2500}\u{2500}\u{2500}\u{2500}\u{2500}\u{2500}\u{2500}\u{2500}\u{2500}\u{2500}\u{2500}\u{2500}\u{2500}\u{2500}\u{2500}\u{2500}\u{2500}\u{2500}\u{2500}\u{2500}\u{2500}\u{2500}\u{2500}\u{2500}\u{2500}\u{2500}\u{2500}\u{2500}\u{2500}\u{2500}\u{2500}\u{2500}\u{2500}\u{2500}\u{2500}\u{2500}\u{2500}\u{2500}\u{2500}\u{2500}\u{2500}\x1b[0m\r\n";

/// The banner of an attached session. It names the assistant and its program.
pub fn startup_banner(config: &Config, version: &str, assistant: &str, program: &str) -> (r: String)
    ensures
        r@ == BANNER_A@ + version@ + BANNER_B@ + assistant@ + BANNER_C@ + public_dashboard(
            config.web_url@,
            config.agent_email@,
        ) + BANNER_D@ + assistant@ + BANNER_E@ + program@ + BANNER_F@,
{
    let url = production_dashboard_url(config);
    let head = text::cat6(BANNER_A, version, BANNER_B, assistant, BANNER_C, url.as_str());
    text::cat6(head.as_str(), BANNER_D, assistant, BANNER_E, program, BANNER_F)
}

// ── Waiting for the daemon ──────────────────────────────────────────

/// What the new daemon said so far.
#[derive(Debug)]
pub enum Signal {
    /// The byte that it sent; none where it closed the pipe.
    Said(Option<u8>),
    /// Nothing yet.
    Silent,
    /// The pipe cannot be read.
    Error(String),
}

/// How the start goes on.
#[derive(Debug)]
pub enum Ready {
    Started,
    Wait,
    Failed(String),
}

/// The message that the daemon died, by what happened to it.
pub open spec fn died(pid: i32, how: Seq<char>) -> Seq<char> {
    "Daemon child process (PID "@ + text::signed_decimal(pid as int) + ") "@ + how
        + ".\nCheck /tmp/b3-daemon-early.log for pre-runtime errors,\nand /tmp/b3-daemon.log for runtime errors."@
}

fn death_notice(pid: i32, how: &str) -> (r: String)
    ensures
        r@ == died(pid, how@),
{
    let n = text::to_signed_decimal(pid as i64);
    text::cat5(
        "Daemon child process (PID ",
        n.as_str(),
        ") ",
        how,
        ".\nCheck /tmp/b3-daemon-early.log for pre-runtime errors,\nand /tmp/b3-daemon.log for runtime errors.",
    )
}

/// The view of how a start goes on: whether it is done, and what went wrong.
pub open spec fn ready_view(r: Ready) -> (bool, Option<Seq<char>>) {
    match r {
        Ready::Started => (true, None),
        Ready::Wait => (false, None),
        Ready::Failed(m) => (true, Some(m@)),
    }
}

/// How the start goes on. A daemon is started once it sends the letter `R`; it is
/// waited for while it lives and the time is not up.
pub fn await_ready(signal: &Signal, timed_out: bool, alive: bool, pid: i32) -> (r: Ready)
    ensures
        ready_view(r) == (match signal {
            Signal::Said(Some(82)) => (true, None),
            Signal::Said(_) => (
                true,
                Some(
                    "Daemon failed to start (signaled failure).\nCheck /tmp/b3-daemon.log for details."@,
                ),
            ),
            Signal::Error(e) => (true, Some("Failed to read daemon ready signal: "@ + e@)),
            Signal::Silent => if timed_out && alive {
                (
                    true,
                    Some(
                        "Daemon timed out (30s) without signaling ready.\nCheck /tmp/b3-daemon.log and /tmp/b3-daemon-early.log"@,
                    ),
                )
            } else if timed_out {
                (true, Some(died(pid, "died before signaling ready"@)))
            } else if !alive {
                (true, Some(died(pid, "exited unexpectedly"@)))
            } else {
                (false, None)
            },
        }),
{
    match signal {
        Signal::Said(Some(82)) => Ready::Started,
        Signal::Said(_) => Ready::Failed(
            "Daemon failed to start (signaled failure).\nCheck /tmp/b3-daemon.log for details.".to_owned(),
        ),
        Signal::Error(e) => Ready::Failed(
            text::cat2("Failed to read daemon ready signal: ", e.as_str()),
        ),
        Signal::Silent => {
            if timed_out && alive {
                Ready::Failed(
                    "Daemon timed out (30s) without signaling ready.\nCheck /tmp/b3-daemon.log and /tmp/b3-daemon-early.log".to_owned(),
                )
            } else if timed_out {
                Ready::Failed(death_notice(pid, "died before signaling ready"))
            } else if !alive {
                Ready::Failed(death_notice(pid, "exited unexpectedly"))
            } else {
                Ready::Wait
            }
        },
    }
}

/// Whether the daemon stays after an attached session ended: only where it was
/// detached.
pub fn stays_running(reason: ExitReason) -> (r: bool)
    ensures
        r == (reason == ExitReason::Detached),
{
    reason == ExitReason::Detached
}

// ── Stopping ────────────────────────────────────────────────────────

/// Why the daemon is not stopped from within one of its own sessions.
pub const INSIDE: &'static str = "You're inside a Babel3 session. Stopping will kill this session.\n\nIf you really want to stop, run:\n\n\x1b[1m  b3 stop --force\x1b[0m\n\nOr use the restart_session MCP tool to restart cleanly.";

/// What to do when the daemon is to be stopped.
#[derive(Debug, Clone, Copy, PartialEq, Eq, Structural)]
pub enum StopPlan {
    /// It is asked for from within a session, and not forced.
    Refuse,
    /// None runs: clean up.
    CleanUp,
    /// It cannot be reached: end its process.
    Kill,
    /// Ask it to stop.
    Ask,
}

/// What stopping comes to.
pub open spec fn stop_plan_of(
    in_session: bool,
    force: bool,
    running: bool,
    reachable: bool,
) -> StopPlan {
    if in_session && !force {
        StopPlan::Refuse
    } else if !running {
        StopPlan::CleanUp
    } else if !reachable {
        StopPlan::Kill
    } else {
        StopPlan::Ask
    }
}

/// What to do when the daemon is to be stopped.
pub fn stop_plan(in_session: bool, force: bool, running: bool, reachable: bool) -> (r: StopPlan)
    ensures
        r == stop_plan_of(in_session, force, running, reachable),
{
    if in_session && !force {
        StopPlan::Refuse
    } else if !running {
        StopPlan::CleanUp
    } else if !reachable {
        StopPlan::Kill
    } else {
        StopPlan::Ask
    }
}

/// How often a daemon that was asked to stop is looked after before it is killed.
pub const STOP_CHECKS: u32 = 32;

/// How often a daemon that was told to end is looked after before it is forced to.
pub const KILL_CHECKS: u32 = 8;

/// What follows a look at a daemon that is to end.
#[derive(Debug, Clone, Copy, PartialEq, Eq, Structural)]
pub enum StopStep {
    Stopped,
    LookAgain,
    Escalate,
}

/// What follows the look with the given number, counted from zero, at a daemon
/// that is to end.
pub fn after_check(check: u32, limit: u32, running: bool) -> (r: StopStep)
    ensures
        r == (if !running {
            StopStep::Stopped
        } else if check + 1 < limit {
            StopStep::LookAgain
        } else {
            StopStep::Escalate
        }),
{
    if !running {
        StopStep::Stopped
    } else if limit > 0 && check < limit - 1 {
        StopStep::LookAgain
    } else {
        StopStep::Escalate
    }
}

// ── Passwords ───────────────────────────────────────────────────────

/// Whether a password is long enough to be set, in bytes.
pub open spec fn long_enough(password: Seq<char>) -> bool {
    vstd::utf8::encode_utf8(password).len() >= 4
}

/// Whether a password is long enough to be set.
pub fn is_long_enough(password: &str) -> (r: bool)
    ensures
        r == long_enough(password@),
{
    let b = crate::bytes::bytes_of(password);
    b.len() >= 4
}

/// Why a password is not set, where it is not: its confirmation, where there is
/// one, differs, or it is too short.
pub fn set_password(password: &str, confirmation: Option<&str>) -> (r: Result<(), &'static str>)
    ensures
        if confirmation matches Some(c) && c@ != password@ {
            r matches Err(m) && m@ == "Passwords don't match."@
        } else if !long_enough(password@) {
            r matches Err(m) && m@ == "Password must be at least 4 characters."@
        } else {
            r is Ok
        },
{
    match confirmation {
        Some(c) => {
            if !text::same(c, password) {
                return Err("Passwords don't match.");
            }
        },
        None => {},
    }
    if !is_long_enough(password) {
        return Err("Password must be at least 4 characters.");
    }
    Ok(())
}

/// The assistant's own arguments come last, behind a mark, as they were given.
pub proof fn law_own_arguments_last(
    browser_dir: Option<Seq<char>>,
    app_port: Option<u16>,
    app_public: bool,
    detached: bool,
    own: Seq<Seq<char>>,
)
    requires
        own.len() > 0,
    ensures
        ({
            let all = start_args_of(browser_dir, app_port, app_public, detached, own);
            let none = start_args_of(browser_dir, app_port, app_public, detached, Seq::empty());
            &&& all == none + seq!["--"@] + own
            &&& browser_dir is Some ==> none[0] == "--browser-dir"@ && none[1]
                == browser_dir.unwrap()
            &&& none.contains("--app-public"@) || !app_public
            &&& none.contains("--detached"@) || !detached
        }),
{
    let all = start_args_of(browser_dir, app_port, app_public, detached, own);
    let none = start_args_of(browser_dir, app_port, app_public, detached, Seq::empty());
    assert(all =~= none + seq!["--"@] + own);
    if detached {
        assert(none[none.len() - 1] == "--detached"@);
    }
    if app_public {
        let k = if detached {
            none.len() - 2
        } else {
            none.len() - 1
        };
        assert(none[k] == "--app-public"@);
    }
}

/// The public dashboard is that of the agent's name.
pub proof fn law_dashboard_named(base: Seq<char>, name: Seq<char>, email: Seq<char>)
    requires
        name.len() > 0,
        text::lacks(name, '/'),
    ensures
        public_dashboard(base + seq!['/'] + name, email) == "https://babel3.com/a/"@ + name,
{
    text::law_after_last(base, '/', name);
}

/// A daemon is started only where none runs, and a terminal is joined only where one does.
pub proof fn law_started_once(running: bool, detached: bool, has_terminal: bool)
    ensures
        start_plan_of(running, detached, has_terminal) == StartPlan::Start <==> !running,
        start_plan_of(running, detached, has_terminal) == StartPlan::Attach ==> has_terminal
            && !detached,
        running && !detached && has_terminal ==> start_plan_of(running, detached, has_terminal)
            == StartPlan::Attach,
{
}

/// A daemon is not stopped from within unless that is forced, and is killed only where it
/// cannot be asked.
pub proof fn law_stopped_with_care(in_session: bool, force: bool, running: bool, reachable: bool)
    ensures
        stop_plan_of(in_session, force, running, reachable) == StopPlan::Refuse <==> in_session
            && !force,
        stop_plan_of(in_session, force, running, reachable) == StopPlan::Kill ==> running
            && !reachable,
        (!in_session || force) && running && reachable ==> stop_plan_of(
            in_session,
            force,
            running,
            reachable,
        ) == StopPlan::Ask,
        (!in_session || force) && running && !reachable ==> stop_plan_of(
            in_session,
            force,
            running,
            reachable,
        ) == StopPlan::Kill,
{
}

} // verus!
