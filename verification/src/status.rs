//! What the agent's state is shown as.

use vstd::prelude::*;

use crate::config::Config;
use crate::text;

verus! {

/// What is shown of a running daemon.
#[derive(Debug, Clone)]
pub struct DaemonState {
    pub pid_path: String,
    /// The contents of that file, where it can be read.
    pub pid: Option<String>,
    /// Where the browser's files are taken from, where these are not the official ones.
    pub browser_dir: Option<String>,
}

/// The lines that show who the agent is.
pub open spec fn identity(c: Config) -> Seq<Seq<char>> {
    seq![
        "Agent Identity"@,
        "  Email:     "@ + c.agent_email@,
        "  ID:        "@ + c.agent_id@,
        "  Dashboard: "@ + c.web_url@,
        ""@,
    ]
}

/// The lines that show the daemon.
pub open spec fn daemon_lines(d: Option<DaemonState>) -> Seq<Seq<char>> {
    match d {
        None => seq!["Daemon"@, "  Status:    stopped"@, ""@],
        Some(d) => seq![
            "Daemon"@,
            "  Status:    running"@,
            "  PID file:  "@ + d.pid_path@,
        ] + (match d.pid {
            Some(p) => seq!["  PID:       "@ + text::trim_spec(p@)],
            None => Seq::empty(),
        }) + seq![
            match d.browser_dir {
                Some(b) => "  Browser:   development ("@ + b@ + ")"@,
                None => "  Browser:   official"@,
            },
            ""@,
        ],
    }
}

fn line(out: &mut Vec<String>, s: String)
    ensures
        text::views(final(out)@) == text::views(old(out)@).push(s@),
{
    let ghost before = text::views(out@);
    out.push(s);
    assert(text::views(out@) =~= before.push(s@));
}

/// The lines that show who the agent is and the daemon.
pub fn status_lines(config: &Config, daemon: Option<&DaemonState>) -> (r: Vec<String>)
    ensures
        text::views(r@) == identity(*config) + daemon_lines(
            match daemon {
                Some(d) => Some(*d),
                None => None,
            },
        ),
{
    let mut out: Vec<String> = Vec::new();
    line(&mut out, "Agent Identity".to_owned());
    line(&mut out, text::cat2("  Email:     ", config.agent_email.as_str()));
    line(&mut out, text::cat2("  ID:        ", config.agent_id.as_str()));
    line(&mut out, text::cat2("  Dashboard: ", config.web_url.as_str()));
    line(&mut out, "".to_owned());
    assert(text::views(out@) =~= identity(*config));
    line(&mut out, "Daemon".to_owned());
    match daemon {
        None => {
            line(&mut out, "  Status:    stopped".to_owned());
            line(&mut out, "".to_owned());
            assert(text::views(out@) =~= identity(*config) + daemon_lines(None));
        },
        Some(d) => {
            line(&mut out, "  Status:    running".to_owned());
            line(&mut out, text::cat2("  PID file:  ", d.pid_path.as_str()));
            match &d.pid {
                Some(p) => {
                    let pid = text::trim(p.as_str());
                    line(&mut out, text::cat2("  PID:       ", pid.as_str()));
                },
                None => {},
            }
            let browser = match &d.browser_dir {
                Some(b) => text::cat3("  Browser:   development (", b.as_str(), ")"),
                None => "  Browser:   official".to_owned(),
            };
            line(&mut out, browser);
            line(&mut out, "".to_owned());
            assert(text::views(out@) =~= identity(*config) + daemon_lines(Some(*d)));
        },
    }
    out
}

/// What came of asking the server for its health.
#[derive(Debug, Clone)]
pub enum Reached {
    /// It answered with this status.
    Answered { success: bool, status: String },
    /// It could not be reached.
    Failed(String),
}

/// The line that shows whether the server can be reached.
pub fn connectivity(reached: &Reached, api_url: &str) -> (r: String)
    ensures
        r@ == (match *reached {
            Reached::Answered { success, status } => if success {
                "  Public API:  ✓ reachable ("@ + api_url@ + ")"@
            } else {
                "  Public API:  ✗ status "@ + status@ + " ("@ + api_url@ + ")"@
            },
            Reached::Failed(e) => "  Public API:  ✗ unreachable ("@ + e@ + ")"@,
        }),
{
    match reached {
        Reached::Answered { success, status } => if *success {
            text::cat3("  Public API:  ✓ reachable (", api_url, ")")
        } else {
            text::cat5("  Public API:  ✗ status ", status.as_str(), " (", api_url, ")")
        },
        Reached::Failed(e) => text::cat3("  Public API:  ✗ unreachable (", e.as_str(), ")"),
    }
}

} // verus!
