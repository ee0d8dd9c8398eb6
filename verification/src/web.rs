//! The daemon's own web server.

use vstd::prelude::*;

use crate::archives;
use crate::config;
use crate::crypto;
use crate::events::{AgentEvent, AgentEventView};
use crate::files::{Reply, ReplyView};
use crate::ids::IdMap;
use crate::json;
use crate::json::{Json, JsonView};
use crate::session::{SessionBufferView, SessionStore};
use crate::terminal::Browsers;
use crate::text;
use crate::voice;

verus! {

// ── Access ──────────────────────────────────────────────────────────

/// What follows a prefix, where a text begins with it.
pub open spec fn after_prefix(s: Seq<char>, p: Seq<char>) -> Option<Seq<char>> {
    if text::starts_with_spec(s, p) {
        Some(s.skip(p.len() as int))
    } else {
        None
    }
}

/// What follows a prefix, where a text begins with it.
pub fn strip_prefix(s: &str, p: &str) -> (r: Option<String>)
    ensures
        config::opt_string(r) == after_prefix(s@, p@),
{
    if text::starts_with(s, p) {
        let n: usize = p.unicode_len();
        Some(text::skip(s, n))
    } else {
        None
    }
}

/// What follows the prefix in the first of the texts, at or after `i`, that begins
/// with it; with `trimmed`, white space around a text does not count.
pub open spec fn first_after(v: Seq<Seq<char>>, p: Seq<char>, trimmed: bool, i: int) -> Option<
    Seq<char>,
>
    decreases v.len() - i,
{
    if i >= v.len() {
        None
    } else {
        let s = if trimmed {
            text::trim_spec(v[i])
        } else {
            v[i]
        };
        match after_prefix(s, p) {
            Some(t) => Some(t),
            None => first_after(v, p, trimmed, i + 1),
        }
    }
}

/// What follows the prefix in the first part of a text that begins with it.
fn find_after(s: &str, separator: char, p: &str, trimmed: bool) -> (r: Option<String>)
    ensures
        config::opt_string(r) == first_after(text::split_spec(s@, separator), p@, trimmed, 0),
{
    let parts = text::split(s, separator);
    let ghost all = text::split_spec(s@, separator);
    let mut i: usize = 0;
    while i < parts.len()
        invariant
            i <= parts@.len(),
            all == text::views(parts@),
            all == text::split_spec(s@, separator),
            first_after(all, p@, trimmed, 0) == first_after(all, p@, trimmed, i as int),
        decreases parts.len() - i,
    {
        assert(all[i as int] == parts@[i as int]@);
        let part = if trimmed {
            text::trim(parts[i].as_str())
        } else {
            parts[i].clone()
        };
        match strip_prefix(part.as_str(), p) {
            Some(t) => {
                return Some(t);
            },
            None => {},
        }
        i = i + 1;
    }
    None
}

/// The token that a request shows: in its header, else in its query, else in its
/// cookie.
pub open spec fn token_shown(
    authorization: Option<Seq<char>>,
    query: Option<Seq<char>>,
    cookie: Option<Seq<char>>,
) -> Option<Seq<char>> {
    let header = match authorization {
        Some(a) => after_prefix(a, "Bearer "@),
        None => None,
    };
    let asked = match query {
        Some(q) => first_after(text::split_spec(q, '&'), "token="@, false, 0),
        None => None,
    };
    let kept = match cookie {
        Some(c) => first_after(text::split_spec(c, ';'), "b3_token="@, true, 0),
        None => None,
    };
    if header is Some {
        header
    } else if asked is Some {
        asked
    } else {
        kept
    }
}

/// Whether a request shows the right token. The first that it shows decides.
pub fn check_token(
    authorization: Option<&str>,
    query: Option<&str>,
    cookie: Option<&str>,
    api_key: &str,
) -> (r: bool)
    ensures
        r == (token_shown(config::opt(authorization), config::opt(query), config::opt(cookie))
            == Some(api_key@)),
{
    match authorization {
        Some(a) => match strip_prefix(a, "Bearer ") {
            Some(t) => {
                return text::same(t.as_str(), api_key);
            },
            None => {},
        },
        None => {},
    }
    match query {
        Some(q) => match find_after(q, '&', "token=", false) {
            Some(t) => {
                return text::same(t.as_str(), api_key);
            },
            None => {},
        },
        None => {},
    }
    match cookie {
        Some(c) => match find_after(c, ';', "b3_token=", true) {
            Some(t) => text::same(t.as_str(), api_key),
            None => false,
        },
        None => false,
    }
}

/// Whether a request is open to all: the health of the daemon, the way in of its
/// own proxy, and the questions that browsers ask beforehand.
pub fn is_open(path: &str, method: &str) -> (r: bool)
    ensures
        r == (path@ == "/health"@ || path@ == "/ws-proxy"@ || method@ == "OPTIONS"@),
{
    text::same(path, "/health") || text::same(path, "/ws-proxy") || text::same(method, "OPTIONS")
}

/// The cookie that shows the token to the pages of the web server.
pub open spec fn token_cookie(api_key: Seq<char>) -> Seq<char> {
    "b3_token="@ + api_key + "; Path=/; HttpOnly; SameSite=None; Secure; Max-Age=86400"@
}

/// The cookie that shows the token to the pages of the web server.
pub fn auth_cookie(api_key: &str) -> (r: String)
    ensures
        r@ == token_cookie(api_key@),
{
    text::cat3("b3_token=", api_key, "; Path=/; HttpOnly; SameSite=None; Secure; Max-Age=86400")
}

/// Whether a request is let through.
#[derive(Debug, Clone)]
pub enum Access {
    Refused,
    Allowed,
    /// It is, and the answer sets this cookie, so that later requests show the token.
    SetsCookie(String),
}

/// The mathematical value of an [`Access`].
#[verifier::ext_equal]
pub enum AccessView {
    Refused,
    Allowed,
    SetsCookie(Seq<char>),
}

impl View for Access {
    type V = AccessView;

    open spec fn view(&self) -> AccessView {
        match self {
            Access::Refused => AccessView::Refused,
            Access::Allowed => AccessView::Allowed,
            Access::SetsCookie(c) => AccessView::SetsCookie(c@),
        }
    }
}

/// Whether the token that a request shows is that of its query.
pub open spec fn shown_by_query(authorization: Option<Seq<char>>, query: Option<Seq<char>>) -> bool {
    let header = match authorization {
        Some(a) => after_prefix(a, "Bearer "@),
        None => None,
    };
    header is None && (query matches Some(q) && first_after(
        text::split_spec(q, '&'),
        "token="@,
        false,
        0,
    ) is Some)
}

fn is_shown_by_query(authorization: Option<&str>, query: Option<&str>) -> (r: bool)
    ensures
        r == shown_by_query(config::opt(authorization), config::opt(query)),
{
    let header = match authorization {
        Some(a) => text::starts_with(a, "Bearer "),
        None => false,
    };
    match query {
        Some(q) => !header && find_after(q, '&', "token=", false).is_some(),
        None => false,
    }
}

/// Whether a request is let through: it is open to all, or shows the right token.
/// One that shows it in its query gets a cookie.
pub open spec fn access(
    path: Seq<char>,
    method: Seq<char>,
    authorization: Option<Seq<char>>,
    query: Option<Seq<char>>,
    cookie: Option<Seq<char>>,
    api_key: Seq<char>,
) -> AccessView {
    if path == "/health"@ || path == "/ws-proxy"@ || method == "OPTIONS"@ {
        AccessView::Allowed
    } else if token_shown(authorization, query, cookie) != Some(api_key) {
        AccessView::Refused
    } else if shown_by_query(authorization, query) {
        AccessView::SetsCookie(token_cookie(api_key))
    } else {
        AccessView::Allowed
    }
}

/// Whether a request is let through.
pub fn auth_middleware(
    path: &str,
    method: &str,
    authorization: Option<&str>,
    query: Option<&str>,
    cookie: Option<&str>,
    api_key: &str,
) -> (r: Access)
    ensures
        r@ == access(
            path@,
            method@,
            config::opt(authorization),
            config::opt(query),
            config::opt(cookie),
            api_key@,
        ),
{
    if is_open(path, method) {
        Access::Allowed
    } else if !check_token(authorization, query, cookie, api_key) {
        Access::Refused
    } else if is_shown_by_query(authorization, query) {
        Access::SetsCookie(auth_cookie(api_key))
    } else {
        Access::Allowed
    }
}

/// The cookie that a request gets lets the requests after it through.
pub proof fn law_cookie_admits(path: Seq<char>, method: Seq<char>, api_key: Seq<char>)
    requires
        text::trim_spec("b3_token="@ + api_key) == "b3_token="@ + api_key,
        !api_key.contains(';'),
    ensures
        access(path, method, None, None, Some("b3_token="@ + api_key), api_key) is Allowed,
{
    let c = "b3_token="@ + api_key;
    reveal_strlit("b3_token=");
    assert(!c.contains(';')) by {
        assert forall|i: int| 0 <= i < c.len() implies c[i] != ';' by {
            if i >= 9 {
                assert(c[i] == api_key[i - 9]);
            }
        }
    }
    text::lemma_split_one(c, ';');
    assert(c.skip(9) =~= api_key);
    assert(c.take(9) =~= "b3_token="@);
    assert(first_after(seq![c], "b3_token="@, true, 0) == Some(api_key));
}

/// What a domain adds to the origins, where it is neither of two others.
pub open spec fn other_origin(d: Seq<char>, a: Seq<char>, b: Seq<char>) -> Seq<Seq<char>> {
    if d != a && d != b {
        seq!["https://"@ + d]
    } else {
        Seq::empty()
    }
}

/// The origins whose pages may use the web server: those of the server's domain, of
/// the public domain, of the known ones, and, where the server is local, of the
/// local development servers.
pub open spec fn origins_of(
    server_domain: Seq<char>,
    canonical: Seq<char>,
    api_url: Seq<char>,
) -> Seq<Seq<char>> {
    let own = seq!["https://"@ + server_domain, "https://www."@ + server_domain];
    let public = if canonical != server_domain {
        seq!["https://"@ + canonical, "https://www."@ + canonical]
    } else {
        Seq::empty()
    };
    let known = other_origin("babel3.com"@, server_domain, canonical) + other_origin(
        "babel3.ai"@,
        server_domain,
        canonical,
    ) + other_origin("hey-code.ai"@, server_domain, canonical);
    let local = if server_domain == "localhost"@ || text::contains_spec(api_url, "localhost"@) {
        seq![
            "http://"@ + server_domain,
            "http://localhost:3000"@,
            "http://localhost:3100"@,
            "http://localhost:8080"@,
        ]
    } else {
        Seq::empty()
    };
    own + public + known + local
}

/// Adds an origin.
fn add_origin(v: &mut Vec<String>, scheme: &str, domain: &str)
    ensures
        text::views(final(v)@) == text::views(old(v)@) + seq![scheme@ + domain@],
{
    let ghost before = text::views(v@);
    v.push(text::cat2(scheme, domain));
    assert(text::views(v@) =~= before + seq![scheme@ + domain@]);
}

/// Adds the origin of a domain that is neither of two others.
fn add_other(v: &mut Vec<String>, d: &str, a: &str, b: &str)
    ensures
        text::views(final(v)@) == text::views(old(v)@) + other_origin(d@, a@, b@),
{
    if !text::same(d, a) && !text::same(d, b) {
        add_origin(v, "https://", d);
    } else {
        assert(text::views(v@) + Seq::empty() =~= text::views(v@));
    }
}

/// The origins whose pages may use the web server.
pub fn allowed_origins(server_domain: &str, canonical: &str, api_url: &str) -> (r: Vec<String>)
    ensures
        text::views(r@) == origins_of(server_domain@, canonical@, api_url@),
{
    let mut v: Vec<String> = Vec::new();
    let ghost none = text::views(v@);
    add_origin(&mut v, "https://", server_domain);
    add_origin(&mut v, "https://www.", server_domain);
    let ghost own = text::views(v@);
    assert(own =~= seq!["https://"@ + server_domain@, "https://www."@ + server_domain@]);
    if !text::same(canonical, server_domain) {
        add_origin(&mut v, "https://", canonical);
        add_origin(&mut v, "https://www.", canonical);
        assert(text::views(v@) =~= own + seq![
            "https://"@ + canonical@,
            "https://www."@ + canonical@,
        ]);
    } else {
        assert(own + Seq::empty() =~= own);
    }
    let ghost public = text::views(v@);
    add_other(&mut v, "babel3.com", server_domain, canonical);
    add_other(&mut v, "babel3.ai", server_domain, canonical);
    add_other(&mut v, "hey-code.ai", server_domain, canonical);
    let ghost known = other_origin("babel3.com"@, server_domain@, canonical@) + other_origin(
        "babel3.ai"@,
        server_domain@,
        canonical@,
    ) + other_origin("hey-code.ai"@, server_domain@, canonical@);
    assert(text::views(v@) =~= public + known);
    let ghost before = text::views(v@);
    if text::same(server_domain, "localhost") || text::contains(api_url, "localhost") {
        add_origin(&mut v, "http://", server_domain);
        let ghost first = text::views(v@);
        v.push("http://localhost:3000".to_owned());
        assert(text::views(v@) =~= first.push("http://localhost:3000"@));
        v.push("http://localhost:3100".to_owned());
        assert(text::views(v@) =~= first.push("http://localhost:3000"@).push(
            "http://localhost:3100"@,
        ));
        v.push("http://localhost:8080".to_owned());
        assert(text::views(v@) =~= first.push("http://localhost:3000"@).push(
            "http://localhost:3100"@,
        ).push("http://localhost:8080"@));
        assert(text::views(v@) =~= before + seq![
            "http://"@ + server_domain@,
            "http://localhost:3000"@,
            "http://localhost:3100"@,
            "http://localhost:8080"@,
        ]);
    } else {
        assert(before + Seq::empty() =~= before);
    }
    v
}

/// The origin of the server's own domain is always allowed.
pub proof fn law_own_origin(server_domain: Seq<char>, canonical: Seq<char>, api_url: Seq<char>)
    ensures
        origins_of(server_domain, canonical, api_url).contains("https://"@ + server_domain),
{
    let o = origins_of(server_domain, canonical, api_url);
    assert(o[0] == "https://"@ + server_domain);
}

// ── State of the daemon ─────────────────────────────────────────────

/// The state of a part of the daemon.
#[derive(Debug)]
pub struct Subsystem {
    pub name: String,
    pub healthy: bool,
    pub consecutive_failures: u64,
    /// What went wrong last.
    pub detail: Option<String>,
}

/// The mathematical value of a [`Subsystem`].
#[verifier::ext_equal]
pub struct SubsystemView {
    pub name: Seq<char>,
    pub healthy: bool,
    pub consecutive_failures: u64,
    pub detail: Option<Seq<char>>,
}

impl View for Subsystem {
    type V = SubsystemView;

    open spec fn view(&self) -> SubsystemView {
        SubsystemView {
            name: self.name@,
            healthy: self.healthy,
            consecutive_failures: self.consecutive_failures,
            detail: crate::config::opt_string(self.detail),
        }
    }
}

/// What is told of a part of the daemon.
pub open spec fn subsystem_json(s: SubsystemView) -> JsonView {
    JsonView::object().put_text("name"@, s.name).put_bool("healthy"@, s.healthy).put_uint(
        "consecutive_failures"@,
        s.consecutive_failures,
    ).put(
        "last_error"@,
        match s.detail {
            Some(d) => JsonView::Text(d),
            None => JsonView::Null,
        },
    )
}

/// The views of parts.
pub open spec fn subsystem_views(v: Seq<Subsystem>) -> Seq<SubsystemView> {
    v.map_values(|s: Subsystem| s@)
}

/// The health of the daemon: degraded as soon as one of its parts is not healthy.
pub open spec fn health_json(parts: Option<Seq<SubsystemView>>) -> JsonView {
    match parts {
        None => JsonView::object().put_text("status"@, "ok"@),
        Some(v) => JsonView::object().put_text(
            "status"@,
            if forall|i: int| 0 <= i < v.len() ==> (#[trigger] v[i]).healthy {
                "ok"@
            } else {
                "degraded"@
            },
        ).put("subsystems"@, JsonView::Array(v.map_values(|s: SubsystemView| subsystem_json(s)))),
    }
}

/// The answer on the health of the daemon. Its status is always 200, since the
/// tunnel gives up on a server that answers otherwise.
pub fn health(parts: Option<&[Subsystem]>) -> (r: Reply)
    ensures
        r@ == (ReplyView {
            status: 200,
            body: health_json(
                match parts {
                    Some(v) => Some(subsystem_views(v@)),
                    None => None,
                },
            ),
        }),
{
    let v = match parts {
        None => {
            return Reply { status: 200, body: Json::object().put_text("status", "ok") };
        },
        Some(v) => v,
    };
    let ghost all = subsystem_views(v@);
    let mut subs: Vec<Json> = Vec::new();
    let mut well: bool = true;
    let mut i: usize = 0;
    while i < v.len()
        invariant
            i <= v@.len(),
            all == subsystem_views(v@),
            subs@.len() == i,
            well == (forall|k: int| 0 <= k < i ==> (#[trigger] all[k]).healthy),
            forall|k: int| 0 <= k < i ==> (#[trigger] subs@[k])@ == subsystem_json(all[k]),
        decreases v.len() - i,
    {
        let s = &v[i];
        assert(all[i as int] == s@);
        let last = match &s.detail {
            Some(d) => Json::Text(d.clone()),
            None => Json::Null,
        };
        subs.push(
            Json::object().put_text("name", s.name.as_str()).put_bool(
                "healthy",
                s.healthy,
            ).put_uint("consecutive_failures", s.consecutive_failures).put("last_error", last),
        );
        if !s.healthy {
            well = false;
        }
        i = i + 1;
    }
    assert(json::json_views(subs@) =~= all.map_values(|s: SubsystemView| subsystem_json(s)));
    let status = if well {
        "ok"
    } else {
        "degraded"
    };
    Reply {
        status: 200,
        body: Json::object().put_text("status", status).put("subsystems", Json::array(subs)),
    }
}

/// Whether a line of a browser's console passes a filter.
pub open spec fn passes(line: Seq<char>, filter: Option<Seq<char>>) -> bool {
    match filter {
        Some(f) => text::contains_spec(text::lowercase(line), text::lowercase(f)),
        None => true,
    }
}

/// The lines that pass both filters.
pub open spec fn passing(
    lines: Seq<Seq<char>>,
    filter: Option<Seq<char>>,
    second: Option<Seq<char>>,
) -> Seq<Seq<char>> {
    lines.filter(|l: Seq<char>| passes(l, filter) && passes(l, second))
}

/// The last `n` of the lines.
pub open spec fn last_of(lines: Seq<Seq<char>>, n: int) -> Seq<Seq<char>> {
    if lines.len() > n {
        lines.skip(lines.len() - n)
    } else {
        lines
    }
}

/// How many lines are asked for: a hundred, unless a number says otherwise.
pub open spec fn lines_asked(last: Option<Seq<char>>) -> nat {
    match last {
        Some(s) => match text::parse_unsigned(s, usize::MAX as nat) {
            Some(n) => n,
            None => 100,
        },
        None => 100,
    }
}

/// The last lines of the browsers' consoles that pass the filters.
pub fn browser_console(
    lines: &[String],
    last: Option<&str>,
    filter: Option<&str>,
    second: Option<&str>,
) -> (r: Json)
    ensures
        ({
            let shown = last_of(
                passing(text::views(lines@), config::opt(filter), config::opt(second)),
                lines_asked(config::opt(last)) as int,
            );
            r@ == JsonView::object().put_uint("count"@, shown.len() as u64).put_uint(
                "total"@,
                lines@.len() as u64,
            ).put("logs"@, json::texts(shown))
        }),
{
    let n: usize = match last {
        Some(s) => match text::parse_number(s, usize::MAX as u64) {
            Some(v) => v as usize,
            None => 100,
        },
        None => 100,
    };
    let f1 = match filter {
        Some(f) => Some(text::to_lowercase(f)),
        None => None,
    };
    let f2 = match second {
        Some(f) => Some(text::to_lowercase(f)),
        None => None,
    };
    let ghost all = text::views(lines@);
    let ghost keep = |l: Seq<char>| passes(l, config::opt(filter)) && passes(l, config::opt(second));
    let mut kept: Vec<String> = Vec::new();
    let mut i: usize = 0;
    assert(text::views(kept@) =~= all.take(0).filter(keep)) by {
        reveal(Seq::filter);
        assert(all.take(0).filter(keep) =~= Seq::empty());
    }
    while i < lines.len()
        invariant
            i <= lines@.len(),
            all == text::views(lines@),
            keep == (|l: Seq<char>|
                passes(l, config::opt(filter)) && passes(l, config::opt(second))),
            config::opt_string(f1) == (match filter {
                Some(f) => Some(text::lowercase(f@)),
                None => None,
            }),
            config::opt_string(f2) == (match second {
                Some(f) => Some(text::lowercase(f@)),
                None => None,
            }),
            text::views(kept@) == all.take(i as int).filter(keep),
        decreases lines.len() - i,
    {
        proof {
            text::lemma_filter_step(all, keep, i as int);
        }
        assert(all[i as int] == lines@[i as int]@);
        let lower = text::to_lowercase(lines[i].as_str());
        let a: bool = match &f1 {
            Some(f) => text::contains(lower.as_str(), f.as_str()),
            None => true,
        };
        let b: bool = match &f2 {
            Some(f) => text::contains(lower.as_str(), f.as_str()),
            None => true,
        };
        let ghost before = text::views(kept@);
        if a && b {
            kept.push(lines[i].clone());
            assert(text::views(kept@) =~= before.push(all[i as int]));
        }
        i = i + 1;
    }
    assert(all.take(i as int) =~= all);
    let ghost passed = text::views(kept@);
    let start: usize = if kept.len() > n {
        kept.len() - n
    } else {
        0
    };
    let mut shown: Vec<String> = Vec::new();
    let mut k: usize = start;
    while k < kept.len()
        invariant
            start <= k <= kept@.len(),
            passed == text::views(kept@),
            text::views(shown@) == passed.subrange(start as int, k as int),
        decreases kept.len() - k,
    {
        let ghost before = text::views(shown@);
        shown.push(kept[k].clone());
        assert(text::views(shown@) =~= before.push(kept@[k as int]@));
        assert(passed.subrange(start as int, k + 1) =~= passed.subrange(start as int, k as int).push(
            passed[k as int],
        ));
        k = k + 1;
    }
    assert(text::views(shown@) =~= last_of(passed, n as int));
    let count: u64 = shown.len() as u64;
    let total: u64 = lines.len() as u64;
    Json::object().put_uint("count", count).put_uint("total", total).put(
        "logs",
        Json::texts(shown.as_slice()),
    )
}

/// The event that has a browser run code.
pub open spec fn eval_event(body: JsonView, eval_id: Seq<char>) -> Option<AgentEventView> {
    match body.text("code"@) {
        Some(code) => Some(
            AgentEventView::BrowserEval { eval_id, code, session_id: body.uint("session_id"@) },
        ),
        None => None,
    }
}

/// The code that browsers are asked to run, or the answer where there is none.
pub fn browser_eval(body: &Json, eval_id: &str) -> (r: Result<AgentEvent, Json>)
    ensures
        match eval_event(body@, eval_id@) {
            Some(x) => r matches Ok(e) && e@ == x,
            None => r matches Err(j) && j@ == JsonView::object().put_text(
                "error"@,
                "code parameter required"@,
            ),
        },
{
    match body.text("code") {
        Some(code) => Ok(
            AgentEvent::BrowserEval {
                eval_id: eval_id.to_owned(),
                code,
                session_id: body.uint("session_id"),
            },
        ),
        None => Err(Json::object().put_text("error", "code parameter required")),
    }
}

/// The identifier of a piece of code to run, by the time in nanoseconds.
pub fn eval_id(nanos: u128) -> (r: String)
    ensures
        r@ == "eval-"@ + text::hex((nanos % 0xffff_ffff) as nat),
{
    let n: u64 = (nanos % 0xffff_ffff) as u64;
    let h = text::to_hex(n);
    text::cat2("eval-", h.as_str())
}

/// What came of code that browsers were asked to run.
pub enum EvalOutcome {
    Result(String),
    Closed,
    Timeout,
}

/// What became of code that a browser was to run.
pub open spec fn eval_answer(eval_id: Seq<char>, outcome: EvalOutcome) -> JsonView {
    match outcome {
        EvalOutcome::Result(v) => JsonView::object().put_text("eval_id"@, eval_id).put_text(
            "result"@,
            v@,
        ),
        EvalOutcome::Closed => JsonView::object().put_text(
            "error"@,
            "eval channel closed (no browser connected?)"@,
        ),
        EvalOutcome::Timeout => JsonView::object().put_text(
            "error"@,
            "timeout: no browser responded within 5s"@,
        ),
    }
}

/// The answer on code that browsers were asked to run.
pub fn eval_reply(eval_id: &str, outcome: &EvalOutcome) -> (r: Json)
    ensures
        r@ == eval_answer(eval_id@, *outcome),
{
    match outcome {
        EvalOutcome::Result(v) => Json::object().put_text("eval_id", eval_id).put_text(
            "result",
            v.as_str(),
        ),
        EvalOutcome::Closed => Json::object().put_text(
            "error",
            "eval channel closed (no browser connected?)",
        ),
        EvalOutcome::Timeout => Json::object().put_text(
            "error",
            "timeout: no browser responded within 5s",
        ),
    }
}

/// The variables that say where GPUs are.
#[derive(Debug)]
pub struct GpuEnv {
    pub runpod_api_key: String,
    pub runpod_gpu_id: String,
    pub local_gpu_url: String,
    pub local_gpu_token: String,
}

/// The mathematical value of a [`GpuEnv`].
#[verifier::ext_equal]
pub struct GpuEnvView {
    pub runpod_api_key: Seq<char>,
    pub runpod_gpu_id: Seq<char>,
    pub local_gpu_url: Seq<char>,
    pub local_gpu_token: Seq<char>,
}

impl View for GpuEnv {
    type V = GpuEnvView;

    open spec fn view(&self) -> GpuEnvView {
        GpuEnvView {
            runpod_api_key: self.runpod_api_key@,
            runpod_gpu_id: self.runpod_gpu_id@,
            local_gpu_url: self.local_gpu_url@,
            local_gpu_token: self.local_gpu_token@,
        }
    }
}

impl GpuEnvView {
    /// Whether the GPU in the cloud can be used.
    pub open spec fn has_runpod(self) -> bool {
        self.runpod_api_key.len() > 0 && self.runpod_gpu_id.len() > 0
    }
}

impl GpuEnv {
    /// Whether the GPU in the cloud can be used.
    pub fn has_runpod(&self) -> (r: bool)
        ensures
            r == self@.has_runpod(),
    {
        !self.runpod_api_key.as_str().is_empty() && !self.runpod_gpu_id.as_str().is_empty()
    }
}

/// Where GPUs are.
pub open spec fn gpu_json(e: GpuEnvView) -> JsonView {
    JsonView::object().put_bool("configured"@, e.has_runpod()).put_text(
        "gpu_url"@,
        if e.has_runpod() {
            voice::runsync_url(e.runpod_gpu_id)
        } else {
            ""@
        },
    ).put_text(
        "gpu_token"@,
        if e.has_runpod() {
            e.runpod_api_key
        } else {
            ""@
        },
    ).put_text("local_gpu_url"@, e.local_gpu_url).put_text("local_gpu_token"@, e.local_gpu_token)
}

/// Where GPUs are.
pub fn gpu_config(e: &GpuEnv) -> (r: Json)
    ensures
        r@ == gpu_json(e@),
{
    let on: bool = e.has_runpod();
    let url = if on {
        text::cat3("https://api.runpod.ai/v2/", e.runpod_gpu_id.as_str(), "/runsync")
    } else {
        "".to_owned()
    };
    let token: &str = if on {
        e.runpod_api_key.as_str()
    } else {
        ""
    };
    Json::object().put_bool("configured", on).put_text("gpu_url", url.as_str()).put_text(
        "gpu_token",
        token,
    ).put_text("local_gpu_url", e.local_gpu_url.as_str()).put_text(
        "local_gpu_token",
        e.local_gpu_token.as_str(),
    )
}

/// What a browser gets at once when it connects.
pub fn init_bundle(e: &GpuEnv, tts_history: Json, info_archive: Json) -> (r: Json)
    ensures
        r@ == JsonView::object().put("gpu_config"@, gpu_json(e@)).put(
            "tts_history"@,
            tts_history@,
        ).put("info_archive"@, info_archive@),
{
    Json::object().put("gpu_config", gpu_config(e)).put("tts_history", tts_history).put(
        "info_archive",
        info_archive,
    )
}

/// The clients that are no browsers.
pub open spec fn terminals(sizes: nat, browsers: nat) -> u64 {
    if sizes > browsers {
        (sizes - browsers) as u64
    } else {
        0
    }
}

/// The state of speech in and out.
pub open spec fn pipeline_json(e: GpuEnvView, whisper_url: Seq<char>, chatterbox_url: Seq<char>) -> JsonView {
    JsonView::object().put_text(
        "backend"@,
        if e.has_runpod() {
            "runpod"@
        } else {
            "local"@
        },
    ).put_bool("runpod_configured"@, e.has_runpod()).put_text(
        "runpod_gpu_id"@,
        if e.has_runpod() {
            e.runpod_gpu_id
        } else {
            ""@
        },
    ).put_text("whisper_url"@, whisper_url).put_text("chatterbox_url"@, chatterbox_url)
}

/// Whether the variables of the cloud are set.
pub open spec fn env_json(e: GpuEnvView) -> JsonView {
    let s = if e.has_runpod() {
        "set"@
    } else {
        "missing"@
    };
    JsonView::object().put_text("RUNPOD_API_KEY"@, s).put_text("RUNPOD_GPU_ID"@, s)
}

/// The state of speech in and out, and of the browsers. The URLs of the servers that
/// are used without a GPU are those of the variables, else the usual ones.
pub fn diagnostics(
    agent_id: &str,
    agent_name: &str,
    version: &str,
    b: &Browsers,
    silent: &IdMap<u64>,
    e: &GpuEnv,
    whisper_url: Option<&str>,
    chatterbox_url: Option<&str>,
) -> (r: Json)
    ensures
        r@ == JsonView::object().put_text("agent_id"@, agent_id@).put_text(
            "agent_name"@,
            agent_name@,
        ).put_text("daemon_version"@, version@).put(
            "connected_browsers"@,
            JsonView::Array(voice::profiles_json(*b, silent@)),
        ).put_uint(
            "terminal_sessions"@,
            terminals(b.sizes.listed().len(), b.versions.listed().len()),
        ).put(
            "voice_pipeline"@,
            pipeline_json(
                e@,
                match whisper_url {
                    Some(u) => u@,
                    None => "http://localhost:5124/transcribe"@,
                },
                match chatterbox_url {
                    Some(u) => u@,
                    None => "http://localhost:5125"@,
                },
            ),
        ).put("env_vars"@, env_json(e@)),
{
    let (profiles, _live) = voice::browser_profiles(b, silent);
    let all: usize = b.sizes.len();
    let n: usize = profiles.len();
    let others: u64 = if all > n {
        (all - n) as u64
    } else {
        0
    };
    let on: bool = e.has_runpod();
    let backend = if on {
        "runpod"
    } else {
        "local"
    };
    let gpu_id: &str = if on {
        e.runpod_gpu_id.as_str()
    } else {
        ""
    };
    let set = if on {
        "set"
    } else {
        "missing"
    };
    let whisper = match whisper_url {
        Some(u) => u,
        None => "http://localhost:5124/transcribe",
    };
    let chatterbox = match chatterbox_url {
        Some(u) => u,
        None => "http://localhost:5125",
    };
    let pipeline = Json::object().put_text("backend", backend).put_bool(
        "runpod_configured",
        on,
    ).put_text("runpod_gpu_id", gpu_id).put_text("whisper_url", whisper).put_text(
        "chatterbox_url",
        chatterbox,
    );
    let env = Json::object().put_text("RUNPOD_API_KEY", set).put_text("RUNPOD_GPU_ID", set);
    assert(json::json_views(profiles@).len() == profiles@.len());
    Json::object().put_text("agent_id", agent_id).put_text("agent_name", agent_name).put_text(
        "daemon_version",
        version,
    ).put("connected_browsers", Json::array(profiles)).put_uint(
        "terminal_sessions",
        others,
    ).put("voice_pipeline", pipeline).put("env_vars", env)
}

/// The terminal as it stands, or an empty one of the usual size.
pub open spec fn session_json(agent_id: Seq<char>, store: Option<SessionBufferView>) -> JsonView {
    match store {
        Some(b) => JsonView::object().put_text("agent_id"@, agent_id).put_text(
            "terminal_data"@,
            crypto::b64(b.terminal_data),
        ).put_uint("rows"@, b.rows as u64).put_uint("cols"@, b.cols as u64),
        None => JsonView::object().put_text("agent_id"@, agent_id).put_text(
            "terminal_data"@,
            ""@,
        ).put_uint("rows"@, 24).put_uint("cols"@, 80),
    }
}

/// The contents of the terminal.
pub fn session_read(agent_id: &str, store: &SessionStore) -> (r: Json)
    ensures
        r@ == session_json(agent_id@, store@),
{
    match store.get() {
        Some(b) => {
            let data = crypto::b64_encode(b.terminal_data.as_slice());
            Json::object().put_text("agent_id", agent_id).put_text(
                "terminal_data",
                data.as_str(),
            ).put_uint("rows", b.rows as u64).put_uint("cols", b.cols as u64)
        },
        None => Json::object().put_text("agent_id", agent_id).put_text(
            "terminal_data",
            "",
        ).put_uint("rows", 24).put_uint("cols", 80),
    }
}

/// The title under which an event is kept for later; only shared content is.
pub fn archived_title(e: &AgentEvent) -> (r: Option<String>)
    ensures
        config::opt_string(r) == (match e@ {
            AgentEventView::Hive { sender, text } => if sender == "info"@ {
                Some(archives::title_of(text))
            } else {
                None
            },
            _ => None,
        }),
{
    match e {
        AgentEvent::Hive { sender, text } => if text::same(sender.as_str(), "info") {
            Some(archives::extract_info_title(text.as_str()))
        } else {
            None
        },
        _ => None,
    }
}

/// Whether an update waits for a restart, and whether the note of it is to be
/// deleted.
pub open spec fn update_state(contents: Option<Seq<char>>, current: Seq<char>) -> (JsonView, bool) {
    let no = JsonView::object().put_bool("ready"@, false);
    match contents {
        None => (no.put_text("current_version"@, current), false),
        Some(s) => match json::json_value(s) {
            Err(_) => (no, true),
            Ok(j) => {
                let staged = j.text_or("version"@, ""@);
                if staged == current || staged.len() == 0 {
                    (no.put_text("current_version"@, current), true)
                } else {
                    (
                        JsonView::object().put_bool("ready"@, true).put_text(
                            "current_version"@,
                            current,
                        ).put_text("staged_version"@, staged),
                        false,
                    )
                }
            },
        },
    }
}

/// Whether an update waits for a restart, and whether the note of it is to be
/// deleted.
pub fn update_status(contents: Option<&str>, current: &str) -> (r: (Json, bool))
    ensures
        (r.0@, r.1) == update_state(config::opt(contents), current@),
{
    let no = Json::object().put_bool("ready", false);
    match contents {
        None => (no.put_text("current_version", current), false),
        Some(s) => match json::parse(s) {
            Err(_) => (no, true),
            Ok(j) => {
                let staged = j.text_or("version", "");
                if text::same(staged.as_str(), current) || staged.as_str().is_empty() {
                    (no.put_text("current_version", current), true)
                } else {
                    (
                        Json::object().put_bool("ready", true).put_text(
                            "current_version",
                            current,
                        ).put_text("staged_version", staged.as_str()),
                        false,
                    )
                }
            },
        },
    }
}

/// The name and the value that a line of the file with the variables sets.
pub open spec fn variable(line: Seq<char>) -> Option<(Seq<char>, Seq<char>)> {
    let t = text::trim_spec(line);
    if t.len() == 0 || t[0] == '#' || text::scan(t, '=', 0) >= t.len() {
        None
    } else {
        Some((text::before(t, '='), t.skip(text::scan(t, '=', 0) + 1)))
    }
}

/// What the first `n` lines set.
pub open spec fn variables(lines: Seq<Seq<char>>, n: int) -> Seq<(Seq<char>, Seq<char>)>
    decreases n,
{
    if n <= 0 {
        Seq::empty()
    } else {
        match variable(lines[n - 1]) {
            Some(v) => variables(lines, n - 1).push(v),
            None => variables(lines, n - 1),
        }
    }
}

/// The views of names and values.
pub open spec fn variable_views(v: Seq<(String, String)>) -> Seq<(Seq<char>, Seq<char>)> {
    v.map_values(|p: (String, String)| (p.0@, p.1@))
}

/// What the file with the variables sets, in order. A variable that is set already
/// keeps its value.
pub fn load_env_file(contents: &str) -> (r: Vec<(String, String)>)
    ensures
        variable_views(r@) == variables(
            text::split_spec(contents@, '\n'),
            text::split_spec(contents@, '\n').len() as int,
        ),
{
    let lines = text::split(contents, '\n');
    let ghost all = text::split_spec(contents@, '\n');
    let mut out: Vec<(String, String)> = Vec::new();
    let mut i: usize = 0;
    assert(variable_views(out@) =~= variables(all, 0));
    while i < lines.len()
        invariant
            i <= lines@.len(),
            all == text::views(lines@),
            variable_views(out@) == variables(all, i as int),
        decreases lines.len() - i,
    {
        assert(all[i as int] == lines@[i as int]@);
        let ghost before = variable_views(out@);
        let t = text::trim(lines[i].as_str());
        if !t.as_str().is_empty() && t.as_str().get_char(0) != '#' {
            match text::split_once(t.as_str(), '=') {
                Some((k, v)) => {
                    out.push((k, v));
                    assert(variable_views(out@) =~= before.push((k@, v@)));
                },
                None => {},
            }
        }
        i = i + 1;
    }
    out
}

// ── Pages ───────────────────────────────────────────────────────────

/// What the pages of the web server say of the agent.
#[derive(Debug)]
pub struct AgentPage {
    pub agent_id: String,
    pub agent_name: String,
    pub agent_email: String,
    pub api_key: String,
    pub api_url: String,
    pub server_domain: String,
}

/// The mathematical value of an [`AgentPage`].
#[verifier::ext_equal]
pub struct AgentPageView {
    pub agent_id: Seq<char>,
    pub agent_name: Seq<char>,
    pub agent_email: Seq<char>,
    pub api_key: Seq<char>,
    pub api_url: Seq<char>,
    pub server_domain: Seq<char>,
}

impl View for AgentPage {
    type V = AgentPageView;

    open spec fn view(&self) -> AgentPageView {
        AgentPageView {
            agent_id: self.agent_id@,
            agent_name: self.agent_name@,
            agent_email: self.agent_email@,
            api_key: self.api_key@,
            api_url: self.api_url@,
            server_domain: self.server_domain@,
        }
    }
}

/// The page that is shown until the agent has built a site.
pub const SITE_PLACEHOLDER_HTML: &'static str = "<!DOCTYPE html>\n<html lang=\"en\">\n<head>\n<meta charset=\"utf-8\">\n<meta name=\"viewport\" content=\"width=device-width, initial-scale=1\">\n<title>{{AGENT_NAME}}.{{SERVER_DOMAIN}}</title>\n<style>\n:root { --bg: #0d1117; --surface: #161b22; --border: #30363d; --text: #c9d1d9; --dim: #8b949e; --accent: #58a6ff; }\n* { margin: 0; padding: 0; box-sizing: border-box; }\nbody { background: var(--bg); color: var(--text); font-family: system-ui, -apple-system, sans-serif; min-height: 100vh; display: flex; align-items: center; justify-content: center; }\n.card { background: var(--surface); border: 1px solid var(--border); border-radius: 12px; padding: 2.5rem; max-width: 520px; width: 90%; text-align: center; }\nh1 { font-size: 1.5rem; margin-bottom: 0.5rem; color: #fff; }\n.subtitle { color: var(--dim); font-size: 0.95rem; margin-bottom: 1.5rem; }\n.instructions { text-align: left; background: var(--bg); border: 1px solid var(--border); border-radius: 8px; padding: 1.25rem; margin-bottom: 1.5rem; }\n.instructions h2 { font-size: 0.85rem; color: var(--dim); text-transform: uppercase; letter-spacing: 0.05em; margin-bottom: 0.75rem; }\n.instructions p { font-size: 0.9rem; line-height: 1.6; margin-bottom: 0.5rem; }\ncode { background: rgba(88,166,255,0.1); color: var(--accent); padding: 0.15em 0.4em; border-radius: 4px; font-size: 0.85em; }\n.dashboard-link { display: inline-block; margin-top: 0.5rem; color: var(--accent); text-decoration: none; font-size: 0.9rem; }\n.dashboard-link:hover { text-decoration: underline; }\n.dot { display: inline-block; width: 8px; height: 8px; background: #3fb950; border-radius: 50%; margin-right: 6px; vertical-align: middle; }\n</style>\n</head>\n<body>\n<div class=\"card\">\n    <h1>{{AGENT_NAME}}.{{SERVER_DOMAIN}}</h1>\n    <p class=\"subtitle\"><span class=\"dot\"></span>Agent is running</p>\n    <div class=\"instructions\">\n        <h2>Deploy your site here</h2>\n        <p>This address is yours. Tell your agent what to build:</p>\n        <p><code>build me a landing page and deploy it to my site</code></p>\n        <p><code>create a portfolio site with my projects</code></p>\n        <p>Your agent will generate the site and serve it at this URL.</p>\n    </div>\n    <a class=\"dashboard-link\" href=\"{{API_URL}}/a/{{AGENT_NAME}}\">Open dashboard \u{2192}</a>\n</div>\n</body>\n</html>";

/// The page that is shown until the agent has built a site.
pub fn site_placeholder(agent: &AgentPage) -> (r: String)
    ensures
        r@ == text::replaced(
            text::replaced(
                text::replaced(
                    SITE_PLACEHOLDER_HTML@,
                    "{{AGENT_NAME}}"@,
                    agent@.agent_name,
                ),
                "{{SERVER_DOMAIN}}"@,
                agent@.server_domain,
            ),
            "{{API_URL}}"@,
            agent@.api_url,
        ),
{
    proof {
        reveal_strlit("{{AGENT_NAME}}");
        reveal_strlit("{{SERVER_DOMAIN}}");
        reveal_strlit("{{API_URL}}");
    }
    let a = text::replace(SITE_PLACEHOLDER_HTML, "{{AGENT_NAME}}", agent.agent_name.as_str());
    let b = text::replace(a.as_str(), "{{SERVER_DOMAIN}}", agent.server_domain.as_str());
    text::replace(b.as_str(), "{{API_URL}}", agent.api_url.as_str())
}

/// The page that says where the template of the dashboard is expected, before the
/// path.
pub const NO_TEMPLATE_A: &'static str = "<!DOCTYPE html><html><body style=\"background:#0d1117;color:#c9d1d9;font-family:system-ui;padding:2rem\">\n                    <h1>Development Mode</h1>\n                    <p>Expected dashboard template at:</p>\n                    <code>";

/// The page that says where the template of the dashboard is expected, after the
/// path.
pub const NO_TEMPLATE_B: &'static str = "</code>\n                    <p style=\"margin-top:1rem;color:#8b949e\">\n                    Point <code>--browser-dir</code> to your b3-server crate root, e.g.:<br>\n                    <code>b3 start --browser-dir ./crates/b3-server</code>\n                    </p></body></html>";

/// The page that says where the template of the dashboard is expected.
pub fn no_template(path: &str) -> (r: String)
    ensures
        r@ == NO_TEMPLATE_A@ + path@ + NO_TEMPLATE_B@,
{
    text::cat3(NO_TEMPLATE_A, path, NO_TEMPLATE_B)
}

/// The dashboard, from its template.
pub open spec fn dashboard_of(html: Seq<char>, agent: AgentPageView, version: Seq<char>) -> Seq<char> {
    let h0 = text::replaced(html, "{{AGENT_ID}}"@, agent.agent_id);
    let h1 = text::replaced(h0, "{{AGENT_NAME}}"@, agent.agent_name);
    let h2 = text::replaced(h1, "{{AGENT_EMAIL}}"@, agent.agent_email);
    let h3 = text::replaced(h2, "{{DAEMON_TOKEN}}"@, agent.api_key);
    let h4 = text::replaced(h3, "{{HOSTED_SESSION_ID}}"@, ""@);
    let h5 = text::replaced(h4, "{{DOMAIN}}"@, agent.server_domain);
    let h6 = text::replaced(h5, "{{VERSION}}"@, version);
    text::replaced(h6, "<!--DRAWER_HTML-->"@, "<!-- drawer: not available in development mode -->"@)
}

/// The dashboard, from its template.
pub fn dev_dashboard(html: &str, agent: &AgentPage, version: &str) -> (r: String)
    ensures
        r@ == dashboard_of(html@, agent@, version@),
{
    proof {
        reveal_strlit("{{AGENT_ID}}");
        reveal_strlit("{{AGENT_NAME}}");
        reveal_strlit("{{AGENT_EMAIL}}");
        reveal_strlit("{{DAEMON_TOKEN}}");
        reveal_strlit("{{HOSTED_SESSION_ID}}");
        reveal_strlit("{{DOMAIN}}");
        reveal_strlit("{{VERSION}}");
        reveal_strlit("<!--DRAWER_HTML-->");
    }
    let h0 = text::replace(html, "{{AGENT_ID}}", agent.agent_id.as_str());
    let h1 = text::replace(h0.as_str(), "{{AGENT_NAME}}", agent.agent_name.as_str());
    let h2 = text::replace(h1.as_str(), "{{AGENT_EMAIL}}", agent.agent_email.as_str());
    let h3 = text::replace(h2.as_str(), "{{DAEMON_TOKEN}}", agent.api_key.as_str());
    let h4 = text::replace(h3.as_str(), "{{HOSTED_SESSION_ID}}", "");
    let h5 = text::replace(h4.as_str(), "{{DOMAIN}}", agent.server_domain.as_str());
    let h6 = text::replace(h5.as_str(), "{{VERSION}}", version);
    text::replace(
        h6.as_str(),
        "<!--DRAWER_HTML-->",
        "<!-- drawer: not available in development mode -->",
    )
}

// ── Laws ────────────────────────────────────────────────────────────

/// The right token lets a request in, shown in the header, in the query or in the cookie;
/// without it nothing but what is open to all is let in.
pub proof fn law_token_decides(path: Seq<char>, method: Seq<char>, api_key: Seq<char>, token: Seq<char>)
    requires
        path != "/health"@,
        path != "/ws-proxy"@,
        method != "OPTIONS"@,
    ensures
        access(path, method, Some("Bearer "@ + api_key), None, None, api_key) is Allowed,
        token != api_key ==> access(
            path,
            method,
            Some("Bearer "@ + token),
            None,
            None,
            api_key,
        ) is Refused,
        access(path, method, None, None, None, api_key) is Refused,
        text::lacks(api_key, '&') ==> access(
            path,
            method,
            None,
            Some("token="@ + api_key),
            None,
            api_key,
        ) == AccessView::SetsCookie(token_cookie(api_key)),
        text::lacks(token, '&') && token != api_key ==> access(
            path,
            method,
            None,
            Some("token="@ + token),
            None,
            api_key,
        ) is Refused,
        access("/health"@, method, None, None, None, api_key) is Allowed,
{
    let p = "Bearer "@;
    reveal_strlit("Bearer ");
    reveal_strlit("token=");
    assert((p + api_key).take(p.len() as int) =~= p);
    assert((p + api_key).skip(p.len() as int) =~= api_key);
    assert((p + token).take(p.len() as int) =~= p);
    assert((p + token).skip(p.len() as int) =~= token);
    let q = "token="@;
    if text::lacks(api_key, '&') {
        lemma_query(api_key);
    }
    if text::lacks(token, '&') {
        lemma_query(token);
    }
}

proof fn lemma_query(token: Seq<char>)
    requires
        text::lacks(token, '&'),
    ensures
        first_after(text::split_spec("token="@ + token, '&'), "token="@, false, 0) == Some(token),
{
    let q = "token="@;
    let s = q + token;
    reveal_strlit("token=");
    assert(text::lacks(s, '&'));
    text::law_split(s, '&', Seq::empty());
    assert(s.take(q.len() as int) =~= q);
    assert(s.skip(q.len() as int) =~= token);
    let v = text::split_spec(s, '&');
    assert(v.len() == 1 && v[0] == s);
}

/// The state of a part is told under its name, with its last error.
pub proof fn law_subsystem_told(s: SubsystemView)
    ensures
        subsystem_json(s).text("name"@) == Some(s.name),
        subsystem_json(s).truth("healthy"@) == Some(s.healthy),
        subsystem_json(s).uint("consecutive_failures"@) == Some(s.consecutive_failures),
        subsystem_json(s).text("last_error"@) == s.detail,
{
    broadcast use json::lemma_put_field;
    broadcast use json::lemma_object_field;

    reveal_strlit("name");
    reveal_strlit("healthy");
    reveal_strlit("consecutive_failures");
    reveal_strlit("last_error");
    assert("name"@.len() == 4 && "healthy"@.len() == 7 && "consecutive_failures"@.len() == 20 && "last_error"@.len() == 10);
}

/// All is well only where every part is.
pub proof fn law_health_of_all(v: Seq<SubsystemView>)
    ensures
        health_json(Some(v)).is("status"@, "ok"@) <==> forall|i: int|
            0 <= i < v.len() ==> (#[trigger] v[i]).healthy,
        health_json(Some(v)).is("status"@, "degraded"@) <==> exists|i: int|
            0 <= i < v.len() && !(#[trigger] v[i]).healthy,
        health_json(None).is("status"@, "ok"@),
{
    broadcast use json::lemma_put_field;
    broadcast use json::lemma_object_field;

    reveal_strlit("status");
    reveal_strlit("subsystems");
    reveal_strlit("ok");
    reveal_strlit("degraded");
    assert("status"@.len() == 6 && "subsystems"@.len() == 10 && "ok"@.len() == 2 && "degraded"@.len() == 8);
}

/// A browser gets the GPU's address and token where both are set, and neither else.
pub proof fn law_gpu_told(e: GpuEnvView)
    ensures
        gpu_json(e).truth("configured"@) == Some(e.has_runpod()),
        e.has_runpod() ==> gpu_json(e).text("gpu_url"@) == Some(voice::runsync_url(e.runpod_gpu_id))
            && gpu_json(e).text("gpu_token"@) == Some(e.runpod_api_key),
        !e.has_runpod() ==> gpu_json(e).text("gpu_url"@) == Some(""@) && gpu_json(e).text(
            "gpu_token"@,
        ) == Some(""@),
        gpu_json(e).text("local_gpu_url"@) == Some(e.local_gpu_url),
        gpu_json(e).text("local_gpu_token"@) == Some(e.local_gpu_token),
        e.has_runpod() <==> e.runpod_api_key.len() > 0 && e.runpod_gpu_id.len() > 0,
{
    broadcast use json::lemma_put_field;
    broadcast use json::lemma_object_field;

    reveal_strlit("configured");
    reveal_strlit("gpu_url");
    reveal_strlit("gpu_token");
    reveal_strlit("local_gpu_url");
    reveal_strlit("local_gpu_token");
    assert("configured"@.len() == 10 && "gpu_url"@.len() == 7 && "gpu_token"@.len() == 9 && "local_gpu_url"@.len() == 13 && "local_gpu_token"@.len() == 15);
}

/// No key is told in the diagnostics, only whether it is set.
pub proof fn law_no_key_told(e: GpuEnvView)
    ensures
        env_json(e).is("RUNPOD_API_KEY"@, "set"@) <==> e.has_runpod(),
        env_json(e).is("RUNPOD_API_KEY"@, "missing"@) <==> !e.has_runpod(),
        pipeline_json(e, ""@, ""@).is("backend"@, "runpod"@) <==> e.has_runpod(),
        pipeline_json(e, ""@, ""@).truth("runpod_configured"@) == Some(e.has_runpod()),
{
    broadcast use json::lemma_put_field;
    broadcast use json::lemma_object_field;

    reveal_strlit("RUNPOD_API_KEY");
    reveal_strlit("RUNPOD_GPU_ID");
    reveal_strlit("set");
    reveal_strlit("missing");
    reveal_strlit("backend");
    reveal_strlit("runpod_configured");
    reveal_strlit("runpod_gpu_id");
    reveal_strlit("whisper_url");
    reveal_strlit("chatterbox_url");
    reveal_strlit("runpod");
    reveal_strlit("local");
    assert("RUNPOD_API_KEY"@.len() == 14 && "RUNPOD_GPU_ID"@.len() == 13 && "set"@.len() == 3 && "missing"@.len() == 7 && "backend"@.len() == 7 && "runpod_configured"@.len() == 17 && "runpod_gpu_id"@.len() == 13 && "whisper_url"@.len() == 11 && "chatterbox_url"@.len() == 14 && "runpod"@.len() == 6 && "local"@.len() == 5);
    assert("RUNPOD_API_KEY"@[0] != "chatterbox_url"@[0]);
    assert("RUNPOD_GPU_ID"@[0] != "runpod_gpu_id"@[0]);
    assert("missing"@[0] != "backend"@[0]);
}

/// An update is ready where another version is staged than the one that runs.
pub proof fn law_update_ready(s: Seq<char>, j: JsonView, staged: Seq<char>, current: Seq<char>)
    requires
        json::json_value(s) == Ok::<JsonView, Seq<char>>(j),
        j.text("version"@) == Some(staged),
    ensures
        update_state(Some(s), current).0.truth("ready"@) == Some(
            staged != current && staged.len() > 0,
        ),
        staged != current && staged.len() > 0 ==> update_state(Some(s), current).0.text(
            "staged_version"@,
        ) == Some(staged) && update_state(Some(s), current).0.text("current_version"@) == Some(
            current,
        ),
        update_state(None, current).0.truth("ready"@) == Some(false),
{
    broadcast use json::lemma_put_field;
    broadcast use json::lemma_object_field;

    reveal_strlit("ready");
    reveal_strlit("current_version");
    reveal_strlit("staged_version");
    assert("ready"@.len() == 5 && "current_version"@.len() == 15 && "staged_version"@.len() == 14);
}

/// A line of a file sets the variable before its `=` to all that follows it.
pub proof fn law_variable_set(name: Seq<char>, value: Seq<char>)
    requires
        name.len() > 0,
        text::lacks(name, '='),
        name[0] != '#',
        !text::is_space(name[0]),
        value.len() > 0,
        !text::is_space(value.last()),
    ensures
        variable(name + seq!['='] + value) == Some((name, value)),
        variable(seq!['#'] + value) is None,
{
    let s = name + seq!['='] + value;
    assert(s[0] == name[0]);
    assert(s.last() == value.last());
    text::law_trim(' ', s);
    text::law_scan_found(name, '=', value, 0);
    assert(s.take(name.len() as int) =~= name);
    assert(s.skip(name.len() as int + 1) =~= value);
    let c = seq!['#'] + value;
    assert(c[0] == '#' && c.last() == value.last());
    text::law_trim(' ', c);
}

/// The lines of a console that pass both filters are shown in order, the newest as many as
/// asked for, and without a filter all of them pass.
pub proof fn law_console_shown(
    lines: Seq<Seq<char>>,
    filter: Option<Seq<char>>,
    second: Option<Seq<char>>,
    n: nat,
)
    ensures
        passing(lines, None, None) == lines,
        forall|i: int|
            0 <= i < passing(lines, filter, second).len() ==> passes(
                #[trigger] passing(lines, filter, second)[i],
                filter,
            ) && passes(passing(lines, filter, second)[i], second),
        forall|i: int|
            0 <= i < lines.len() && passes(lines[i], filter) && passes(lines[i], second)
                ==> passing(lines, filter, second).contains(#[trigger] lines[i]),
        n <= usize::MAX ==> lines_asked(Some(text::decimal(n))) == n,
        lines_asked(None) == 100,
{
    let p = |l: Seq<char>| passes(l, filter) && passes(l, second);
    lemma_all_pass(lines);
    assert forall|i: int| 0 <= i < passing(lines, filter, second).len() implies passes(
        #[trigger] passing(lines, filter, second)[i],
        filter,
    ) && passes(passing(lines, filter, second)[i], second) by {
        lines.lemma_filter_pred(p, i);
    }
    assert forall|i: int|
        0 <= i < lines.len() && passes(lines[i], filter) && passes(lines[i], second) implies passing(
        lines,
        filter,
        second,
    ).contains(#[trigger] lines[i]) by {
        assert(p(lines[i]));
        lines.lemma_filter_contains(p, i);
    }
    if n <= usize::MAX {
        text::law_decimal_read_back(n, usize::MAX as nat);
    }
}

proof fn lemma_all_pass(lines: Seq<Seq<char>>)
    ensures
        passing(lines, None, None) == lines,
    decreases lines.len(),
{
    reveal(Seq::filter);
    if lines.len() > 0 {
        lemma_all_pass(lines.drop_last());
        assert(lines.drop_last().push(lines.last()) =~= lines);
    } else {
        assert(passing(lines, None, None) =~= lines);
    }
}

/// What a template leaves open is filled in: the agent's own data each in its own place.
pub proof fn law_template_filled(
    a: Seq<char>,
    b: Seq<char>,
    agent: AgentPageView,
    version: Seq<char>,
)
    requires
        text::lacks(a, '{') && text::lacks(a, '<'),
        text::lacks(b, '{') && text::lacks(b, '<'),
        text::lacks(agent.agent_id, '{') && text::lacks(agent.agent_id, '<'),
        text::lacks(agent.agent_name, '{') && text::lacks(agent.agent_name, '<'),
        text::lacks(agent.api_key, '{') && text::lacks(agent.api_key, '<'),
    ensures
        dashboard_of(a + "{{AGENT_ID}}"@ + b, agent, version) == a + agent.agent_id + b,
        dashboard_of(a + "{{AGENT_NAME}}"@ + b, agent, version) == a + agent.agent_name + b,
        dashboard_of(a + "{{DAEMON_TOKEN}}"@ + b, agent, version) == a + agent.api_key + b,
        dashboard_of(a, agent, version) == a,
{
    lemma_template_empty(a, agent, version);
    lemma_template_id(a, b, agent, version);
    lemma_template_name(a, b, agent, version);
    lemma_template_token(a, b, agent, version);
}

/// A text without a brace has no place to fill in.
proof fn lemma_unfilled(s: Seq<char>, r: Seq<char>)
    requires
        text::lacks(s, '{'),
    ensures
        text::replaced(s, "{{AGENT_ID}}"@, r) == s,
        text::replaced(s, "{{AGENT_NAME}}"@, r) == s,
        text::replaced(s, "{{AGENT_EMAIL}}"@, r) == s,
        text::replaced(s, "{{DAEMON_TOKEN}}"@, r) == s,
        text::replaced(s, "{{HOSTED_SESSION_ID}}"@, r) == s,
        text::replaced(s, "{{DOMAIN}}"@, r) == s,
        text::replaced(s, "{{VERSION}}"@, r) == s,
{
    reveal_strlit("{{AGENT_ID}}");
    reveal_strlit("{{AGENT_NAME}}");
    reveal_strlit("{{AGENT_EMAIL}}");
    reveal_strlit("{{DAEMON_TOKEN}}");
    reveal_strlit("{{HOSTED_SESSION_ID}}");
    reveal_strlit("{{DOMAIN}}");
    reveal_strlit("{{VERSION}}");
    text::law_replaced_none(s, "{{AGENT_ID}}"@, r);
    text::law_replaced_none(s, "{{AGENT_NAME}}"@, r);
    text::law_replaced_none(s, "{{AGENT_EMAIL}}"@, r);
    text::law_replaced_none(s, "{{DAEMON_TOKEN}}"@, r);
    text::law_replaced_none(s, "{{HOSTED_SESSION_ID}}"@, r);
    text::law_replaced_none(s, "{{DOMAIN}}"@, r);
    text::law_replaced_none(s, "{{VERSION}}"@, r);
}

proof fn lemma_template_empty(s: Seq<char>, agent: AgentPageView, version: Seq<char>)
    requires
        text::lacks(s, '{'),
        text::lacks(s, '<'),
    ensures
        dashboard_of(s, agent, version) == s,
{
    lemma_unfilled(s, agent.agent_id);
    lemma_unfilled(s, agent.agent_name);
    lemma_unfilled(s, agent.agent_email);
    lemma_unfilled(s, agent.api_key);
    lemma_unfilled(s, ""@);
    lemma_unfilled(s, agent.server_domain);
    lemma_unfilled(s, version);
    reveal_strlit("<!--DRAWER_HTML-->");
    text::law_replaced_none(
        s,
        "<!--DRAWER_HTML-->"@,
        "<!-- drawer: not available in development mode -->"@,
    );
}

/// A text with one place to fill in has none of another name.
proof fn lemma_other_place(a: Seq<char>, p: Seq<char>, b: Seq<char>, q: Seq<char>, r: Seq<char>, k: int)
    requires
        text::lacks(a, '{'),
        text::lacks(b, '{'),
        p.len() > 2,
        p[0] == '{' && p[1] == '{',
        forall|i: int| 2 <= i < p.len() ==> #[trigger] p[i] != '{',
        q.len() > 2,
        q[0] == '{' && q[1] == '{',
        2 <= k < q.len(),
        k < p.len(),
        p[k] != q[k],
    ensures
        text::replaced(a + p + b, q, r) == a + p + b,
{
    let s = a + p + b;
    text::lemma_find_from_range(s, q, 0);
    match text::find_from(s, q, 0) {
        Some(i) => {
            let f = s.subrange(i, i + q.len());
            assert(f[0] == s[i] && f[1] == s[i + 1] && f[k] == s[i + k]);
            let n = a.len() as int;
            if i < n {
                assert(s[i] == a[i]);
            } else if i > n {
                assert(s[i] == '{' && s[i + 1] == '{');
                if i + 1 < n + p.len() {
                    assert(s[i + 1] == p[i + 1 - n]);
                } else {
                    assert(s[i + 1] == b[i + 1 - n - p.len()]);
                }
            } else {
                assert(s[i + k] == p[k]);
            }
        },
        None => {},
    }
}

proof fn lemma_template_id(a: Seq<char>, b: Seq<char>, agent: AgentPageView, version: Seq<char>)
    requires
        text::lacks(a, '{') && text::lacks(a, '<'),
        text::lacks(b, '{') && text::lacks(b, '<'),
        text::lacks(agent.agent_id, '{') && text::lacks(agent.agent_id, '<'),
    ensures
        dashboard_of(a + "{{AGENT_ID}}"@ + b, agent, version) == a + agent.agent_id + b,
{
    let p = "{{AGENT_ID}}"@;
    reveal_strlit("{{AGENT_ID}}");
    text::law_replaced_first(a, p, agent.agent_id, b);
    lemma_unfilled(b, agent.agent_id);
    let t = a + agent.agent_id + b;
    assert(text::lacks(t, '{') && text::lacks(t, '<'));
    lemma_unfilled(t, agent.agent_id);
    lemma_template_empty(t, agent, version);
}

proof fn lemma_template_name(a: Seq<char>, b: Seq<char>, agent: AgentPageView, version: Seq<char>)
    requires
        text::lacks(a, '{') && text::lacks(a, '<'),
        text::lacks(b, '{') && text::lacks(b, '<'),
        text::lacks(agent.agent_name, '{') && text::lacks(agent.agent_name, '<'),
    ensures
        dashboard_of(a + "{{AGENT_NAME}}"@ + b, agent, version) == a + agent.agent_name + b,
{
    let p = "{{AGENT_NAME}}"@;
    reveal_strlit("{{AGENT_ID}}");
    reveal_strlit("{{AGENT_NAME}}");
    lemma_other_place(a, p, b, "{{AGENT_ID}}"@, agent.agent_id, 8);
    text::law_replaced_first(a, p, agent.agent_name, b);
    lemma_unfilled(b, agent.agent_name);
    let t = a + agent.agent_name + b;
    assert(text::lacks(t, '{') && text::lacks(t, '<'));
    lemma_unfilled(t, agent.agent_id);
    lemma_unfilled(t, agent.agent_name);
    lemma_template_empty(t, agent, version);
}

proof fn lemma_template_token(a: Seq<char>, b: Seq<char>, agent: AgentPageView, version: Seq<char>)
    requires
        text::lacks(a, '{') && text::lacks(a, '<'),
        text::lacks(b, '{') && text::lacks(b, '<'),
        text::lacks(agent.api_key, '{') && text::lacks(agent.api_key, '<'),
    ensures
        dashboard_of(a + "{{DAEMON_TOKEN}}"@ + b, agent, version) == a + agent.api_key + b,
{
    let p = "{{DAEMON_TOKEN}}"@;
    reveal_strlit("{{AGENT_ID}}");
    reveal_strlit("{{AGENT_NAME}}");
    reveal_strlit("{{AGENT_EMAIL}}");
    reveal_strlit("{{DAEMON_TOKEN}}");
    lemma_other_place(a, p, b, "{{AGENT_ID}}"@, agent.agent_id, 2);
    lemma_other_place(a, p, b, "{{AGENT_NAME}}"@, agent.agent_name, 2);
    lemma_other_place(a, p, b, "{{AGENT_EMAIL}}"@, agent.agent_email, 2);
    text::law_replaced_first(a, p, agent.api_key, b);
    lemma_unfilled(b, agent.api_key);
    let t = a + agent.api_key + b;
    assert(text::lacks(t, '{') && text::lacks(t, '<'));
    lemma_unfilled(t, agent.agent_id);
    lemma_unfilled(t, agent.agent_name);
    lemma_unfilled(t, agent.agent_email);
    lemma_unfilled(t, agent.api_key);
    lemma_template_empty(t, agent, version);
}

/// No origin is allowed but this server's own and the known ones, unless it runs on the
/// user's own machine.
pub proof fn law_local_origins(d: Seq<char>, api_url: Seq<char>)
    requires
        d != "localhost"@,
        !text::contains_spec(api_url, "localhost"@),
    ensures
        forall|i: int|
            0 <= i < origins_of(d, d, api_url).len() ==> text::starts_with_spec(
                #[trigger] origins_of(d, d, api_url)[i],
                "https://"@,
            ),
{
    reveal_strlit("https://");
    reveal_strlit("https://www.");
    let v = origins_of(d, d, api_url);
    assert forall|i: int| 0 <= i < v.len() implies text::starts_with_spec(
        #[trigger] v[i],
        "https://"@,
    ) by {
        let k = "https://"@;
        assert(("https://"@ + d).take(8) =~= k);
        assert(("https://www."@ + d).take(8) =~= k);
        assert(("https://"@ + "babel3.com"@).take(8) =~= k);
        assert(("https://"@ + "babel3.ai"@).take(8) =~= k);
        assert(("https://"@ + "hey-code.ai"@).take(8) =~= k);
    }
}

/// Code reaches the browser that it is meant for as it was given, and what the browser
/// answers comes back under the same number.
pub proof fn law_code_run(body: JsonView, eval_id: Seq<char>, code: Seq<char>, v: String)
    requires
        body.text("code"@) == Some(code),
    ensures
        eval_event(body, eval_id) == Some(
            AgentEventView::BrowserEval { eval_id, code, session_id: body.uint("session_id"@) },
        ),
        eval_answer(eval_id, EvalOutcome::Result(v)).text("eval_id"@) == Some(eval_id),
        eval_answer(eval_id, EvalOutcome::Result(v)).text("result"@) == Some(v@),
        eval_answer(eval_id, EvalOutcome::Result(v)).field("error"@) is None,
        eval_answer(eval_id, EvalOutcome::Closed).text("error"@) is Some,
        eval_answer(eval_id, EvalOutcome::Timeout).text("error"@) is Some,
{
    broadcast use json::lemma_put_field;
    broadcast use json::lemma_object_field;

    reveal_strlit("eval_id");
    reveal_strlit("result");
    reveal_strlit("error");
    assert("eval_id"@.len() == 7 && "result"@.len() == 6 && "error"@.len() == 5);
}

/// The terminal is read whole, with its size.
pub proof fn law_terminal_read(agent_id: Seq<char>, b: SessionBufferView)
    ensures
        session_json(agent_id, Some(b)).text("agent_id"@) == Some(agent_id),
        session_json(agent_id, Some(b)).text("terminal_data"@) == Some(
            crypto::b64(b.terminal_data),
        ),
        session_json(agent_id, Some(b)).uint("rows"@) == Some(b.rows as u64),
        session_json(agent_id, Some(b)).uint("cols"@) == Some(b.cols as u64),
        session_json(agent_id, None).text("terminal_data"@) == Some(""@),
{
    broadcast use json::lemma_put_field;
    broadcast use json::lemma_object_field;

    reveal_strlit("agent_id");
    reveal_strlit("terminal_data");
    reveal_strlit("rows");
    reveal_strlit("cols");
    assert("agent_id"@.len() == 8 && "terminal_data"@.len() == 13 && "rows"@.len() == 4 && "cols"@.len() == 4);
    assert("rows"@[0] != "cols"@[0]);
}

} // verus!
