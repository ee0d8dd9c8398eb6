//! Decisions of the running daemon.

use vstd::prelude::*;

use crate::config;
use crate::config::Config;
use crate::crypto;
use crate::ec2_proxy;
use crate::events::{AgentEvent, AgentEventView, Received};
use crate::json;
use crate::json::{Json, JsonView};
use crate::paths;
use crate::protocol::{Message, MessageView};
use crate::text;

verus! {

// ── The daemon's process ────────────────────────────────────────────

/// The path of the file that holds the daemon's process id.
pub fn pid_path(dir: &str) -> (r: String)
    ensures
        r@ == paths::joined(dir@, "b3.pid"@),
{
    paths::join(dir, "b3.pid")
}

/// The process id that the contents of the file name.
pub open spec fn pid_in(contents: Seq<char>) -> Option<nat> {
    text::parse_unsigned(text::trim_spec(contents), 0xffff_ffff)
}

/// The process id that the contents of the file name.
pub fn pid_of(contents: &str) -> (r: Option<u32>)
    ensures
        match r {
            Some(p) => pid_in(contents@) == Some(p as nat),
            None => pid_in(contents@) is None,
        },
{
    let t = text::trim(contents);
    match text::parse_number(t.as_str(), 0xffff_ffff) {
        Some(n) => Some(n as u32),
        None => None,
    }
}

/// What is known of the daemon.
#[derive(Debug, Clone, Copy, PartialEq, Eq, Structural)]
pub enum Running {
    Yes,
    No,
    /// There is none, and the file that says so is to be removed.
    Stale,
}

/// Whether the daemon runs. `pid` is the process id in its file, and `alive` says
/// whether that process exists.
pub fn is_running(file_exists: bool, pid: Option<u32>, alive: bool) -> (r: Running)
    ensures
        r == (if !file_exists {
            Running::No
        } else if pid is Some && alive {
            Running::Yes
        } else {
            Running::Stale
        }),
{
    if !file_exists {
        Running::No
    } else if pid.is_some() && alive {
        Running::Yes
    } else {
        Running::Stale
    }
}

/// How often the server is asked whether it is there.
pub const HEALTH_ATTEMPTS: u32 = 5;

/// What to do after the server was asked.
#[derive(Debug, Clone, Copy, PartialEq, Eq, Structural)]
pub enum Probe {
    Connected,
    Retry(u32),
    GiveUp,
}

/// What to do after the server was asked for the given time, counted from 1.
pub fn after_probe(attempt: u32, ok: bool) -> (r: Probe)
    ensures
        r == (if ok {
            Probe::Connected
        } else if attempt < HEALTH_ATTEMPTS {
            Probe::Retry((attempt + 1) as u32)
        } else {
            Probe::GiveUp
        }),
{
    if ok {
        Probe::Connected
    } else if attempt < HEALTH_ATTEMPTS {
        Probe::Retry(attempt + 1)
    } else {
        Probe::GiveUp
    }
}

// ── Configuration at start ──────────────────────────────────────────

/// What the server says of the agent's configuration.
#[derive(Debug)]
pub struct ConfigFields {
    pub agent_email: String,
    pub api_url: String,
    pub web_url: String,
    pub servers: Vec<String>,
}

/// Notes the running version. The result says whether that changed anything.
pub fn stamp_version(config: &mut Config, version: &str) -> (r: bool)
    ensures
        r == (old(config).b3_version@ != version@),
        final(config).b3_version@ == version@,
        final(config).agent_id == old(config).agent_id,
        final(config).agent_email == old(config).agent_email,
        final(config).api_key == old(config).api_key,
        final(config).api_url == old(config).api_url,
        final(config).wg_address == old(config).wg_address,
        final(config).relay_endpoint == old(config).relay_endpoint,
        final(config).relay_public_key == old(config).relay_public_key,
        final(config).push_interval_ms == old(config).push_interval_ms,
        final(config).web_url == old(config).web_url,
        final(config).servers == old(config).servers,
        final(config).auto_update == old(config).auto_update,
{
    if text::same(config.b3_version.as_str(), version) {
        false
    } else {
        config.b3_version = version.to_owned();
        true
    }
}

/// Whether two lists hold the same texts.
pub fn same_list(a: &[String], b: &[String]) -> (r: bool)
    ensures
        r == (text::views(a@) == text::views(b@)),
{
    if a.len() != b.len() {
        assert(text::views(a@).len() != text::views(b@).len());
        return false;
    }
    let mut i: usize = 0;
    while i < a.len()
        invariant
            i <= a.len(),
            a.len() == b.len(),
            forall|k: int| 0 <= k < i ==> (#[trigger] a@[k])@ == b@[k]@,
        decreases a.len() - i,
    {
        if !text::same(a[i].as_str(), b[i].as_str()) {
            assert(text::views(a@)[i as int] != text::views(b@)[i as int]);
            return false;
        }
        i = i + 1;
    }
    assert(text::views(a@) =~= text::views(b@));
    true
}

/// Takes over what the server says: every address that differs, and the list of
/// servers where it is not empty and differs. The result says whether anything
/// changed.
pub fn refresh_config(config: &mut Config, fields: ConfigFields) -> (r: bool)
    ensures
        final(config).agent_email@ == fields.agent_email@,
        final(config).api_url@ == fields.api_url@,
        final(config).web_url@ == fields.web_url@,
        text::views(final(config).servers@) == (if fields.servers@.len() > 0 {
            text::views(fields.servers@)
        } else {
            text::views(old(config).servers@)
        }),
        r == (old(config).agent_email@ != fields.agent_email@ || old(config).api_url@
            != fields.api_url@ || old(config).web_url@ != fields.web_url@ || (
        fields.servers@.len() > 0 && text::views(old(config).servers@) != text::views(
            fields.servers@,
        ))),
        final(config).agent_id == old(config).agent_id,
        final(config).api_key == old(config).api_key,
        final(config).wg_address == old(config).wg_address,
        final(config).relay_endpoint == old(config).relay_endpoint,
        final(config).relay_public_key == old(config).relay_public_key,
        final(config).push_interval_ms == old(config).push_interval_ms,
        final(config).b3_version == old(config).b3_version,
        final(config).auto_update == old(config).auto_update,
{
    let mut changed: bool = false;
    if !text::same(fields.agent_email.as_str(), config.agent_email.as_str()) {
        config.agent_email = fields.agent_email;
        changed = true;
    }
    if !text::same(fields.api_url.as_str(), config.api_url.as_str()) {
        config.api_url = fields.api_url;
        changed = true;
    }
    if !text::same(fields.web_url.as_str(), config.web_url.as_str()) {
        config.web_url = fields.web_url;
        changed = true;
    }
    if fields.servers.len() > 0 && !same_list(fields.servers.as_slice(), config.servers.as_slice()) {
        config.servers = fields.servers;
        changed = true;
    }
    changed
}

/// The setting that lets the agent's tools run without asking.
pub open spec fn tool_pattern() -> Seq<char> {
    "mcp__b3__"@
}

/// The settings that already allow the tools, or that say something else than a
/// list of what is allowed, stay as they are; in others the tools are added.
pub open spec fn allowed(settings: JsonView) -> JsonView {
    let list = JsonView::Array(seq![JsonView::Text(tool_pattern())]);
    match settings.field("permissions"@) {
        Some(perms) => match perms.field("allow"@) {
            Some(JsonView::Array(a)) => if a.contains(JsonView::Text(tool_pattern())) {
                settings
            } else {
                settings.put(
                    "permissions"@,
                    perms.put("allow"@, JsonView::Array(a.push(JsonView::Text(tool_pattern())))),
                )
            },
            Some(_) => settings,
            None => settings.put("permissions"@, perms.put("allow"@, list)),
        },
        None => settings.put("permissions"@, JsonView::object().put("allow"@, list)),
    }
}

/// Whether a value can be given members: it is an object or nothing at all.
pub open spec fn takes_members(j: JsonView) -> bool {
    j is Object || j is Null
}

/// The settings in which the agent's tools may run without asking.
pub fn allow_tools(settings: Json) -> (r: Json)
    requires
        settings@.field("permissions"@) is None ==> takes_members(settings@),
        settings@.field("permissions"@) matches Some(p) ==> (p.field("allow"@) is None
            ==> takes_members(p)),
    ensures
        r@ == allowed(settings@),
{
    let mut one: Vec<Json> = Vec::new();
    one.push(Json::Text("mcp__b3__".to_owned()));
    let list = Json::Array(one);
    proof {
        reveal_with_fuel(json::json_view, 2);
    }
    assert(list@->Array_0 =~= seq![JsonView::Text(tool_pattern())]);
    let perms = match settings.member("permissions") {
        Some(p) => p,
        None => {
            return settings.put("permissions", Json::object().put("allow", list));
        },
    };
    match perms.member("allow") {
        None => settings.put("permissions", perms.put("allow", list)),
        Some(Json::Array(a)) => {
            let mut a = a;
            let ghost before = json::json_views(a@);
            assert(json::json_view(Json::Array(a))->Array_0 =~= before);
            let mut i: usize = 0;
            while i < a.len()
                invariant
                    i <= a.len(),
                    before == json::json_views(a@),
                    forall|k: int| 0 <= k < i ==> before[k] != JsonView::Text(tool_pattern()),
                    settings@.field("permissions"@) == Some(perms@),
                    perms@.field("allow"@) == Some(JsonView::Array(before)),
                decreases a.len() - i,
            {
                match a[i].as_str() {
                    Some(s) => {
                        if text::same(s, "mcp__b3__") {
                            assert(before[i as int] == JsonView::Text(tool_pattern()));
                            return settings;
                        }
                    },
                    None => {},
                }
                i = i + 1;
            }
            a.push(Json::Text("mcp__b3__".to_owned()));
            let allow = Json::Array(a);
            proof {
                reveal_with_fuel(json::json_view, 2);
            }
            assert(allow@->Array_0 =~= before.push(JsonView::Text(tool_pattern())));
            settings.put("permissions", perms.put("allow", allow))
        },
        Some(_) => settings,
    }
}

/// Arguments that name the daemon's channel.
pub open spec fn channelled(args: Seq<Seq<char>>) -> Seq<Seq<char>> {
    if args.contains("--channels"@) {
        args
    } else {
        args + seq!["--channels"@, "plugin:b3"@]
    }
}

/// The arguments for the assistant: a channel for the agent's messages is added,
/// unless channels are named already.
pub fn with_channels(args: Vec<String>) -> (r: Vec<String>)
    ensures
        text::views(r@) == channelled(text::views(args@)),
{
    let mut out = args;
    let ghost all = text::views(args@);
    let mut i: usize = 0;
    while i < out.len()
        invariant
            i <= out.len(),
            all == text::views(args@) && all == text::views(out@),
            forall|k: int| 0 <= k < i ==> all[k] != "--channels"@,
        decreases out.len() - i,
    {
        if text::same(out[i].as_str(), "--channels") {
            assert(all[i as int] == "--channels"@);
            assert(all.contains("--channels"@));
            return out;
        }
        i = i + 1;
    }
    out.push("--channels".to_owned());
    out.push("plugin:b3".to_owned());
    assert(text::views(out@) =~= all + seq!["--channels"@, "plugin:b3"@]);
    out
}

/// Whether a server is another one than the primary.
pub open spec fn is_peer(url: Seq<char>, primary: Seq<char>) -> bool {
    ec2_proxy::domain_of(url) != ec2_proxy::domain_of(primary)
}

/// The servers to register with: the primary first, then its peers in order.
/// Without a list of servers the primary stands for it.
pub open spec fn registration_list(servers: Seq<Seq<char>>, primary: Seq<char>) -> Seq<Seq<char>> {
    let all = if servers.len() > 0 {
        servers
    } else {
        seq![primary]
    };
    seq![primary] + all.filter(|u: Seq<char>| is_peer(u, primary))
}

/// The servers to register with: the primary first, then its peers in order.
pub fn registration_servers(config: &Config) -> (r: Vec<String>)
    ensures
        text::views(r@) == registration_list(text::views(config.servers@), config.api_url@),
{
    let mut listed: Vec<String> = Vec::new();
    let mut k: usize = 0;
    assert(text::views(listed@) =~= text::views(config.servers@).take(0));
    while k < config.servers.len()
        invariant
            k <= config.servers.len(),
            text::views(listed@) == text::views(config.servers@).take(k as int),
        decreases config.servers.len() - k,
    {
        let ghost before = text::views(listed@);
        listed.push(config.servers[k].clone());
        assert(text::views(listed@) =~= before.push(config.servers@[k as int]@));
        k = k + 1;
        assert(text::views(listed@) =~= text::views(config.servers@).take(k as int));
    }
    assert(text::views(config.servers@).take(k as int) =~= text::views(config.servers@));
    if listed.len() == 0 {
        listed.push(config.api_url.clone());
        assert(text::views(listed@) =~= seq![config.api_url@]);
    }
    let ghost all = text::views(listed@);
    let ghost keep = |u: Seq<char>| is_peer(u, config.api_url@);
    let domain = ec2_proxy::url_to_domain_pub(config.api_url.as_str());
    let mut out: Vec<String> = Vec::new();
    out.push(config.api_url.clone());
    let mut i: usize = 0;
    assert(all.take(0).filter(keep) =~= Seq::empty()) by {
        reveal(Seq::filter);
    }
    assert(text::views(out@) =~= seq![config.api_url@] + all.take(0).filter(keep));
    while i < listed.len()
        invariant
            i <= listed.len(),
            all == text::views(listed@),
            keep == (|u: Seq<char>| is_peer(u, config.api_url@)),
            domain@ == ec2_proxy::domain_of(config.api_url@),
            text::views(out@) == seq![config.api_url@] + all.take(i as int).filter(keep),
        decreases listed.len() - i,
    {
        let ghost before = text::views(out@);
        assert(all.take(i + 1).filter(keep) == (if keep(all[i as int]) {
            all.take(i as int).filter(keep).push(all[i as int])
        } else {
            all.take(i as int).filter(keep)
        })) by {
            reveal(Seq::filter);
            assert(all.take(i + 1).drop_last() =~= all.take(i as int));
        }
        let d = ec2_proxy::url_to_domain(listed[i].as_str());
        if !text::same(d.as_str(), domain.as_str()) {
            out.push(listed[i].clone());
            assert(text::views(out@) =~= before.push(all[i as int]));
            assert(before.push(all[i as int]) =~= seq![config.api_url@] + all.take(
                i as int,
            ).filter(keep).push(all[i as int]));
        }
        i = i + 1;
    }
    assert(all.take(listed@.len() as int) =~= all);
    out
}

/// The primary server comes first, and no other server stands for it again.
pub proof fn law_primary_once(servers: Seq<Seq<char>>, primary: Seq<char>)
    ensures
        registration_list(servers, primary)[0] == primary,
        forall|i: int|
            1 <= i < registration_list(servers, primary).len() ==> is_peer(
                #[trigger] registration_list(servers, primary)[i],
                primary,
            ),
{
    let all = if servers.len() > 0 {
        servers
    } else {
        seq![primary]
    };
    let keep = |u: Seq<char>| is_peer(u, primary);
    let list = registration_list(servers, primary);
    assert forall|i: int| 1 <= i < list.len() implies is_peer(#[trigger] list[i], primary) by {
        all.lemma_filter_pred(keep, i - 1);
        assert(list[i] == all.filter(keep)[i - 1]);
        assert(keep(list[i]));
    }
}

/// A random token of 64 hexadecimal digits for the daemon's own use.
pub fn proxy_token() -> (r: String)
    ensures
        exists|b: Seq<u8>| b.len() == 32 && r@ == #[trigger] text::hex_bytes(b),
{
    let b = crypto::random_bytes(32);
    text::to_hex_bytes(b.as_slice())
}

// ── GPU credentials ─────────────────────────────────────────────────

/// The name and the value that a line of an environment file sets.
pub open spec fn line_assignment(line: Seq<char>) -> Option<(Seq<char>, Seq<char>)> {
    let t = text::trim_spec(line);
    if t.len() == 0 || t[0] == '#' || text::scan(t, '=', 0) >= t.len() {
        None
    } else {
        let value = text::trim_spec(t.skip(text::scan(t, '=', 0) + 1));
        if value.len() == 0 {
            None
        } else {
            Some((text::trim_spec(text::before(t, '=')), value))
        }
    }
}

/// What the first `n` lines set, in order.
pub open spec fn assignments(lines: Seq<Seq<char>>, n: int) -> Seq<(Seq<char>, Seq<char>)>
    decreases n,
{
    if n <= 0 {
        Seq::empty()
    } else {
        match line_assignment(lines[n - 1]) {
            Some(a) => assignments(lines, n - 1).push(a),
            None => assignments(lines, n - 1),
        }
    }
}

/// The views of pairs of texts.
pub open spec fn pair_views(v: Seq<(String, String)>) -> Seq<(Seq<char>, Seq<char>)> {
    Seq::new(v.len(), |i: int| (v[i].0@, v[i].1@))
}

/// The name and the value that a line of an environment file sets.
pub fn env_line(line: &str) -> (r: Option<(String, String)>)
    ensures
        match r {
            Some((k, v)) => line_assignment(line@) == Some((k@, v@)),
            None => line_assignment(line@) is None,
        },
{
    let t = text::trim(line);
    if t.as_str().is_empty() || t.as_str().get_char(0) == '#' {
        return None;
    }
    match text::split_once(t.as_str(), '=') {
        None => None,
        Some((k, v)) => {
            let value = text::trim(v.as_str());
            if value.as_str().is_empty() {
                None
            } else {
                Some((text::trim(k.as_str()), value))
            }
        },
    }
}

/// What an environment file sets, in order: lines that are empty or begin with
/// `#`, that hold no `=` or that set an empty value, set nothing.
pub fn env_assignments(content: &str) -> (r: Vec<(String, String)>)
    ensures
        pair_views(r@) == assignments(
            text::split_spec(content@, '\n'),
            text::split_spec(content@, '\n').len() as int,
        ),
{
    let lines = text::split(content, '\n');
    let ghost all = text::split_spec(content@, '\n');
    let mut out: Vec<(String, String)> = Vec::new();
    let mut i: usize = 0;
    assert(pair_views(out@) =~= assignments(all, 0));
    while i < lines.len()
        invariant
            i <= lines.len(),
            all == text::views(lines@),
            pair_views(out@) == assignments(all, i as int),
        decreases lines.len() - i,
    {
        let ghost before = pair_views(out@);
        assert(all[i as int] == lines@[i as int]@);
        match env_line(lines[i].as_str()) {
            Some((k, v)) => {
                out.push((k, v));
                assert(pair_views(out@) =~= before.push((k@, v@)));
            },
            None => {},
        }
        i = i + 1;
    }
    out
}

/// The endpoint that a RunPod URL names.
pub open spec fn runpod_id(url: Seq<char>) -> Option<Seq<char>> {
    let p = "https://api.runpod.ai/v2/"@;
    let e = "/runsync"@;
    if text::starts_with_spec(url, p) && text::ends_with_spec(url.skip(p.len() as int), e) {
        Some(url.skip(p.len() as int).take(url.len() - p.len() - e.len()))
    } else {
        None
    }
}

/// The endpoint that a RunPod URL names.
pub fn runpod_endpoint(url: &str) -> (r: Option<String>)
    ensures
        config::opt_string(r) == runpod_id(url@),
{
    let p: usize = "https://api.runpod.ai/v2/".unicode_len();
    if !text::starts_with(url, "https://api.runpod.ai/v2/") {
        return None;
    }
    let rest = text::skip(url, p);
    if !text::ends_with(rest.as_str(), "/runsync") {
        return None;
    }
    let n: usize = rest.unicode_len();
    let e: usize = "/runsync".unicode_len();
    Some(text::take(rest.as_str(), n - e))
}

/// The member's text, unless it is missing or empty.
pub open spec fn filled(body: JsonView, key: Seq<char>) -> Option<Seq<char>> {
    match body.text(key) {
        Some(s) => if s.len() > 0 {
            Some(s)
        } else {
            None
        },
        None => None,
    }
}

/// Access to the GPU backends.
#[derive(Debug)]
pub struct GpuAccess {
    pub runpod_api_key: Option<String>,
    pub runpod_gpu_id: Option<String>,
    pub local_gpu_url: Option<String>,
    pub local_gpu_token: Option<String>,
}

/// The access that a server's answer grants; none where it says that nothing is
/// configured.
pub fn gpu_access(body: &Json) -> (r: Option<GpuAccess>)
    ensures
        if body@.truth_or("configured"@, false) {
            r matches Some(a) && config::opt_string(a.runpod_api_key) == body@.text("gpu_token"@)
                && config::opt_string(a.runpod_gpu_id) == (match body@.text("gpu_url"@) {
                Some(u) => runpod_id(u),
                None => None,
            }) && config::opt_string(a.local_gpu_url) == filled(body@, "local_gpu_url"@)
                && config::opt_string(a.local_gpu_token) == filled(body@, "local_gpu_token"@)
        } else {
            r is None
        },
{
    if !body.truth_or("configured", false) {
        return None;
    }
    let runpod_gpu_id = match body.text("gpu_url") {
        Some(u) => runpod_endpoint(u.as_str()),
        None => None,
    };
    Some(
        GpuAccess {
            runpod_api_key: body.text("gpu_token"),
            runpod_gpu_id,
            local_gpu_url: filled_text(body, "local_gpu_url"),
            local_gpu_token: filled_text(body, "local_gpu_token"),
        },
    )
}

/// The member's text, unless it is missing or empty.
fn filled_text(body: &Json, key: &str) -> (r: Option<String>)
    ensures
        config::opt_string(r) == filled(body@, key@),
{
    match body.text(key) {
        Some(s) => if s.as_str().is_empty() {
            None
        } else {
            Some(s)
        },
        None => None,
    }
}

/// The contents of the environment file for the given access.
pub open spec fn gpu_file(
    gpu_id: Seq<char>,
    api_key: Seq<char>,
    local_url: Seq<char>,
    local_token: Seq<char>,
) -> Seq<char> {
    let a = if gpu_id.len() > 0 && api_key.len() > 0 {
        "RUNPOD_GPU_ID="@ + gpu_id + "\nRUNPOD_API_KEY="@ + api_key + "\n"@
    } else {
        Seq::empty()
    };
    let b = if local_url.len() > 0 {
        a + "LOCAL_GPU_URL="@ + local_url + "\n"@
    } else {
        a
    };
    if local_token.len() > 0 {
        b + "LOCAL_GPU_TOKEN="@ + local_token + "\n"@
    } else {
        b
    }
}

/// The contents of the environment file that keeps the access, where there is any.
pub fn gpu_env_file(gpu_id: &str, api_key: &str, local_url: &str, local_token: &str) -> (r: Option<
    String,
>)
    ensures
        ({
            let f = gpu_file(gpu_id@, api_key@, local_url@, local_token@);
            if f.len() > 0 {
                config::opt_string(r) == Some(f)
            } else {
                r is None
            }
        }),
{
    let mut s: String = String::new();
    if !gpu_id.is_empty() && !api_key.is_empty() {
        s = text::cat5("RUNPOD_GPU_ID=", gpu_id, "\nRUNPOD_API_KEY=", api_key, "\n");
    }
    if !local_url.is_empty() {
        s.append("LOCAL_GPU_URL=");
        s.append(local_url);
        s.append("\n");
    }
    if !local_token.is_empty() {
        s.append("LOCAL_GPU_TOKEN=");
        s.append(local_token);
        s.append("\n");
    }
    if s.as_str().is_empty() {
        None
    } else {
        Some(s)
    }
}

/// The new address of the local GPU that a server's answer names, where it names
/// another than the current one.
pub fn new_tunnel_url(body: &Json, current: &str) -> (r: Option<String>)
    ensures
        config::opt_string(r) == (match filled(body@, "local_gpu_url"@) {
            Some(u) => if u != current@ {
                Some(u)
            } else {
                None
            },
            None => None,
        }),
{
    match filled_text(body, "local_gpu_url") {
        Some(u) => if text::same(u.as_str(), current) {
            None
        } else {
            Some(u)
        },
        None => None,
    }
}

// ── Attached clients ────────────────────────────────────────────────

/// What the daemon does with a message from an attached client.
#[derive(Debug)]
pub enum ClientAction {
    /// Write the bytes to the terminal.
    Write(Vec<u8>),
    Resize { rows: u16, cols: u16 },
    Close,
    /// Stop the daemon and close.
    Shutdown,
    Status(Json),
    Ignore,
}

/// The mathematical value of a [`ClientAction`].
#[verifier::ext_equal]
pub enum ClientActionView {
    Write(Seq<u8>),
    Resize { rows: u16, cols: u16 },
    Close,
    Shutdown,
    Status(JsonView),
    Ignore,
}

impl View for ClientAction {
    type V = ClientActionView;

    open spec fn view(&self) -> ClientActionView {
        match self {
            ClientAction::Write(a) => ClientActionView::Write(a@),
            ClientAction::Resize { rows, cols } => ClientActionView::Resize {
                rows: *rows,
                cols: *cols,
            },
            ClientAction::Close => ClientActionView::Close,
            ClientAction::Shutdown => ClientActionView::Shutdown,
            ClientAction::Status(a) => ClientActionView::Status(a@),
            ClientAction::Ignore => ClientActionView::Ignore,
        }
    }
}

/// What an attached client is sent for terminal output.
#[derive(Debug)]
pub enum OutputAction {
    Send(Message),
    /// Send it and close.
    SendLast(Message),
    Nothing,
}

/// The mathematical value of an [`OutputAction`].
#[verifier::ext_equal]
pub enum OutputActionView {
    Send(MessageView),
    SendLast(MessageView),
    Nothing,
}

impl View for OutputAction {
    type V = OutputActionView;

    open spec fn view(&self) -> OutputActionView {
        match self {
            OutputAction::Send(a) => OutputActionView::Send(a@),
            OutputAction::SendLast(a) => OutputActionView::SendLast(a@),
            OutputAction::Nothing => OutputActionView::Nothing,
        }
    }
}

/// What the daemon does with an event from its own browsers.
#[derive(Debug)]
pub enum LocalAction {
    Write(String),
    Resize { rows: u16, cols: u16 },
    Ignore,
}

/// The mathematical value of a [`LocalAction`].
#[verifier::ext_equal]
pub enum LocalActionView {
    Write(Seq<char>),
    Resize { rows: u16, cols: u16 },
    Ignore,
}

impl View for LocalAction {
    type V = LocalActionView;

    open spec fn view(&self) -> LocalActionView {
        match self {
            LocalAction::Write(a) => LocalActionView::Write(a@),
            LocalAction::Resize { rows, cols } => LocalActionView::Resize {
                rows: *rows,
                cols: *cols,
            },
            LocalAction::Ignore => LocalActionView::Ignore,
        }
    }
}

/// The messages for a client that attaches: the size of the terminal, and the
/// banner where there is one.
pub fn welcome(rows: u16, cols: u16, banner: &[u8]) -> (r: Vec<Message>)
    ensures
        r@.len() == (if banner@.len() > 0 {
            2int
        } else {
            1int
        }),
        r@[0]@ == (MessageView::Welcome { rows, cols }),
        banner@.len() > 0 ==> r@[1]@ == MessageView::Output(banner@),
{
    let mut out: Vec<Message> = Vec::new();
    out.push(Message::Welcome { rows, cols });
    if banner.len() > 0 {
        out.push(Message::Output(crate::bytes::copy_bytes(banner)));
    }
    out
}

/// What the daemon says of itself.
pub open spec fn status_json(
    agent_id: Seq<char>,
    agent_email: Seq<char>,
    running: bool,
    rows: u16,
    cols: u16,
) -> JsonView {
    JsonView::object().put_text("agent_id"@, agent_id).put_text("agent_email"@, agent_email).put_bool(
        "running"@,
        running,
    ).put_uint("rows"@, rows as u64).put_uint("cols"@, cols as u64)
}

/// What the daemon does with what it reads from a client; `None` stands for a
/// connection that ended.
pub open spec fn client_action(
    m: Option<MessageView>,
    agent_id: Seq<char>,
    agent_email: Seq<char>,
    running: bool,
    size: (u16, u16),
) -> ClientActionView {
    match m {
        None => ClientActionView::Close,
        Some(MessageView::Input(d)) => ClientActionView::Write(d),
        Some(MessageView::Resize { rows, cols }) => ClientActionView::Resize { rows, cols },
        Some(MessageView::Detach) => ClientActionView::Close,
        Some(MessageView::Stop) => ClientActionView::Shutdown,
        Some(MessageView::Status) => ClientActionView::Status(
            status_json(agent_id, agent_email, running, size.0, size.1),
        ),
        _ => ClientActionView::Ignore,
    }
}

/// What the daemon does with what it reads from a client, and the size of the
/// terminal after it.
pub fn on_client_message(m: Option<Message>, config: &Config, running: bool, size: &mut (u16, u16)) -> (r:
    ClientAction)
    ensures
        r@ == client_action(
            match m {
                Some(x) => Some(x@),
                None => None,
            },
            config.agent_id@,
            config.agent_email@,
            running,
            *old(size),
        ),
        *final(size) == (match r@ {
            ClientActionView::Resize { rows, cols } => (rows, cols),
            _ => *old(size),
        }),
{
    match m {
        None => ClientAction::Close,
        Some(Message::Input(d)) => ClientAction::Write(d),
        Some(Message::Resize { rows, cols }) => {
            *size = (rows, cols);
            ClientAction::Resize { rows, cols }
        },
        Some(Message::Detach) => ClientAction::Close,
        Some(Message::Stop) => ClientAction::Shutdown,
        Some(Message::Status) => ClientAction::Status(
            Json::object().put_text("agent_id", config.agent_id.as_str()).put_text(
                "agent_email",
                config.agent_email.as_str(),
            ).put_bool("running", running).put_uint("rows", size.0 as u64).put_uint(
                "cols",
                size.1 as u64,
            ),
        ),
        Some(_) => ClientAction::Ignore,
    }
}

/// What an attached client is sent: output as it comes, and a farewell when there
/// will be no more.
pub fn on_output(received: Received<Vec<u8>>) -> (r: OutputAction)
    ensures
        r@ == (match received {
            Received::Item(d) => OutputActionView::Send(MessageView::Output(d@)),
            Received::Closed => OutputActionView::SendLast(MessageView::Exited(0)),
            Received::Lagged(_) => OutputActionView::Nothing,
        }),
{
    match received {
        Received::Item(d) => OutputAction::Send(Message::Output(d)),
        Received::Closed => OutputAction::SendLast(Message::Exited(0)),
        Received::Lagged(_) => OutputAction::Nothing,
    }
}

/// Whether input only reports that the terminal window got or lost the focus.
pub open spec fn focus_report(data: Seq<char>) -> bool {
    data == "\x1b[I"@ || data == "\x1b[O"@
}

/// Whether input only reports that the terminal window got or lost the focus.
pub fn is_focus_report(data: &str) -> (r: bool)
    ensures
        r == focus_report(data@),
{
    text::same(data, "\x1b[I") || text::same(data, "\x1b[O")
}

/// What the daemon does with an event from its own browsers. Only keystrokes and
/// sizes reach the terminal; focus reports do not.
pub fn on_local_event(e: &AgentEvent) -> (r: LocalAction)
    ensures
        r@ == (match e@ {
            AgentEventView::PtyInput { data } => if focus_report(data) {
                LocalActionView::Ignore
            } else {
                LocalActionView::Write(data)
            },
            AgentEventView::PtyResize { rows, cols } => LocalActionView::Resize { rows, cols },
            _ => LocalActionView::Ignore,
        }),
{
    match e {
        AgentEvent::PtyInput { data } => if is_focus_report(data.as_str()) {
            LocalAction::Ignore
        } else {
            LocalAction::Write(data.clone())
        },
        AgentEvent::PtyResize { rows, cols } => LocalAction::Resize { rows: *rows, cols: *cols },
        _ => LocalAction::Ignore,
    }
}

// ── Laws ────────────────────────────────────────────────────────────

/// What a terminal sends is done as it says: what is typed is written to the assistant,
/// and a terminal that leaves stops nothing.
pub proof fn law_client_served(
    data: Seq<u8>,
    rows: u16,
    cols: u16,
    agent_id: Seq<char>,
    agent_email: Seq<char>,
    running: bool,
    size: (u16, u16),
)
    ensures
        client_action(Some(MessageView::Input(data)), agent_id, agent_email, running, size)
            == ClientActionView::Write(data),
        client_action(
            Some(MessageView::Resize { rows, cols }),
            agent_id,
            agent_email,
            running,
            size,
        ) == (ClientActionView::Resize { rows, cols }),
        client_action(Some(MessageView::Detach), agent_id, agent_email, running, size) is Close,
        client_action(None, agent_id, agent_email, running, size) is Close,
        client_action(Some(MessageView::Stop), agent_id, agent_email, running, size) is Shutdown,
        client_action(Some(MessageView::Status), agent_id, agent_email, running, size) matches
            ClientActionView::Status(j) && j.text("agent_id"@) == Some(agent_id) && j.text(
            "agent_email"@,
        ) == Some(agent_email) && j.truth("running"@) == Some(running) && j.uint("rows"@) == Some(
            size.0 as u64,
        ) && j.uint("cols"@) == Some(size.1 as u64),
{
    broadcast use json::lemma_put_field;
    broadcast use json::lemma_object_field;

    reveal_strlit("agent_id");
    reveal_strlit("agent_email");
    reveal_strlit("running");
    reveal_strlit("rows");
    reveal_strlit("cols");
    assert("agent_id"@.len() == 8 && "agent_email"@.len() == 11 && "running"@.len() == 7 && "rows"@.len() == 4 && "cols"@.len() == 4);
    assert("rows"@[0] != "cols"@[0]);
}

/// The daemon's tools are allowed once: what was allowed stays, and allowing them again
/// changes nothing.
pub proof fn law_tools_allowed(settings: JsonView, perms: JsonView, a: Seq<JsonView>, key: Seq<char>)
    requires
        settings.field("permissions"@) == Some(perms),
        perms.field("allow"@) == Some(JsonView::Array(a)),
    ensures
        allowed(settings).field("permissions"@) matches Some(p) && p.field("allow"@) matches Some(
            JsonView::Array(b),
        ) && b.contains(JsonView::Text(tool_pattern())) && a.is_prefix_of(b),
        key != "permissions"@ ==> allowed(settings).field(key) == settings.field(key),
        allowed(allowed(settings)) == allowed(settings),
{
    broadcast use json::lemma_put_field;

    let t = JsonView::Text(tool_pattern());
    if !a.contains(t) {
        let b = a.push(t);
        assert(b[a.len() as int] == t);
        assert(b.contains(t));
        assert(b.take(a.len() as int) =~= a);
    } else {
        assert(a.take(a.len() as int) =~= a);
    }
}

/// The endpoint of a GPU is found in its address.
pub proof fn law_endpoint_found(id: Seq<char>)
    ensures
        runpod_id("https://api.runpod.ai/v2/"@ + id + "/runsync"@) == Some(id),
{
    let p = "https://api.runpod.ai/v2/"@;
    let e = "/runsync"@;
    let url = p + id + e;
    assert(url.take(p.len() as int) =~= p);
    let rest = url.skip(p.len() as int);
    assert(rest =~= id + e);
    assert(rest.skip(rest.len() - e.len()) =~= e);
    assert(rest.take(url.len() - p.len() - e.len()) =~= id);
}

/// A line of the file of variables sets the one before its `=` to what follows it.
pub proof fn law_assignment_read(name: Seq<char>, value: Seq<char>)
    requires
        name.len() > 0,
        text::lacks(name, '='),
        name[0] != '#',
        !text::is_space(name[0]),
        !text::is_space(name.last()),
        value.len() > 0,
        !text::is_space(value[0]),
        !text::is_space(value.last()),
    ensures
        line_assignment(name + seq!['='] + value) == Some((name, value)),
        line_assignment(seq!['#'] + value) is None,
{
    let s = name + seq!['='] + value;
    assert(s[0] == name[0]);
    assert(s.last() == value.last());
    text::law_trim(' ', s);
    text::law_trim(' ', value);
    text::law_trim(' ', name);
    text::law_scan_found(name, '=', value, 0);
    assert(s.take(name.len() as int) =~= name);
    assert(s.skip(name.len() as int + 1) =~= value);
    let c = seq!['#'] + value;
    assert(c[0] == '#' && c.last() == value.last());
    text::law_trim(' ', c);
}

/// The file of variables names the cloud only where both its parts are set, and the local
/// GPU where it is.
pub proof fn law_gpu_file(id: Seq<char>, key: Seq<char>, url: Seq<char>, token: Seq<char>)
    requires
        id.len() > 0,
        key.len() > 0,
        url.len() > 0,
        token.len() > 0,
    ensures
        gpu_file(id, key, Seq::empty(), Seq::empty()) == "RUNPOD_GPU_ID="@ + id
            + "\nRUNPOD_API_KEY="@ + key + "\n"@,
        gpu_file(id, Seq::empty(), Seq::empty(), Seq::empty()).len() == 0,
        gpu_file(Seq::empty(), Seq::empty(), url, Seq::empty()) == "LOCAL_GPU_URL="@ + url + "\n"@,
        gpu_file(id, key, url, token) == gpu_file(id, key, Seq::empty(), Seq::empty())
            + gpu_file(Seq::empty(), Seq::empty(), url, Seq::empty()) + "LOCAL_GPU_TOKEN="@ + token
            + "\n"@,
{
    let a = gpu_file(id, key, Seq::empty(), Seq::empty());
    assert(gpu_file(Seq::empty(), Seq::empty(), url, Seq::empty()) =~= "LOCAL_GPU_URL="@ + url
        + "\n"@);
    assert(gpu_file(id, key, url, token) =~= a + ("LOCAL_GPU_URL="@ + url + "\n"@)
        + "LOCAL_GPU_TOKEN="@ + token + "\n"@);
}

/// The channel is named once, behind the arguments that were given.
pub proof fn law_channel_named_once(args: Seq<Seq<char>>)
    ensures
        args.is_prefix_of(channelled(args)),
        channelled(args).contains("--channels"@),
        channelled(channelled(args)) == channelled(args),
{
    let c = channelled(args);
    assert(c.take(args.len() as int) =~= args);
    if !args.contains("--channels"@) {
        assert(c[args.len() as int] == "--channels"@);
    }
}

/// Every line that sets a variable sets it, in order, and no other line does.
pub proof fn law_every_line_read(lines: Seq<Seq<char>>, line: Seq<char>)
    ensures
        line_assignment(line) is Some ==> assignments(lines.push(line), lines.len() as int + 1)
            == assignments(lines, lines.len() as int).push(line_assignment(line).unwrap()),
        line_assignment(line) is None ==> assignments(lines.push(line), lines.len() as int + 1)
            == assignments(lines, lines.len() as int),
{
    lemma_lines_before(lines, line, lines.len() as int);
}

proof fn lemma_lines_before(lines: Seq<Seq<char>>, line: Seq<char>, n: int)
    requires
        n <= lines.len(),
    ensures
        assignments(lines.push(line), n) == assignments(lines, n),
    decreases n,
{
    if n > 0 {
        lemma_lines_before(lines, line, n - 1);
    }
}

} // verus!
