//! Setting an agent up, and removing it.

use vstd::prelude::*;

use crate::config;
use crate::config::Config;
use crate::json;
use crate::json::{Json, JsonView};
use crate::server;
use crate::text;

verus! {

// ── Answers of the user ─────────────────────────────────────────────

/// Whether an answer is the given letter, in either case.
pub open spec fn is_letter(answer: Seq<char>, lower: char, upper: char) -> bool {
    let t = text::trim_spec(answer);
    t == seq![lower] || t == seq![upper]
}

fn letter(answer: &str, lower: char, upper: char) -> (r: bool)
    ensures
        r == is_letter(answer@, lower, upper),
{
    let t = text::trim(answer);
    let x = text::chars_of(t.as_str());
    if x.len() == 1 && (x[0] == lower || x[0] == upper) {
        assert(t@ =~= seq![t@[0]]);
        true
    } else {
        assert(seq![lower].len() == 1 && seq![upper].len() == 1);
        assert(seq![lower][0] == lower && seq![upper][0] == upper);
        false
    }
}

/// Whether an answer is yes; anything else is no.
pub fn is_yes(answer: &str) -> (r: bool)
    ensures
        r == is_letter(answer@, 'y', 'Y'),
{
    letter(answer, 'y', 'Y')
}

/// The token that the user typed, where there is one.
pub fn typed_token(line: &str, account_url: &str) -> (r: Result<String, String>)
    ensures
        if text::trim_spec(line@).len() == 0 {
            r matches Err(e) && e@ == "No token provided. Visit "@ + account_url@
                + " to generate one."@
        } else {
            r matches Ok(t) && t@ == text::trim_spec(line@)
        },
{
    let t = text::trim(line);
    if t.as_str().is_empty() {
        Err(text::cat3("No token provided. Visit ", account_url, " to generate one."))
    } else {
        Ok(t)
    }
}

// ── The agent's name ────────────────────────────────────────────────

/// Whether `char::is_alphanumeric` holds of a character.
pub uninterp spec fn alphanumeric(c: char) -> bool;

/// Calls `char::is_alphanumeric`: whether Unicode counts a character among the
/// letters or the numbers. Of ASCII these are the letters and the digits.
#[verifier::external_body]
fn is_alphanumeric(c: char) -> (r: bool)
    ensures
        r == alphanumeric(c),
        (c as u32) < 128 ==> r == (('0' <= c && c <= '9') || ('A' <= c && c <= 'Z') || ('a' <= c && c
            <= 'z')),
{
    c.is_alphanumeric()
}

/// A character of an agent's name: a letter, a number or a hyphen.
pub open spec fn name_char(c: char) -> char {
    if alphanumeric(c) || c == '-' {
        c
    } else {
        '-'
    }
}

/// The name that is proposed on a host.
pub open spec fn proposed_name(hostname: Seq<char>) -> Seq<char> {
    text::lowercase(hostname).map_values(|c: char| name_char(c))
}

/// The name that is proposed on a host.
pub fn default_name(hostname: &str) -> (r: String)
    ensures
        r@ == proposed_name(hostname@),
{
    let lower = text::to_lowercase(hostname);
    let x = text::chars_of(lower.as_str());
    let ghost s = lower@;
    let mut out: String = String::new();
    let mut i: usize = 0;
    assert(out@ =~= s.take(0).map_values(|c: char| name_char(c)));
    while i < x.len()
        invariant
            i <= x@.len(),
            x@ == s,
            out@ == s.take(i as int).map_values(|c: char| name_char(c)),
        decreases x.len() - i,
    {
        if is_alphanumeric(x[i]) || x[i] == '-' {
            out.push(x[i]);
        } else {
            out.push('-');
        }
        i = i + 1;
        assert(out@ =~= s.take(i as int).map_values(|c: char| name_char(c)));
    }
    assert(s.take(i as int) =~= s);
    out
}

/// The name of the agent: as given, else as typed, else as proposed.
pub fn agent_name(given: Option<String>, typed: Option<&str>, proposed: String) -> (r: String)
    ensures
        r@ == (match given {
            Some(n) => n@,
            None => match typed {
                Some(t) => if text::trim_spec(t@).len() > 0 {
                    text::trim_spec(t@)
                } else {
                    proposed@
                },
                None => proposed@,
            },
        }),
{
    match given {
        Some(n) => n,
        None => match typed {
            Some(t) => {
                let name = text::trim(t);
                if name.as_str().is_empty() {
                    proposed
                } else {
                    name
                }
            },
            None => proposed,
        },
    }
}

// ── Registering ─────────────────────────────────────────────────────

/// What a server is asked in order to register an agent.
pub fn register_request(token: &str, hostname: &str, os: &str, arch: &str, name: &str) -> (r: Json)
    ensures
        r@ == JsonView::object().put_text("token"@, token@).put_text(
            "hostname"@,
            hostname@,
        ).put_text("platform"@, os@ + "-"@ + arch@).put_text("requested_name"@, name@),
{
    let platform = text::cat3(os, "-", arch);
    Json::object().put_text("token", token).put_text("hostname", hostname).put_text(
        "platform",
        platform.as_str(),
    ).put_text("requested_name", name)
}

/// What a server says of a new agent.
#[derive(Debug)]
pub struct Registration {
    pub agent_id: String,
    pub agent_email: String,
    pub api_key: String,
    pub wg_address: String,
    pub relay_endpoint: String,
    pub relay_public_key: String,
    pub web_url: String,
    pub servers: Vec<String>,
}

/// The mathematical value of a [`Registration`].
#[verifier::ext_equal]
pub struct RegistrationView {
    pub agent_id: Seq<char>,
    pub agent_email: Seq<char>,
    pub api_key: Seq<char>,
    pub wg_address: Seq<char>,
    pub relay_endpoint: Seq<char>,
    pub relay_public_key: Seq<char>,
    pub web_url: Seq<char>,
    pub servers: Seq<Seq<char>>,
}

impl View for Registration {
    type V = RegistrationView;

    open spec fn view(&self) -> RegistrationView {
        RegistrationView {
            agent_id: self.agent_id@,
            agent_email: self.agent_email@,
            api_key: self.api_key@,
            wg_address: self.wg_address@,
            relay_endpoint: self.relay_endpoint@,
            relay_public_key: self.relay_public_key@,
            web_url: self.web_url@,
            servers: crate::text::views(self.servers@),
        }
    }
}

/// The configuration of a new agent.
pub fn new_config(reg: Registration, api_url: &str, version: &str) -> (r: Config)
    ensures
        r.agent_id@ == reg@.agent_id,
        r.agent_email@ == reg@.agent_email,
        r.api_key@ == reg@.api_key,
        r.api_url@ == api_url@,
        r.wg_address@ == reg@.wg_address,
        r.relay_endpoint@ == reg@.relay_endpoint,
        r.relay_public_key@ == reg@.relay_public_key,
        r.push_interval_ms == 100,
        r.web_url@ == reg@.web_url,
        r.b3_version@ == version@,
        text::views(r.servers@) == reg@.servers,
        !r.auto_update,
{
    Config {
        agent_id: reg.agent_id,
        agent_email: reg.agent_email,
        api_key: reg.api_key,
        api_url: api_url.to_owned(),
        wg_address: reg.wg_address,
        relay_endpoint: reg.relay_endpoint,
        relay_public_key: reg.relay_public_key,
        push_interval_ms: 100,
        web_url: reg.web_url,
        b3_version: version.to_owned(),
        servers: reg.servers,
        auto_update: false,
    }
}

/// What to do with the password that the user typed for the dashboard.
#[derive(Debug, Clone)]
pub enum PasswordStep {
    /// Store the hash.
    Store(String),
    TooShort,
    Skip,
}

/// What to do with the line that the user typed for the dashboard's password: one that
/// is long enough is stored as a hash that lets it in.
pub fn password_step(line: &str) -> (r: PasswordStep)
    requires
        vstd::utf8::encode_utf8(text::trim_spec(line@)).len() <= 0xffff_ffff,
    ensures
        if crate::start::long_enough(text::trim_spec(line@)) {
            r matches PasswordStep::Store(h) && config::password_ok(
                text::trim_spec(line@),
                h@,
            ) && config::stored_hash(Some(h@)) == Some(h@)
        } else if text::trim_spec(line@).len() > 0 {
            r is TooShort
        } else {
            r is Skip
        },
{
    let password = text::trim(line);
    if crate::start::is_long_enough(password.as_str()) {
        PasswordStep::Store(Config::hash_daemon_password(password.as_str()))
    } else if !password.as_str().is_empty() {
        PasswordStep::TooShort
    } else {
        PasswordStep::Skip
    }
}

/// The first path, at or after `i`, at which there is something.
pub open spec fn first_present(paths: Seq<(Seq<char>, bool)>, i: int) -> Option<Seq<char>>
    decreases paths.len() - i,
{
    if i >= paths.len() {
        None
    } else if paths[i].1 {
        Some(paths[i].0)
    } else {
        first_present(paths, i + 1)
    }
}

/// The program: where it is installed, else the one that runs, else by its name
/// alone. Each place comes with whether there is something.
pub fn find_b3_binary(places: &[(String, bool)], current: Option<&str>) -> (r: String)
    ensures
        r@ == (match first_present(
            places@.map_values(|p: (String, bool)| (p.0@, p.1)),
            0,
        ) {
            Some(p) => p,
            None => match current {
                Some(c) => c@,
                None => "b3"@,
            },
        }),
{
    let ghost all = places@.map_values(|p: (String, bool)| (p.0@, p.1));
    let mut i: usize = 0;
    while i < places.len()
        invariant
            i <= places@.len(),
            all == places@.map_values(|p: (String, bool)| (p.0@, p.1)),
            first_present(all, 0) == first_present(all, i as int),
        decreases places.len() - i,
    {
        assert(all[i as int] == (places@[i as int].0@, places@[i as int].1));
        if places[i].1 {
            return places[i].0.clone();
        }
        i = i + 1;
    }
    match current {
        Some(c) => c.to_owned(),
        None => "b3".to_owned(),
    }
}

// ── The assistants' settings ────────────────────────────────────────

/// The entry of the program among the tool servers; what the user added to it stays.
pub open spec fn mcp_entry(existing: Option<JsonView>, bin: Seq<char>, version: Seq<char>) -> JsonView {
    let base = match existing {
        Some(JsonView::Object(e)) => JsonView::Object(e),
        _ => JsonView::object(),
    };
    base.put_text("command"@, bin).put("args"@, json::texts(seq!["mcp"@, "voice"@])).put_text(
        "_b3_version"@,
        version,
    )
}

/// The tool servers in settings.
pub open spec fn servers_of(settings: JsonView) -> JsonView {
    match settings.field("mcpServers"@) {
        Some(s) => s,
        None => JsonView::object(),
    }
}

/// The settings with the entry of the program; everything else stays.
pub open spec fn mcp_config(settings: JsonView, bin: Seq<char>, version: Seq<char>) -> JsonView {
    let servers = servers_of(settings);
    settings.put(
        "mcpServers"@,
        servers.put("b3"@, mcp_entry(servers.field("b3"@), bin, version)),
    )
}

/// Whether the entry can be put into settings.
pub open spec fn takes_entry(settings: JsonView) -> bool {
    match settings.field("mcpServers"@) {
        Some(s) => server::takes_members(s),
        None => server::takes_members(settings),
    }
}

/// Whether the entry can be put into settings.
pub fn can_register(settings: &Json) -> (r: bool)
    ensures
        r == takes_entry(settings@),
{
    match settings.get("mcpServers") {
        Some(Json::Object(_)) => true,
        Some(Json::Null) => true,
        Some(_) => false,
        None => match settings {
            Json::Object(_) => true,
            Json::Null => true,
            _ => false,
        },
    }
}

/// The settings with the entry of the program, as they are written. Settings that
/// cannot be read are not touched.
pub fn register_voice_mcp(settings: Json, bin: &str, version: &str) -> (r: String)
    requires
        takes_entry(settings@),
    ensures
        r@ == json::json_pretty_text(json::written(mcp_config(settings@, bin@, version@))),
{
    let servers = match settings.member("mcpServers") {
        Some(s) => s,
        None => Json::object(),
    };
    let base = match servers.member("b3") {
        Some(Json::Object(e)) => Json::Object(e),
        _ => Json::object(),
    };
    let mut words: Vec<String> = Vec::new();
    words.push("mcp".to_owned());
    words.push("voice".to_owned());
    assert(text::views(words@) =~= seq!["mcp"@, "voice"@]);
    proof {
        lemma_objects(base@, bin@);
    }
    let entry = base.put_text("command", bin).put("args", Json::texts(words.as_slice())).put_text(
        "_b3_version",
        version,
    );
    settings.put("mcpServers", servers.put("b3", entry)).to_pretty_text()
}

proof fn lemma_objects(j: JsonView, bin: Seq<char>)
    requires
        j is Object,
    ensures
        j.put_text("command"@, bin) is Object,
        j.put_text("command"@, bin).put("args"@, json::texts(seq!["mcp"@, "voice"@])) is Object,
{
    reveal(JsonView::put);
}

/// The settings before there were any.
pub open spec fn no_settings() -> JsonView {
    JsonView::object().put("mcpServers"@, JsonView::object())
}

/// The settings in a file, if there is one. What cannot be read is not touched.
pub fn read_settings(contents: Option<&str>) -> (r: Result<Json, String>)
    ensures
        match contents {
            None => r matches Ok(j) && j@ == no_settings(),
            Some(c) => match json::json_value(c@) {
                Ok(v) => r matches Ok(j) && j@ == v,
                Err(e) => r matches Err(m) && m@
                    == "Cannot safely merge into .mcp.json (parse error: "@ + e
                    + "). Please add b3 MCP entry manually."@,
            },
        },
{
    match contents {
        None => Ok(Json::object().put("mcpServers", Json::object())),
        Some(c) => match json::parse(c) {
            Ok(j) => Ok(j),
            Err(e) => Err(
                text::cat3(
                    "Cannot safely merge into .mcp.json (parse error: ",
                    e.as_str(),
                    "). Please add b3 MCP entry manually.",
                ),
            ),
        },
    }
}

/// Registering leaves every other setting, and every other tool server, as it was.
pub proof fn law_settings_kept(
    settings: JsonView,
    bin: Seq<char>,
    version: Seq<char>,
    key: Seq<char>,
    name: Seq<char>,
)
    ensures
        key != "mcpServers"@ ==> mcp_config(settings, bin, version).field(key) == settings.field(key),
        mcp_config(settings, bin, version).field("mcpServers"@) == Some(
            servers_of(settings).put("b3"@, mcp_entry(servers_of(settings).field("b3"@), bin, version)),
        ),
        name != "b3"@ ==> servers_of(mcp_config(settings, bin, version)).field(name) == servers_of(
            settings,
        ).field(name),
{
    let servers = servers_of(settings);
    let entry = mcp_entry(servers.field("b3"@), bin, version);
    json::law_put_get(settings, "mcpServers"@, servers.put("b3"@, entry), key);
    json::law_put_get(servers, "b3"@, entry, name);
}

/// The settings without the entry of the program; nothing where it is not there.
pub open spec fn unregistered(j: JsonView) -> Option<JsonView> {
    match j.field("mcpServers"@) {
        Some(JsonView::Object(e)) => if JsonView::Object(e).field("b3"@) is Some {
            Some(j.put("mcpServers"@, JsonView::Object(e).without("b3"@)))
        } else {
            None
        },
        _ => None,
    }
}

/// The settings without the entry of the program, as they are written; nothing
/// where it is not there or they cannot be read.
pub open spec fn without_entry(contents: Seq<char>) -> Option<Seq<char>> {
    match json::json_value(contents) {
        Err(_) => None,
        Ok(j) => match unregistered(j) {
            Some(u) => Some(json::json_pretty_text(json::written(u))),
            None => None,
        },
    }
}

/// Takes the entry of the program out of settings, where it is there.
pub fn unregister(settings: Json) -> (r: Option<Json>)
    ensures
        json::opt_view(r) == unregistered(settings@),
{
    match settings.member("mcpServers") {
        Some(Json::Object(e)) => {
            let (rest, found) = Json::Object(e).without("b3");
            if found {
                Some(settings.put("mcpServers", rest))
            } else {
                None
            }
        },
        _ => None,
    }
}

/// The settings without the entry of the program.
pub fn remove_mcp_entry(contents: &str) -> (r: Option<String>)
    ensures
        config::opt_string(r) == without_entry(contents@),
{
    match json::parse(contents) {
        Err(_) => None,
        Ok(j) => match unregister(j) {
            Some(u) => Some(u.to_pretty_text()),
            None => None,
        },
    }
}

/// Removing takes back what registering did: the entry is gone, and every other
/// setting and tool server is as it was before.
pub proof fn law_unregistered(
    settings: JsonView,
    bin: Seq<char>,
    version: Seq<char>,
    key: Seq<char>,
    name: Seq<char>,
)
    ensures
        unregistered(mcp_config(settings, bin, version)) matches Some(u) && {
            &&& key != "mcpServers"@ ==> u.field(key) == settings.field(key)
            &&& servers_of(u).field("b3"@) is None
            &&& name != "b3"@ ==> servers_of(u).field(name) == servers_of(settings).field(name)
        },
{
    law_settings_kept(settings, bin, version, key, name);
    let c = mcp_config(settings, bin, version);
    let entry = mcp_entry(servers_of(settings).field("b3"@), bin, version);
    let servers = servers_of(settings).put("b3"@, entry);
    json::law_put_get(servers_of(settings), "b3"@, entry, name);
    assert(servers is Object) by {
        reveal(JsonView::put);
    }
    json::law_without_get(servers, "b3"@, name);
    json::law_put_get(c, "mcpServers"@, servers.without("b3"@), key);
}

/// The section of the program in the other assistant's settings.
pub open spec fn codex_section(bin: Seq<char>) -> Seq<char> {
    "[mcp_servers.b3]\ncommand = \""@ + bin + "\"\nargs = [\"mcp\", \"voice\"]\n"@
}

/// The other assistant's settings with the section of the program: in the place of
/// the one that is there, else at the end.
pub open spec fn codex_config(content: Seq<char>, bin: Seq<char>) -> Seq<char> {
    match text::find_from(content, "[mcp_servers.b3]"@, 0) {
        Some(start) => {
            let end = match text::find_from(content, "\n["@, start + 1) {
                Some(e) => e + 1,
                None => content.len() as int,
            };
            content.take(start) + codex_section(bin) + content.skip(end)
        },
        None => content + (if content.len() > 0 && content.last() != '\n' {
            "\n"@
        } else {
            ""@
        }) + "\n"@ + codex_section(bin),
    }
}

/// The other assistant's settings with the section of the program.
pub fn register_codex_mcp(content: &str, bin: &str) -> (r: String)
    ensures
        r@ == codex_config(content@, bin@),
{
    proof {
        reveal_strlit("[mcp_servers.b3]");
        reveal_strlit("\n[");
    }
    let section = text::cat3(
        "[mcp_servers.b3]\ncommand = \"",
        bin,
        "\"\nargs = [\"mcp\", \"voice\"]\n",
    );
    match text::find(content, "[mcp_servers.b3]") {
        Some(start) => {
            let n: usize = content.unicode_len();
            proof {
                text::lemma_find_from_range(content@, "\n["@, start + 1);
            }
            let end: usize = match text::find_at(content, "\n[", start + 1) {
                Some(e) => e + 1,
                None => n,
            };
            let head = text::take(content, start);
            let tail = text::skip(content, end);
            text::cat3(head.as_str(), section.as_str(), tail.as_str())
        },
        None => {
            let x = text::chars_of(content);
            let gap = if x.len() > 0 && x[x.len() - 1] != '\n' {
                "\n"
            } else {
                ""
            };
            text::cat4(content, gap, "\n", section.as_str())
        },
    }
}

/// What stands before the program's section in the other assistant's settings is
/// kept.
pub proof fn law_codex_kept(content: Seq<char>, bin: Seq<char>)
    ensures
        match text::find_from(content, "[mcp_servers.b3]"@, 0) {
            Some(start) => text::starts_with_spec(codex_config(content, bin), content.take(start)),
            None => text::starts_with_spec(codex_config(content, bin), content),
        },
{
    text::lemma_find_from_range(content, "[mcp_servers.b3]"@, 0);
    let c = codex_config(content, bin);
    match text::find_from(content, "[mcp_servers.b3]"@, 0) {
        Some(start) => {
            assert(c.take(start) =~= content.take(start));
        },
        None => {
            assert(c.take(content.len() as int) =~= content);
        },
    }
}

// ── Removing ────────────────────────────────────────────────────────

/// How a file that the program changed is brought back.
#[derive(Debug, Clone, Copy, PartialEq, Eq, Structural)]
pub enum Cleanup {
    Nothing,
    /// Take out what the program put in.
    TakeOut,
    /// Put back the copy from before.
    Restore,
    /// Delete the copy from before, which is not needed.
    DropBackup,
}

/// How a settings file is brought back. With a copy from before, the user chooses.
pub fn clean_settings(present: bool, backup: bool, choice: Option<&str>) -> (r: Cleanup)
    ensures
        r == (if !present {
            Cleanup::Nothing
        } else if !backup {
            Cleanup::TakeOut
        } else if choice matches Some(c) && is_letter(c@, 's', 'S') {
            Cleanup::TakeOut
        } else {
            Cleanup::Restore
        }),
{
    if !present {
        return Cleanup::Nothing;
    }
    if !backup {
        return Cleanup::TakeOut;
    }
    match choice {
        Some(c) => if letter(c, 's', 'S') {
            Cleanup::TakeOut
        } else {
            Cleanup::Restore
        },
        None => Cleanup::Restore,
    }
}

/// How an instruction file is brought back: only one with the program's section is
/// changed.
pub fn clean_instructions(
    present: bool,
    has_section: bool,
    backup: bool,
    choice: Option<&str>,
) -> (r: Cleanup)
    ensures
        r == (if !present {
            Cleanup::Nothing
        } else if !has_section {
            if backup {
                Cleanup::DropBackup
            } else {
                Cleanup::Nothing
            }
        } else if !backup {
            Cleanup::TakeOut
        } else if choice matches Some(c) && is_letter(c@, 's', 'S') {
            Cleanup::TakeOut
        } else {
            Cleanup::Restore
        }),
{
    if present && !has_section {
        return if backup {
            Cleanup::DropBackup
        } else {
            Cleanup::Nothing
        };
    }
    clean_settings(present, backup, choice)
}

// ── Laws ────────────────────────────────────────────────────────────

/// The daemon's server is registered with its program, and every other setting and server
/// stays.
pub proof fn law_server_registered(
    settings: JsonView,
    servers: JsonView,
    bin: Seq<char>,
    version: Seq<char>,
    key: Seq<char>,
)
    requires
        settings.field("mcpServers"@) == Some(servers),
    ensures
        ({
            let j = mcp_config(settings, bin, version);
            let s = j.field("mcpServers"@).unwrap();
            &&& j.field("mcpServers"@) is Some
            &&& s.field("b3"@) is Some
            &&& s.field("b3"@).unwrap().text("command"@) == Some(bin)
            &&& s.field("b3"@).unwrap().text("_b3_version"@) == Some(version)
            &&& s.field("b3"@).unwrap().field("args"@) == Some(
                json::texts(seq!["mcp"@, "voice"@]),
            )
            &&& key != "b3"@ ==> s.field(key) == servers.field(key)
            &&& key != "mcpServers"@ ==> j.field(key) == settings.field(key)
        }),
{
    broadcast use json::lemma_put_field;

    reveal_strlit("command");
    reveal_strlit("args");
    reveal_strlit("_b3_version");
    assert("command"@.len() == 7 && "args"@.len() == 4 && "_b3_version"@.len() == 11);
}

/// The first program that is there is used.
pub proof fn law_first_present(paths: Seq<(Seq<char>, bool)>, i: int, k: int)
    requires
        0 <= k <= i < paths.len(),
        paths[i].1,
        forall|m: int| k <= m < i ==> !(#[trigger] paths[m]).1,
    ensures
        first_present(paths, k) == Some(paths[i].0),
    decreases i - k,
{
    if k < i {
        assert(!paths[k].1);
        law_first_present(paths, i, k + 1);
    }
}

/// A proposed name keeps letters, digits and hyphens and has a hyphen for the rest.
pub proof fn law_name_proposed(hostname: Seq<char>)
    ensures
        proposed_name(hostname).len() == text::lowercase(hostname).len(),
        forall|i: int|
            0 <= i < proposed_name(hostname).len() ==> alphanumeric(
                #[trigger] proposed_name(hostname)[i],
            ) || proposed_name(hostname)[i] == '-',
        forall|i: int|
            0 <= i < proposed_name(hostname).len() && alphanumeric(text::lowercase(hostname)[i])
                ==> #[trigger] proposed_name(hostname)[i] == text::lowercase(hostname)[i],
{
}

} // verus!
