//! Agents that an agent starts.

use vstd::prelude::*;

use crate::clock;
use crate::clock::{SpanError, Timestamp};
use crate::config;
use crate::config::Config;
use crate::hive_commands;
use crate::json;
use crate::json::{Json, JsonView};
use crate::text;

verus! {

// ── Starting one ────────────────────────────────────────────────────

/// When a new agent expires, counted from now, as RFC 3339 text.
pub fn parse_duration(s: &str, now: Timestamp) -> (r: Result<String, String>)
    requires
        clock::countable(s@, now),
    ensures
        match clock::span_of(s@) {
            Some(span) => r matches Ok(t) && t@ == clock::rfc3339_text(span.after(now)),
            None => r matches Err(e) && e@ == (if text::parse_i64_spec(clock::span_parts(s@).0) is None {
                "invalid duration number"@
            } else {
                "unknown duration unit '"@ + clock::span_parts(s@).1 + "' — use s, m, h, or d"@
            }),
        },
{
    match clock::parse_span(s) {
        Ok(span) => Ok(clock::span_after(&span, now)),
        Err(SpanError::Number) => Err("invalid duration number".to_owned()),
        Err(SpanError::Unit(u)) => Err(
            text::cat3("unknown duration unit '", u.as_str(), "' — use s, m, h, or d"),
        ),
    }
}

/// The request for a new agent.
pub fn spawn_body(name: &str, expires_at: Option<&str>) -> (r: Json)
    ensures
        r@ == JsonView::object().put_text("name"@, name@).put(
            "expires_at"@,
            match expires_at {
                Some(t) => JsonView::Text(t@),
                None => JsonView::Null,
            },
        ),
{
    let at = match expires_at {
        Some(t) => Json::Text(t.to_owned()),
        None => Json::Null,
    };
    Json::object().put_text("name", name).put("expires_at", at)
}

/// Where the agents that an agent started are listed; with `all`, also those that
/// were deleted.
pub fn children_url(api_url: &str, agent_id: &str, all: bool) -> (r: String)
    ensures
        r@ == api_url@ + "/api/agents/"@ + agent_id@ + "/children"@ + (if all {
            "?all=1"@
        } else {
            ""@
        }),
{
    let tail = if all {
        "?all=1"
    } else {
        ""
    };
    text::cat5(api_url, "/api/agents/", agent_id, "/children", tail)
}

/// The domain of a server.
pub open spec fn domain_of(api_url: Seq<char>) -> Seq<char> {
    text::before(config::without_http(api_url), '/')
}

/// The domain of a server.
pub fn extract_domain(api_url: &str) -> (r: String)
    ensures
        r@ == domain_of(api_url@),
{
    let a = text::trim_start_matches(api_url, "https://");
    let b = text::trim_start_matches(a.as_str(), "http://");
    text::before_first(b.as_str(), '/')
}

/// A member of an answer, or nothing in its place.
pub open spec fn or_null(j: JsonView, key: Seq<char>) -> JsonView {
    match j.field(key) {
        Some(v) => v,
        None => JsonView::Null,
    }
}

fn member_or_null(j: &Json, key: &str) -> (r: Json)
    ensures
        r@ == or_null(j@, key@),
{
    match j.member(key) {
        Some(v) => v,
        None => Json::Null,
    }
}

/// The configuration of a new agent, by its parent's and by the server's answer.
pub open spec fn child_json(parent: Config, name: Seq<char>, data: JsonView, version: Seq<char>) -> JsonView {
    JsonView::object().put("agent_id"@, or_null(data, "id"@)).put_text(
        "agent_email"@,
        name + "@"@ + domain_of(parent.api_url@),
    ).put("api_key"@, or_null(data, "api_key"@)).put_text("api_url"@, parent.api_url@).put_text(
        "wg_address"@,
        data.text_or("wg_address"@, ""@),
    ).put_text("relay_endpoint"@, parent.relay_endpoint@).put_text(
        "relay_public_key"@,
        parent.relay_public_key@,
    ).put_uint("push_interval_ms"@, parent.push_interval_ms).put(
        "web_url"@,
        or_null(data, "dashboard_url"@),
    ).put_text("b3_version"@, version).put("servers"@, json::texts(text::views(parent.servers@))).put(
        "parent_id"@,
        or_null(data, "parent_id"@),
    )
}

/// The configuration of a new agent, as it is written.
pub fn child_config(parent: &Config, name: &str, data: &Json, version: &str) -> (r: String)
    ensures
        r@ == json::json_pretty_text(json::written(child_json(*parent, name@, data@, version@))),
{
    let domain = extract_domain(parent.api_url.as_str());
    let email = text::cat3(name, "@", domain.as_str());
    let wg = data.text_or("wg_address", "");
    Json::object().put("agent_id", member_or_null(data, "id")).put_text(
        "agent_email",
        email.as_str(),
    ).put("api_key", member_or_null(data, "api_key")).put_text(
        "api_url",
        parent.api_url.as_str(),
    ).put_text("wg_address", wg.as_str()).put_text(
        "relay_endpoint",
        parent.relay_endpoint.as_str(),
    ).put_text("relay_public_key", parent.relay_public_key.as_str()).put_uint(
        "push_interval_ms",
        parent.push_interval_ms,
    ).put("web_url", member_or_null(data, "dashboard_url")).put_text("b3_version", version).put(
        "servers",
        Json::texts(parent.servers.as_slice()),
    ).put("parent_id", member_or_null(data, "parent_id")).to_pretty_text()
}

// ── Listing them ────────────────────────────────────────────────────

/// The line for an agent.
pub open spec fn child_line(c: JsonView, show_all: bool) -> Seq<char> {
    let status = c.text_or("status"@, "?"@);
    hive_commands::padded(c.text_or("address"@, "?"@), 30) + " "@ + hive_commands::padded(
        status,
        12,
    ) + " "@ + hive_commands::padded(c.text_or("created_at"@, "?"@), 26) + " "@
        + hive_commands::padded(c.text_or("expires_at"@, "never"@), 26) + (if show_all && status
        == "deleted"@ {
        "  (id: "@ + c.text_or("id"@, "?"@) + ")"@
    } else {
        ""@
    })
}

/// The line for an agent.
pub fn child_row(c: &Json, show_all: bool) -> (r: String)
    ensures
        r@ == child_line(c@, show_all),
{
    let address = c.text_or("address", "?");
    let status = c.text_or("status", "?");
    let created = c.text_or("created_at", "?");
    let expires = c.text_or("expires_at", "never");
    let a = hive_commands::pad(address.as_str(), 30);
    let b = hive_commands::pad(status.as_str(), 12);
    let d = hive_commands::pad(created.as_str(), 26);
    let e = hive_commands::pad(expires.as_str(), 26);
    let tail = if show_all && text::same(status.as_str(), "deleted") {
        let id = c.text_or("id", "?");
        text::cat3("  (id: ", id.as_str(), ")")
    } else {
        "".to_owned()
    };
    let line = text::cat7(a.as_str(), " ", b.as_str(), " ", d.as_str(), " ", e.as_str());
    text::cat2(line.as_str(), tail.as_str())
}

/// The heading of the list.
pub open spec fn heading() -> Seq<char> {
    hive_commands::padded("ADDRESS"@, 30) + " "@ + hive_commands::padded("STATUS"@, 12) + " "@
        + hive_commands::padded("CREATED"@, 26) + " "@ + hive_commands::padded("EXPIRES"@, 26)
}

/// The line under the heading.
pub const RULE: &'static str = "--------------------------------------------------------------------------------------------------";

fn list_heading() -> (r: String)
    ensures
        r@ == heading(),
{
    let a = hive_commands::pad("ADDRESS", 30);
    let b = hive_commands::pad("STATUS", 12);
    let c = hive_commands::pad("CREATED", 26);
    let d = hive_commands::pad("EXPIRES", 26);
    text::cat7(a.as_str(), " ", b.as_str(), " ", c.as_str(), " ", d.as_str())
}

/// The lines that show the agents in an answer.
pub fn list(data: &Json, show_all: bool) -> (r: Vec<String>)
    ensures
        text::views(r@) == (if data@.items("children"@).len() == 0 {
            seq!["No child agents."@]
        } else {
            seq![heading(), RULE@] + data@.items("children"@).map_values(
                |c: JsonView| child_line(c, show_all),
            )
        }),
{
    let items = data.items("children");
    let ghost all = data@.items("children"@);
    let mut out: Vec<String> = Vec::new();
    assert(all.len() == items@.len());
    if items.len() == 0 {
        out.push("No child agents.".to_owned());
        assert(text::views(out@) =~= seq!["No child agents."@]);
        return out;
    }
    out.push(list_heading());
    out.push(RULE.to_owned());
    let mut i: usize = 0;
    while i < items.len()
        invariant
            i <= items@.len(),
            all == json::json_views(items@),
            out@.len() == i + 2,
            out@[0]@ == heading(),
            out@[1]@ == RULE@,
            forall|k: int| 2 <= k < i + 2 ==> (#[trigger] out@[k])@ == child_line(all[k - 2], show_all),
        decreases items.len() - i,
    {
        assert(all[i as int] == items@[i as int]@);
        out.push(child_row(&items[i], show_all));
        i = i + 1;
    }
    assert(text::views(out@) =~= seq![heading(), RULE@] + all.map_values(
        |c: JsonView| child_line(c, show_all),
    ));
    out
}

// ── Naming one ──────────────────────────────────────────────────────

/// Whether a name is an identifier already.
pub fn is_id(name_or_id: &str) -> (r: bool)
    ensures
        r == text::starts_with_spec(name_or_id@, "hc-"@),
{
    text::starts_with(name_or_id, "hc-")
}

/// The identifier of the first agent, at or after `i`, that has the given name and
/// an identifier.
pub open spec fn id_of(children: Seq<JsonView>, name: Seq<char>, i: int) -> Option<Seq<char>>
    decreases children.len() - i,
{
    if i >= children.len() {
        None
    } else if children[i].is("name"@, name) && children[i].text("id"@) is Some {
        children[i].text("id"@)
    } else {
        id_of(children, name, i + 1)
    }
}

/// The identifier of the agent with the given name, by an answer that lists agents.
pub fn resolve_child_id(data: &Json, name: &str, deleted: bool) -> (r: Result<String, String>)
    ensures
        match id_of(data@.items("children"@), name@, 0) {
            Some(id) => r matches Ok(s) && s@ == id,
            None => r matches Err(e) && e@ == (if deleted {
                "no child agent named '"@ + name@
                    + "' found in active list — if it's deleted, use its id (hc-XXXXXX)"@
            } else {
                "no active child agent named '"@ + name@ + "'"@
            }),
        },
{
    let items = data.items("children");
    let ghost all = data@.items("children"@);
    let mut i: usize = 0;
    while i < items.len()
        invariant
            i <= items@.len(),
            all == json::json_views(items@),
            id_of(all, name@, 0) == id_of(all, name@, i as int),
            all == data@.items("children"@),
        decreases items.len() - i,
    {
        assert(all[i as int] == items@[i as int]@);
        if items[i].is("name", name) {
            match items[i].text("id") {
                Some(id) => {
                    return Ok(id);
                },
                None => {},
            }
        }
        i = i + 1;
    }
    if deleted {
        Err(
            text::cat3(
                "no child agent named '",
                name,
                "' found in active list — if it's deleted, use its id (hc-XXXXXX)",
            ),
        )
    } else {
        Err(text::cat3("no active child agent named '", name, "'"))
    }
}

/// What the user is told after an agent was to be ended; `body` is what the server
/// answered.
pub fn killed(status: u16, name_or_id: &str, body: &str) -> (r: Result<String, String>)
    ensures
        match status {
            204 => r matches Ok(s) && s@ == "✓ Child agent "@ + name_or_id@ + " killed."@,
            404 => r matches Err(e) && e@ == "child agent not found: "@ + name_or_id@,
            403 => r matches Err(e) && e@ == "permission denied — not your child agent"@,
            _ => r matches Err(e) && e@ == "kill failed ("@ + text::decimal(status as nat) + "): "@
                + body@,
        },
{
    if status == 204 {
        Ok(text::cat3("✓ Child agent ", name_or_id, " killed."))
    } else if status == 404 {
        Err(text::cat2("child agent not found: ", name_or_id))
    } else if status == 403 {
        Err("permission denied — not your child agent".to_owned())
    } else {
        let n = text::to_decimal(status as u64);
        Err(text::cat4("kill failed (", n.as_str(), "): ", body))
    }
}

/// Why an agent was not restored, where it was not; `body` is what the server
/// answered.
pub fn restored(status: u16, name_or_id: &str, body: &str) -> (r: Result<(), String>)
    ensures
        match status {
            200 => r is Ok,
            404 => r matches Err(e) && e@ == "child agent not found, not yours, or not deleted: "@
                + name_or_id@,
            403 => r matches Err(e) && e@ == "permission denied — not your child agent"@,
            _ => r matches Err(e) && e@ == "restore failed ("@ + text::decimal(status as nat)
                + "): "@ + body@,
        },
{
    if status == 200 {
        Ok(())
    } else if status == 404 {
        Err(
            text::cat2("child agent not found, not yours, or not deleted: ", name_or_id),
        )
    } else if status == 403 {
        Err("permission denied — not your child agent".to_owned())
    } else {
        let n = text::to_decimal(status as u64);
        Err(text::cat4("restore failed (", n.as_str(), "): ", body))
    }
}

/// An agent's configuration with a new key; nothing where there is no new key or
/// the configuration is none.
pub open spec fn rekeyed(contents: Seq<char>, key: Seq<char>) -> Option<Seq<char>> {
    if key.len() == 0 {
        None
    } else {
        match json::json_value(contents) {
            Err(_) => None,
            Ok(j) => if j is Object || j is Null {
                Some(json::json_pretty_text(json::written(j.put_text("api_key"@, key))))
            } else {
                None
            },
        }
    }
}

/// An agent's configuration with a new key. A configuration that is no object stays
/// as it is.
pub fn restore_key(contents: &str, key: &str) -> (r: Option<String>)
    ensures
        config::opt_string(r) == rekeyed(contents@, key@),
{
    if key.is_empty() {
        return None;
    }
    match json::parse(contents) {
        Err(_) => None,
        Ok(j) => {
            let can: bool = match &j {
                Json::Object(_) => true,
                Json::Null => true,
                _ => false,
            };
            if can {
                Some(j.put_text("api_key", key).to_pretty_text())
            } else {
                None
            }
        },
    }
}

/// A child's configuration holds its own name and keys, and its parent's servers.
pub proof fn law_child_configured(
    parent: Config,
    name: Seq<char>,
    data: JsonView,
    version: Seq<char>,
    id: JsonView,
    key: JsonView,
)
    requires
        data.field("id"@) == Some(id),
        data.field("api_key"@) == Some(key),
    ensures
        ({
            let j = child_json(parent, name, data, version);
            &&& j.field("agent_id"@) == Some(id)
            &&& j.field("api_key"@) == Some(key)
            &&& j.text("agent_email"@) == Some(name + "@"@ + domain_of(parent.api_url@))
            &&& j.text("api_url"@) == Some(parent.api_url@)
            &&& j.text("relay_endpoint"@) == Some(parent.relay_endpoint@)
            &&& j.text("relay_public_key"@) == Some(parent.relay_public_key@)
            &&& j.uint("push_interval_ms"@) == Some(parent.push_interval_ms)
            &&& j.text("b3_version"@) == Some(version)
            &&& j.field("servers"@) == Some(json::texts(text::views(parent.servers@)))
        }),
{
    broadcast use json::lemma_put_field;
    broadcast use json::lemma_object_field;

    reveal_strlit("agent_id");
    reveal_strlit("agent_email");
    reveal_strlit("api_key");
    reveal_strlit("api_url");
    reveal_strlit("wg_address");
    reveal_strlit("relay_endpoint");
    reveal_strlit("relay_public_key");
    reveal_strlit("push_interval_ms");
    reveal_strlit("web_url");
    reveal_strlit("b3_version");
    reveal_strlit("servers");
    reveal_strlit("parent_id");
    assert("agent_id"@.len() == 8 && "agent_email"@.len() == 11 && "api_key"@.len() == 7 && "api_url"@.len() == 7 && "wg_address"@.len() == 10 && "relay_endpoint"@.len() == 14 && "relay_public_key"@.len() == 16 && "push_interval_ms"@.len() == 16 && "web_url"@.len() == 7 && "b3_version"@.len() == 10 && "servers"@.len() == 7 && "parent_id"@.len() == 9);
    assert("api_key"@[4] != "api_url"@[4]);
    assert("api_key"@[0] != "web_url"@[0]);
    assert("api_key"@[0] != "servers"@[0]);
    assert("api_url"@[0] != "web_url"@[0]);
    assert("api_url"@[0] != "servers"@[0]);
    assert("web_url"@[0] != "servers"@[0]);
    assert("wg_address"@[0] != "b3_version"@[0]);
    assert("relay_public_key"@[0] != "push_interval_ms"@[0]);
}

/// A child is found by its name.
pub proof fn law_child_found(children: Seq<JsonView>, name: Seq<char>, i: int, k: int)
    requires
        0 <= k <= i < children.len(),
        children[i].is("name"@, name),
        children[i].text("id"@) is Some,
        forall|m: int| k <= m < i ==> !(#[trigger] children[m]).is("name"@, name),
    ensures
        id_of(children, name, k) == children[i].text("id"@),
    decreases i - k,
{
    if k < i {
        assert(!children[k].is("name"@, name));
        law_child_found(children, name, i, k + 1);
    }
}

/// No child is found by a name that none has.
pub proof fn law_no_child_found(children: Seq<JsonView>, name: Seq<char>, k: int)
    requires
        0 <= k <= children.len(),
        forall|m: int| k <= m < children.len() ==> !(#[trigger] children[m]).is("name"@, name),
    ensures
        id_of(children, name, k) is None,
    decreases children.len() - k,
{
    if k < children.len() {
        law_no_child_found(children, name, k + 1);
    }
}

/// A restored child keeps everything but its key.
pub proof fn law_only_key_replaced(contents: Seq<char>, j: JsonView, key: Seq<char>, other: Seq<char>)
    requires
        json::json_value(contents) == Ok::<JsonView, Seq<char>>(j),
        j is Object,
        key.len() > 0,
        other != "api_key"@,
    ensures
        rekeyed(contents, key) == Some(
            json::json_pretty_text(json::written(j.put_text("api_key"@, key))),
        ),
        j.put_text("api_key"@, key).text("api_key"@) == Some(key),
        j.put_text("api_key"@, key).field(other) == j.field(other),
{
    json::lemma_put_field(j, "api_key"@, JsonView::Text(key), "api_key"@);
    json::lemma_put_field(j, "api_key"@, JsonView::Text(key), other);
}

} // verus!
