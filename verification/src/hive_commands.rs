//! Messages to other agents from the command line.

use vstd::prelude::*;

use crate::json;
use crate::json::{Json, JsonView};
use crate::text;

verus! {

/// Text with spaces behind it up to a width, in characters.
pub open spec fn padded(s: Seq<char>, width: int) -> Seq<char> {
    s + Seq::new(
        if s.len() < width {
            (width - s.len()) as nat
        } else {
            0
        },
        |i: int| ' ',
    )
}

/// Text with spaces behind it up to a width, in characters.
pub fn pad(s: &str, width: usize) -> (r: String)
    ensures
        r@ == padded(s@, width as int),
{
    let n: usize = s.unicode_len();
    let mut out: String = s.to_owned();
    let mut i: usize = n;
    assert(out@ =~= s@ + Seq::new(0, |i: int| ' '));
    while i < width
        invariant
            n <= i,
            i <= width || i == n,
            n == s@.len(),
            out@ == s@ + Seq::new((i - n) as nat, |i: int| ' '),
        decreases width - i,
    {
        out.push(' ');
        i = i + 1;
        assert(out@ =~= s@ + Seq::new((i - n) as nat, |i: int| ' '));
    }
    assert(out@ =~= padded(s@, width as int));
    out
}

/// The request that sends a direct message.
pub fn send_body(target: &str, message: &str) -> (r: Json)
    ensures
        r@ == JsonView::object().put_text("target"@, target@).put_text(
            "message"@,
            message@,
        ).put_bool("ephemeral"@, false).put("deliver_at"@, JsonView::Null).put(
            "unlock_key"@,
            JsonView::Null,
        ),
{
    Json::object().put_text("target", target).put_text("message", message).put_bool(
        "ephemeral",
        false,
    ).put("deliver_at", Json::Null).put("unlock_key", Json::Null)
}

/// What the user is told after a direct message was sent.
pub fn sent(body: &Json, target: &str) -> (r: String)
    ensures
        r@ == "Message sent to "@ + body@.text_or("to"@, target@),
{
    let to = body.text_or("to", target);
    text::cat2("Message sent to ", to.as_str())
}

/// The line for an agent.
pub open spec fn agent_line(a: JsonView) -> Seq<char> {
    padded(a.text_or("name"@, "?"@), 20) + " "@ + padded(a.text_or("agent_id"@, "?"@), 14) + (
    if a.truth_or("is_self"@, false) {
        " (you)"@
    } else {
        ""@
    })
}

/// The line for a room.
pub open spec fn room_line(a: JsonView) -> Seq<char> {
    "  "@ + a.text_or("id"@, "?"@) + "  ["@ + a.text_or("topic"@, "(no topic)"@) + "]  members: "@
        + listed(json::text_items(a.items("members"@)))
}

/// The line for a message.
pub open spec fn message_line(a: JsonView) -> Seq<char> {
    "["@ + a.text_or("created_at"@, ""@) + "] "@ + a.text_or("from_agent"@, "?"@) + ": "@ + a.text_or(
        "content"@,
        ""@,
    )
}

/// Texts with commas between them.
pub open spec fn listed(v: Seq<Seq<char>>) -> Seq<char>
    decreases v.len(),
{
    if v.len() == 0 {
        Seq::empty()
    } else if v.len() == 1 {
        v[0]
    } else {
        listed(v.drop_last()) + ", "@ + v.last()
    }
}

/// Texts with commas between them.
pub fn join_names(v: &[String]) -> (r: String)
    ensures
        r@ == listed(text::views(v@)),
{
    let ghost all = text::views(v@);
    let mut out: String = String::new();
    let mut i: usize = 0;
    assert(listed(all.take(0)) =~= Seq::empty());
    while i < v.len()
        invariant
            i <= v@.len(),
            all == text::views(v@),
            out@ == listed(all.take(i as int)),
        decreases v.len() - i,
    {
        assert(all.take(i + 1).drop_last() =~= all.take(i as int));
        if i > 0 {
            out.append(", ");
        }
        out.append(v[i].as_str());
        assert(out@ =~= listed(all.take(i + 1)));
        i = i + 1;
    }
    assert(all.take(i as int) =~= all);
    out
}

fn agent_row(a: &Json) -> (r: String)
    ensures
        r@ == agent_line(a@),
{
    let name = a.text_or("name", "?");
    let id = a.text_or("agent_id", "?");
    let mark = if a.truth_or("is_self", false) {
        " (you)"
    } else {
        ""
    };
    let n = pad(name.as_str(), 20);
    let i = pad(id.as_str(), 14);
    text::cat4(n.as_str(), " ", i.as_str(), mark)
}

fn room_row(a: &Json) -> (r: String)
    ensures
        r@ == room_line(a@),
{
    let id = a.text_or("id", "?");
    let topic = a.text_or("topic", "(no topic)");
    let names = json::texts_of(a.items("members"));
    let members = join_names(names.as_slice());
    text::cat6("  ", id.as_str(), "  [", topic.as_str(), "]  members: ", members.as_str())
}

fn message_row(a: &Json) -> (r: String)
    ensures
        r@ == message_line(a@),
{
    let at = a.text_or("created_at", "");
    let from = a.text_or("from_agent", "?");
    let content = a.text_or("content", "");
    text::cat6("[", at.as_str(), "] ", from.as_str(), ": ", content.as_str())
}

/// What is listed.
#[derive(Debug, Clone, Copy, PartialEq, Eq, Structural)]
pub enum Listing {
    Agents,
    Rooms,
    Messages,
}

impl Listing {
    /// Under which key an answer holds it.
    pub open spec fn key(self) -> Seq<char> {
        match self {
            Listing::Agents => "agents"@,
            Listing::Rooms => "rooms"@,
            Listing::Messages => "messages"@,
        }
    }

    /// The line for one of it.
    pub open spec fn line(self, a: JsonView) -> Seq<char> {
        match self {
            Listing::Agents => agent_line(a),
            Listing::Rooms => room_line(a),
            Listing::Messages => message_line(a),
        }
    }

    /// The lines above.
    pub open spec fn head(self) -> Seq<Seq<char>> {
        match self {
            Listing::Agents => seq![
                "Your agents:"@,
                padded("Name"@, 20) + " "@ + padded("ID"@, 14) + " "@,
                "----------------------------------------"@,
            ],
            Listing::Rooms => seq!["Conversation rooms:"@],
            Listing::Messages => Seq::empty(),
        }
    }

    /// The lines below.
    pub open spec fn foot(self) -> Seq<Seq<char>> {
        match self {
            Listing::Agents => seq![
                ""@,
                "To send a message: b3 hive send <agent-name> \"your message\""@,
            ],
            _ => Seq::empty(),
        }
    }

    /// What is said where there is none.
    pub open spec fn nothing(self) -> Seq<char> {
        match self {
            Listing::Agents => "No agents found."@,
            Listing::Rooms => "No conversation rooms."@,
            Listing::Messages => "No messages in room."@,
        }
    }
}

/// The lines that show an answer.
pub open spec fn shown(what: Listing, body: JsonView) -> Seq<Seq<char>> {
    match body.field(what.key()) {
        Some(JsonView::Array(v)) => if v.len() == 0 {
            seq![what.nothing()]
        } else {
            what.head() + v.map_values(|a: JsonView| what.line(a)) + what.foot()
        },
        _ => seq!["Unexpected response format"@],
    }
}

/// The lines for the values of a list.
fn rows(what: Listing, v: &[Json]) -> (out: Vec<String>)
    ensures
        text::views(out@) == json::json_views(v@).map_values(|a: JsonView| what.line(a)),
{
    let ghost all = json::json_views(v@);
    let mut out: Vec<String> = Vec::new();
    let mut i: usize = 0;
    while i < v.len()
        invariant
            i <= v@.len(),
            all == json::json_views(v@),
            out@.len() == i,
            forall|k: int| 0 <= k < i ==> (#[trigger] out@[k])@ == what.line(all[k]),
        decreases v.len() - i,
    {
        assert(all[i as int] == v@[i as int]@);
        let row = match what {
            Listing::Agents => agent_row(&v[i]),
            Listing::Rooms => room_row(&v[i]),
            Listing::Messages => message_row(&v[i]),
        };
        out.push(row);
        i = i + 1;
    }
    assert(text::views(out@) =~= all.map_values(|a: JsonView| what.line(a)));
    out
}

/// The lines above and below.
fn frame(what: Listing) -> (r: (Vec<String>, Vec<String>))
    ensures
        text::views(r.0@) == what.head(),
        text::views(r.1@) == what.foot(),
{
    let mut head: Vec<String> = Vec::new();
    let mut foot: Vec<String> = Vec::new();
    match what {
        Listing::Agents => {
            let name = pad("Name", 20);
            let id = pad("ID", 14);
            head.push("Your agents:".to_owned());
            head.push(text::cat4(name.as_str(), " ", id.as_str(), " "));
            head.push("----------------------------------------".to_owned());
            foot.push("".to_owned());
            foot.push(
                "To send a message: b3 hive send <agent-name> \"your message\"".to_owned(),
            );
        },
        Listing::Rooms => {
            head.push("Conversation rooms:".to_owned());
        },
        Listing::Messages => {},
    }
    assert(text::views(head@) =~= what.head());
    assert(text::views(foot@) =~= what.foot());
    (head, foot)
}

/// The lines that show an answer: one for each of what it holds.
pub fn show(what: Listing, body: &Json) -> (r: Vec<String>)
    ensures
        text::views(r@) == shown(what, body@),
{
    let key = match what {
        Listing::Agents => "agents",
        Listing::Rooms => "rooms",
        Listing::Messages => "messages",
    };
    let list: bool = match body.get(key) {
        Some(Json::Array(_)) => true,
        _ => false,
    };
    let mut out: Vec<String> = Vec::new();
    if !list {
        out.push("Unexpected response format".to_owned());
        assert(text::views(out@) =~= seq!["Unexpected response format"@]);
        return out;
    }
    let items = body.items(key);
    assert(items@.len() == json::json_views(items@).len());
    if items.len() == 0 {
        let none = match what {
            Listing::Agents => "No agents found.",
            Listing::Rooms => "No conversation rooms.",
            Listing::Messages => "No messages in room.",
        };
        out.push(none.to_owned());
        assert(text::views(out@) =~= seq![none@]);
        return out;
    }
    let (mut head, mut foot) = frame(what);
    let mut lines = rows(what, items);
    let ghost a = text::views(head@);
    let ghost b = text::views(lines@);
    let ghost c = text::views(foot@);
    head.append(&mut lines);
    assert(text::views(head@) =~= a + b);
    head.append(&mut foot);
    assert(text::views(head@) =~= a + b + c);
    head
}

/// The message where a request failed.
pub fn failed(what: &str, status: &str, body: &str) -> (r: String)
    ensures
        r@ == what@ + ": HTTP "@ + status@ + " — "@ + body@,
{
    text::cat5(what, ": HTTP ", status, " — ", body)
}

/// Names are listed in order, each with a comma behind it but the last.
pub proof fn law_names_listed(v: Seq<Seq<char>>, name: Seq<char>)
    ensures
        v.len() > 0 ==> listed(v.push(name)) == listed(v) + ", "@ + name,
        listed(seq![name]) == name,
{
    assert(v.push(name).drop_last() =~= v);
}

/// A padded text begins with the text, ends with spaces, and is as wide as asked for.
pub proof fn law_padded(s: Seq<char>, width: nat)
    ensures
        s.is_prefix_of(padded(s, width as int)),
        s.len() <= width ==> padded(s, width as int).len() == width,
        forall|i: int|
            s.len() <= i < padded(s, width as int).len() ==> #[trigger] padded(s, width as int)[i]
                == ' ',
{
    assert(padded(s, width as int).take(s.len() as int) =~= s);
}

/// What there is to list is listed, a line for each.
pub proof fn law_each_listed(what: Listing, body: JsonView, v: Seq<JsonView>)
    requires
        body.field(what.key()) == Some(JsonView::Array(v)),
    ensures
        v.len() > 0 ==> shown(what, body).len() == what.head().len() + v.len() + what.foot().len()
            && forall|i: int|
            0 <= i < v.len() ==> shown(what, body)[what.head().len() + i] == #[trigger] what.line(
                v[i],
            ),
        v.len() == 0 ==> shown(what, body) == seq![what.nothing()],
{
}

/// A message is shown with its time, its sender and its content.
pub proof fn law_message_shown(a: JsonView, at: Seq<char>, from: Seq<char>, content: Seq<char>)
    requires
        a.text("created_at"@) == Some(at),
        a.text("from_agent"@) == Some(from),
        a.text("content"@) == Some(content),
    ensures
        message_line(a) == "["@ + at + "] "@ + from + ": "@ + content,
{
}

/// An agent is shown with its name and its number, and oneself is marked.
pub proof fn law_agent_shown(a: JsonView, name: Seq<char>, id: Seq<char>)
    requires
        a.text("name"@) == Some(name),
        a.text("agent_id"@) == Some(id),
    ensures
        name.is_prefix_of(agent_line(a)),
        a.truth("is_self"@) == Some(true) ==> text::ends_with_spec(agent_line(a), " (you)"@),
        a.truth("is_self"@) != Some(true) ==> agent_line(a) == padded(name, 20) + " "@ + padded(
            id,
            14,
        ),
{
    reveal_strlit("");
    let head = padded(name, 20) + " "@ + padded(id, 14);
    let line = agent_line(a);
    law_padded(name, 20);
    assert(line.take(name.len() as int) =~= name) by {
        assert(padded(name, 20).take(name.len() as int) =~= name);
        assert(line.take(name.len() as int) =~= padded(name, 20).take(name.len() as int));
    }
    if a.truth("is_self"@) == Some(true) {
        assert(line =~= head + " (you)"@);
        assert(line.skip(line.len() - " (you)"@.len()) =~= " (you)"@);
    } else {
        assert(line =~= head);
    }
}

} // verus!
