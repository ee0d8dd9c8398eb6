//! Messages that go through the daemon's web server to other agents.

use vstd::prelude::*;

use crate::clock;
use crate::clock::Timestamp;
use crate::config;
use crate::crypto;
use crate::hive_integration;
use crate::json;
use crate::json::{Json, JsonView};
use crate::text;

verus! {

/// An answer to a request in words.
#[derive(Debug)]
pub struct TextReply {
    pub status: u16,
    pub text: String,
}

/// The mathematical value of a [`TextReply`].
#[verifier::ext_equal]
pub struct TextReplyView {
    pub status: u16,
    pub text: Seq<char>,
}

impl View for TextReply {
    type V = TextReplyView;

    open spec fn view(&self) -> TextReplyView {
        TextReplyView {
            status: self.status,
            text: self.text@,
        }
    }
}

/// A direct message to send.
#[derive(Debug)]
pub struct HiveSend {
    /// The request as it came.
    pub request: Json,
    pub target: String,
    pub plaintext: String,
    pub ephemeral: bool,
    /// When it is to be delivered, where that is later.
    pub deliver_at: Option<String>,
}

/// The mathematical value of a [`HiveSend`].
#[verifier::ext_equal]
pub struct HiveSendView {
    pub request: JsonView,
    pub target: Seq<char>,
    pub plaintext: Seq<char>,
    pub ephemeral: bool,
    pub deliver_at: Option<Seq<char>>,
}

impl View for HiveSend {
    type V = HiveSendView;

    open spec fn view(&self) -> HiveSendView {
        HiveSendView {
            request: self.request@,
            target: self.target@,
            plaintext: self.plaintext@,
            ephemeral: self.ephemeral,
            deliver_at: crate::config::opt_string(self.deliver_at),
        }
    }
}

/// The URL to which a request for messages is passed on.
pub fn proxy_url(api_url: &str, path: &str) -> (r: String)
    ensures
        r@ == api_url@ + "/api/hive"@ + path@,
{
    text::cat3(api_url, "/api/hive", path)
}

/// What is passed on under the path of a room.
pub fn room_path(room_id: &str, action: &str) -> (r: String)
    ensures
        r@ == "/rooms/"@ + room_id@ + "/"@ + action@,
{
    text::cat4("/rooms/", room_id, "/", action)
}

/// The answer where the server was not reached.
pub fn proxy_error(error: &str) -> (r: TextReply)
    ensures
        r@ == (TextReplyView { status: 502, text: "hive proxy error: "@ + error@ }),
{
    TextReply { status: 502, text: text::cat2("hive proxy error: ", error) }
}

// ── Direct messages ─────────────────────────────────────────────────

/// What a request to send asks for, or the answer to one that is none.
pub open spec fn send_request(body: Seq<char>) -> Result<HiveSendView, TextReplyView> {
    match json::json_value(body) {
        Err(_) => Err(TextReplyView { status: 400, text: "invalid JSON"@ }),
        Ok(j) => match j.text("target"@) {
            None => Err(TextReplyView { status: 400, text: "missing target"@ }),
            Some(target) => match j.text("message"@) {
                None => Err(TextReplyView { status: 400, text: "missing message"@ }),
                Some(plaintext) => Ok(
                    HiveSendView {
                        request: j,
                        target,
                        plaintext,
                        ephemeral: j.truth_or("ephemeral"@, false),
                        deliver_at: j.text("deliver_at"@),
                    },
                ),
            },
        },
    }
}

/// The view of a request to send, or of the answer in its place.
pub open spec fn send_view(r: Result<HiveSend, TextReply>) -> Result<HiveSendView, TextReplyView> {
    match r {
        Ok(s) => Ok(s@),
        Err(e) => Err(e@),
    }
}

/// What a request to send asks for, or the answer to one that is none.
pub fn hive_send(body: &str) -> (r: Result<HiveSend, TextReply>)
    ensures
        send_view(r) == send_request(body@),
{
    let j = match json::parse(body) {
        Ok(j) => j,
        Err(_) => {
            return Err(TextReply { status: 400, text: "invalid JSON".to_owned() });
        },
    };
    match j.text("target") {
        None => Err(TextReply { status: 400, text: "missing target".to_owned() }),
        Some(target) => match j.text("message") {
            None => Err(TextReply { status: 400, text: "missing message".to_owned() }),
            Some(plaintext) => {
                let ephemeral: bool = j.truth_or("ephemeral", false);
                let deliver_at = j.text("deliver_at");
                Ok(HiveSend { request: j, target, plaintext, ephemeral, deliver_at })
            },
        },
    }
}

/// What is passed on for a message that is to be delivered later: the message
/// encrypted, and the key that opens it. Without a time there is none.
pub fn timelock_request(s: HiveSend) -> (r: Option<Result<String, TextReply>>)
    requires
        s@.request is Object,
    ensures
        match s@.deliver_at {
            None => r is None,
            Some(at) => if crypto::fits_cipher(vstd::utf8::encode_utf8(s@.plaintext).len()) {
                r matches Some(Ok(body)) && exists|envelope: Seq<char>, key: Seq<char>|
                    #[trigger] hive_integration::timelock_decrypted(envelope, key) == Ok::<
                        Seq<char>,
                        Seq<char>,
                    >(s@.plaintext) && body@ == json::json_text(
                        json::written(
                            s@.request.put_text("message"@, envelope).put_text(
                                "deliver_at"@,
                                at,
                            ).put_text("unlock_key"@, key),
                        ),
                    )
            } else {
                r matches Some(Err(e)) && e@ == (TextReplyView {
                    status: 500,
                    text: "Timelock encryption failed: Timelock encryption failed: aead::Error"@,
                })
            },
        },
{
    let at = match s.deliver_at {
        None => {
            return None;
        },
        Some(at) => at,
    };
    match hive_integration::encrypt_timelock(s.plaintext.as_str()) {
        Ok((envelope, key)) => {
            proof {
                lemma_object(s.request@, "message"@, JsonView::Text(envelope@));
                let a = s.request@.put_text("message"@, envelope@);
                lemma_object(a, "deliver_at"@, JsonView::Text(at@));
            }
            let req = s.request.put_text("message", envelope.as_str()).put_text(
                "deliver_at",
                at.as_str(),
            ).put_text("unlock_key", key.as_str());
            let body = req.to_text();
            Some(Ok(body))
        },
        Err(_) => Some(
            Err(
                TextReply {
                    status: 500,
                    text:
                        "Timelock encryption failed: Timelock encryption failed: aead::Error".to_owned(),
                },
            ),
        ),
    }
}

proof fn lemma_object(j: JsonView, k: Seq<char>, v: JsonView)
    ensures
        j is Object ==> j.put(k, v) is Object,
{
    reveal(JsonView::put);
}

/// What is passed on for a message: encrypted, where that succeeded, and else as
/// it came.
pub open spec fn sent_body(
    request: JsonView,
    ephemeral: bool,
    envelope: Option<Seq<char>>,
    original: Seq<char>,
) -> Seq<char> {
    match envelope {
        None => original,
        Some(e) => {
            let a = request.put_text("message"@, e);
            json::json_text(
                json::written(
                    if ephemeral {
                        a.put_bool("ephemeral"@, true)
                    } else {
                        a
                    },
                ),
            )
        },
    }
}

/// What is passed on for a message.
pub fn encrypted_request(s: HiveSend, envelope: Option<&str>, original: &str) -> (r: String)
    requires
        s@.request is Object,
    ensures
        r@ == sent_body(s@.request, s@.ephemeral, config::opt(envelope), original@),
{
    match envelope {
        None => original.to_owned(),
        Some(e) => {
            proof {
                lemma_object(s.request@, "message"@, JsonView::Text(e@));
            }
            let a = s.request.put_text("message", e);
            if s.ephemeral {
                a.put_bool("ephemeral", true).to_text()
            } else {
                a.to_text()
            }
        },
    }
}

/// A request to send is an object, so that it can be changed.
pub proof fn law_send_object(body: Seq<char>)
    ensures
        send_request(body) matches Ok(s) ==> s.request is Object,
{
}

// ── Messages that are read ──────────────────────────────────────────

/// Who sent a message, and its content; from rooms the sender is not asked for.
pub open spec fn message_content(msg: JsonView, with_sender: bool) -> Option<(Seq<char>, Seq<char>)> {
    match (msg.text("content"@), msg.text("from_agent"@)) {
        (Some(c), Some(f)) => Some((f, c)),
        (Some(c), None) => if with_sender {
            None
        } else {
            Some((""@, c))
        },
        _ => None,
    }
}

/// Who sent a message, and its content.
pub fn content_of(msg: &Json, with_sender: bool) -> (r: Option<(String, String)>)
    ensures
        match r {
            Some((f, c)) => message_content(msg@, with_sender) == Some((f@, c@)),
            None => message_content(msg@, with_sender) is None,
        },
{
    match (msg.text("content"), msg.text("from_agent")) {
        (Some(c), Some(f)) => Some((f, c)),
        (Some(c), None) => if with_sender {
            None
        } else {
            Some(("".to_owned(), c))
        },
        _ => None,
    }
}

/// A message with its content decrypted, where it could be.
pub open spec fn decrypted_message(msg: JsonView, plain: Option<Seq<char>>) -> JsonView {
    match plain {
        Some(p) => msg.put_text("content"@, p),
        None => msg,
    }
}

/// Whether every message that has a decrypted content is an object.
pub open spec fn are_messages(msgs: Seq<JsonView>, plain: Seq<Option<Seq<char>>>) -> bool {
    msgs.len() == plain.len() && forall|i: int|
        0 <= i < msgs.len() && plain[i] is Some ==> (#[trigger] msgs[i]) is Object
}

/// The views of decrypted contents.
pub open spec fn plain_views(v: Seq<Option<String>>) -> Seq<Option<Seq<char>>> {
    v.map_values(|p: Option<String>| config::opt_string(p))
}

/// An answer with messages, with their contents decrypted where they could be.
pub open spec fn decrypted_answer(parsed: JsonView, plain: Seq<Option<Seq<char>>>) -> Seq<char> {
    let msgs = parsed.items("messages"@);
    json::json_text(
        json::written(
            parsed.put(
                "messages"@,
                JsonView::Array(
                    Seq::new(msgs.len(), |i: int| decrypted_message(msgs[i], plain[i])),
                ),
            ),
        ),
    )
}

/// An answer with messages, with their contents decrypted where they could be.
pub fn hive_messages(parsed: Json, plain: &[Option<String>]) -> (r: String)
    requires
        parsed@ is Object,
        are_messages(parsed@.items("messages"@), plain_views(plain@)),
    ensures
        r@ == decrypted_answer(parsed@, plain_views(plain@)),
{
    let ghost msgs = parsed@.items("messages"@);
    let ghost texts = plain_views(plain@);
    let items = parsed.items("messages");
    assert(msgs == json::json_views(items@));
    let mut out: Vec<Json> = Vec::new();
    let mut i: usize = 0;
    while i < items.len()
        invariant
            i <= items@.len(),
            items@.len() == plain@.len(),
            msgs == json::json_views(items@),
            texts == plain_views(plain@),
            are_messages(msgs, texts),
            out@.len() == i,
            forall|k: int|
                0 <= k < i ==> (#[trigger] out@[k])@ == decrypted_message(msgs[k], texts[k]),
        decreases items.len() - i,
    {
        assert(msgs[i as int] == items@[i as int]@);
        assert(texts[i as int] == config::opt_string(plain@[i as int]));
        let m = items[i].copy();
        match &plain[i] {
            Some(p) => {
                out.push(m.put_text("content", p.as_str()));
            },
            None => {
                out.push(m);
            },
        }
        i = i + 1;
    }
    assert(json::json_views(out@) =~= Seq::new(
        msgs.len(),
        |i: int| decrypted_message(msgs[i], texts[i]),
    ));
    parsed.put("messages", Json::array(out)).to_text()
}

// ── Rooms ───────────────────────────────────────────────────────────

/// When the key of a new room expires, by the span that the request names.
pub open spec fn room_expiry(req: JsonView, now: Timestamp) -> Option<Seq<char>> {
    match req.text("expires_in"@) {
        None => None,
        Some(s) => match clock::span_of(s) {
            Some(span) => Some(clock::rfc3339_text(span.after(now))),
            None => None,
        },
    }
}

/// When the key of a new room expires, and what is passed on to the server.
pub fn create_room(req: &Json, now: Timestamp) -> (r: (Option<String>, String))
    requires
        req@.text("expires_in"@) matches Some(s) ==> clock::countable(s, now),
    ensures
        config::opt_string(r.0) == room_expiry(req@, now),
        r.1@ == json::json_text(
            json::written(
                match room_expiry(req@, now) {
                    Some(e) => req@.put_text("expires_at"@, e),
                    None => req@,
                },
            ),
        ),
{
    match req.text("expires_in") {
        None => (None, req.to_text()),
        Some(s) => match hive_integration::parse_expires_in(s.as_str(), now) {
            Ok(e) => {
                let body = req.copy().put_text("expires_at", e.as_str()).to_text();
                (Some(e), body)
            },
            Err(_) => (None, req.to_text()),
        },
    }
}

/// The members that a request for a room names.
pub fn room_members(req: &Json) -> (r: Vec<String>)
    ensures
        text::views(r@) == json::text_items(req@.items("members"@)),
{
    json::texts_of(req.items("members"))
}

/// The new room, by the server's answer.
pub fn created_room(answer: &str) -> (r: Option<String>)
    ensures
        config::opt_string(r) == (match json::json_value(answer@) {
            Ok(j) => j.text("room_id"@),
            Err(_) => None,
        }),
{
    match json::parse(answer) {
        Ok(j) => j.text("room_id"),
        Err(_) => None,
    }
}

/// The body that sends a message to a room.
pub fn room_message_body(message: &str) -> (r: String)
    ensures
        r@ == json::json_text(json::written(JsonView::object().put_text("message"@, message@))),
{
    Json::object().put_text("message", message).to_text()
}

/// What is passed on for a message to a room: encrypted, where that succeeded.
pub fn room_send(req: Json, envelope: Option<&str>) -> (r: String)
    requires
        envelope is Some ==> req@ is Object,
    ensures
        r@ == json::json_text(
            json::written(
                match envelope {
                    Some(e) => req@.put_text("message"@, e@),
                    None => req@,
                },
            ),
        ),
{
    match envelope {
        Some(e) => req.put_text("message", e).to_text(),
        None => req.to_text(),
    }
}

/// The message that a room's key is destroyed.
pub open spec fn destroy_json(room_id: Seq<char>, agent_name: Seq<char>) -> JsonView {
    JsonView::object().put_text("msg_type"@, "key_destroy"@).put_text(
        "room_id"@,
        room_id,
    ).put_text("destroyed_by"@, agent_name)
}

/// The body that tells a room that its key is destroyed.
pub fn destroy_key_body(room_id: &str, agent_name: &str) -> (r: String)
    ensures
        r@ == json::json_text(
            json::written(
                JsonView::object().put_text(
                    "message"@,
                    json::json_text(json::written(destroy_json(room_id@, agent_name@))),
                ),
            ),
        ),
{
    let inner = Json::object().put_text("msg_type", "key_destroy").put_text(
        "room_id",
        room_id,
    ).put_text("destroyed_by", agent_name);
    let message = inner.to_text();
    room_message_body(message.as_str())
}

/// A message that is sent is the one that was asked for: its addressee, its text, whether
/// it is to be forgotten, and when it is to arrive.
pub proof fn law_send_read(body: Seq<char>, j: JsonView, target: Seq<char>, message: Seq<char>)
    requires
        json::json_value(body) == Ok::<JsonView, Seq<char>>(j),
        j.text("target"@) == Some(target),
        j.text("message"@) == Some(message),
    ensures
        send_request(body) matches Ok(s) && s.target == target && s.plaintext == message
            && s.deliver_at == j.text("deliver_at"@) && s.ephemeral == (j.truth("ephemeral"@)
            == Some(true)) && s.request == j,
{
}

/// Of a message only its content changes when it is read, and only to what was read.
pub proof fn law_only_content_read(msg: JsonView, plain: Seq<char>, key: Seq<char>)
    ensures
        decrypted_message(msg, Some(plain)).text("content"@) == Some(plain),
        key != "content"@ ==> decrypted_message(msg, Some(plain)).field(key) == msg.field(key),
        decrypted_message(msg, None) == msg,
{
    json::lemma_put_field(msg, "content"@, JsonView::Text(plain), "content"@);
    json::lemma_put_field(msg, "content"@, JsonView::Text(plain), key);
}

/// What is to be read of a message is its content, with its sender.
pub proof fn law_content_found(msg: JsonView, content: Seq<char>, sender: Seq<char>, with_sender: bool)
    requires
        msg.text("content"@) == Some(content),
        msg.text("from_agent"@) == Some(sender),
    ensures
        message_content(msg, with_sender) == Some((sender, content)),
{
}

/// The notice that a room's key is destroyed names the room and who did it.
pub proof fn law_destroy_named(room_id: Seq<char>, agent_name: Seq<char>)
    ensures
        destroy_json(room_id, agent_name).is("msg_type"@, "key_destroy"@),
        destroy_json(room_id, agent_name).text("room_id"@) == Some(room_id),
        destroy_json(room_id, agent_name).text("destroyed_by"@) == Some(agent_name),
{
    broadcast use json::lemma_put_field;
    broadcast use json::lemma_object_field;

    reveal_strlit("msg_type");
    reveal_strlit("room_id");
    reveal_strlit("destroyed_by");
    assert("msg_type"@.len() == 8 && "room_id"@.len() == 7 && "destroyed_by"@.len() == 12);
}

/// A message that could be sealed is sent sealed, with everything else of the request as
/// it was; one that could not is sent as it came.
pub proof fn law_sent_sealed(request: JsonView, envelope: Seq<char>, original: Seq<char>, key: Seq<char>)
    ensures
        sent_body(request, false, None, original) == original,
        sent_body(request, false, Some(envelope), original) == json::json_text(
            json::written(request.put_text("message"@, envelope)),
        ),
        request.put_text("message"@, envelope).text("message"@) == Some(envelope),
        key != "message"@ ==> request.put_text("message"@, envelope).field(key) == request.field(
            key,
        ),
{
    json::lemma_put_field(request, "message"@, JsonView::Text(envelope), "message"@);
    json::lemma_put_field(request, "message"@, JsonView::Text(envelope), key);
}

/// A room ends as long after its start as was asked for.
pub proof fn law_room_ends(req: JsonView, now: Timestamp, s: Seq<char>, span: clock::Span)
    requires
        req.text("expires_in"@) == Some(s),
        clock::span_of(s) == Some(span),
    ensures
        room_expiry(req, now) == Some(clock::rfc3339_text(span.after(now))),
{
}

} // verus!
