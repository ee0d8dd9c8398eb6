//! The daemon's connection to its servers, through which remote browsers reach it.

use vstd::prelude::*;

use crate::bytes;
use crate::config;
use crate::config::Config;
use crate::crypto;
use crate::events::{AgentEvent, AgentEventView, Received};
use crate::json;
use crate::json::{Json, JsonView};
use crate::paths;
use crate::session::{SessionBuffer, SessionBufferView, SessionStore};
use crate::terminal;
use crate::terminal::{Emission, EmissionView};
use crate::text;

verus! {

// ── Servers ─────────────────────────────────────────────────────────

/// The host and port that a URL names.
pub open spec fn domain_of(url: Seq<char>) -> Seq<char> {
    text::before(
        text::strip_all(
            text::strip_all(
                text::strip_all(text::strip_all(url, "https://"@), "http://"@),
                "wss://"@,
            ),
            "ws://"@,
        ),
        '/',
    )
}

/// The host and port that a URL names; a bare host stays as it is.
pub fn url_to_domain(url: &str) -> (r: String)
    ensures
        r@ == domain_of(url@),
{
    let a = text::trim_start_matches(url, "https://");
    let b = text::trim_start_matches(a.as_str(), "http://");
    let c = text::trim_start_matches(b.as_str(), "wss://");
    let d = text::trim_start_matches(c.as_str(), "ws://");
    text::before_first(d.as_str(), '/')
}

/// The host and port that a URL names; a bare host stays as it is.
pub fn url_to_domain_pub(url: &str) -> (r: String)
    ensures
        r@ == domain_of(url@),
{
    url_to_domain(url)
}

/// The URL at which the daemon registers with a server.
pub fn register_url(domain: &str, agent_id: &str) -> (r: String)
    ensures
        r@ == "wss://"@ + domain@ + "/api/daemon-register?agent_id="@ + agent_id@,
{
    text::cat4("wss://", domain, "/api/daemon-register?agent_id=", agent_id)
}

/// The URL at which the daemon takes over a browser session.
pub fn session_base_url(domain: &str) -> (r: String)
    ensures
        r@ == "wss://"@ + domain@ + "/api/daemon-session"@,
{
    text::cat3("wss://", domain, "/api/daemon-session")
}

/// The message with which the daemon registers.
pub open spec fn register_json(secret: Seq<u8>, lan_port: u16) -> JsonView {
    JsonView::object().put_text("type"@, "register"@).put_text(
        "pubkey"@,
        crypto::b64(crypto::public_key(secret)),
    ).put_uint("lan_port"@, lan_port as u64).put_bool("multi_server"@, true)
}

/// The message with which the daemon registers: its public key and its port.
pub fn register_frame(secret: &[u8; 32], lan_port: u16) -> (r: Json)
    ensures
        r@ == register_json(secret@, lan_port),
{
    let public = crypto::public_of(secret);
    let key = crypto::b64_encode(public.as_slice());
    Json::object().put_text("type", "register").put_text("pubkey", key.as_str()).put_uint(
        "lan_port",
        lan_port as u64,
    ).put_bool("multi_server", true)
}

/// The longest wait between attempts to connect, in seconds.
pub const MAX_BACKOFF_SECS: u64 = 30;

/// How the daemon keeps itself registered with a server.
#[derive(Debug)]
pub struct Registration {
    /// The next wait, in seconds.
    pub backoff: u64,
}

/// What happened to a registration.
#[derive(Debug, Clone, Copy, PartialEq, Eq, Structural)]
pub enum Attempt {
    /// No connection came about.
    Failed,
    /// The connection came about, and the message could not be sent.
    NotSent,
    /// The daemon was registered until the connection ended.
    Ended,
}

impl Registration {
    /// Whether the wait is between one second and the longest.
    pub open spec fn wf(self) -> bool {
        1 <= self.backoff <= MAX_BACKOFF_SECS
    }

    /// Before the first attempt.
    pub fn new() -> (r: Self)
        ensures
            r.wf(),
            r.backoff == 1,
    {
        Registration { backoff: 1 }
    }

    /// How many seconds to wait before the next attempt. The wait doubles with
    /// every failure, up to the longest; a connection starts it over.
    pub fn after(&mut self, attempt: Attempt) -> (wait: u64)
        requires
            old(self).wf(),
        ensures
            final(self).wf(),
            match attempt {
                Attempt::Failed => wait == old(self).backoff && final(self).backoff == (if 2 * old(
                    self,
                ).backoff <= MAX_BACKOFF_SECS {
                    2 * old(self).backoff
                } else {
                    MAX_BACKOFF_SECS as int
                }),
                _ => wait == 0 && final(self).backoff == 1,
            },
    {
        match attempt {
            Attempt::Failed => {
                let wait: u64 = self.backoff;
                self.backoff = if wait * 2 <= MAX_BACKOFF_SECS {
                    wait * 2
                } else {
                    MAX_BACKOFF_SECS
                };
                wait
            },
            _ => {
                self.backoff = 1;
                0
            },
        }
    }
}

/// The servers besides the primary: all but the first.
pub fn peer_domains(server_urls: &[String]) -> (r: Vec<String>)
    ensures
        r@.len() == (if server_urls@.len() > 0 {
            server_urls@.len() - 1
        } else {
            0
        }),
        forall|i: int| 0 <= i < r@.len() ==> (#[trigger] r@[i])@ == domain_of(server_urls@[i + 1]@),
{
    let mut out: Vec<String> = Vec::new();
    let mut i: usize = 1;
    while i < server_urls.len()
        invariant
            1 <= i <= server_urls.len() || (i == 1 && server_urls@.len() == 0),
            out@.len() == i - 1,
            forall|k: int| 0 <= k < i - 1 ==> (#[trigger] out@[k])@ == domain_of(server_urls@[k + 1]@),
        decreases server_urls.len() - i,
    {
        out.push(url_to_domain(server_urls[i].as_str()));
        i = i + 1;
    }
    out
}

// ── The daemon's key ────────────────────────────────────────────────

/// The path of the daemon's long-term key.
pub fn keypair_path(dir: &str) -> (r: String)
    ensures
        r@ == paths::joined(dir@, "daemon-proxy.key"@),
{
    paths::join(dir, "daemon-proxy.key")
}

/// The daemon's key, from the contents of its file.
pub fn load_keypair(contents: Option<&str>) -> (r: Option<[u8; 32]>)
    ensures
        match r {
            Some(k) => config::key_of(config::opt(contents)) == Some(k@),
            None => config::key_of(config::opt(contents)) is None,
        },
{
    Config::load_wg_private_key(contents)
}

/// A new key, and what to write for it. Reading it back gives the key.
pub fn generate_keypair() -> (r: ([u8; 32], String))
    ensures
        r.1@ == crypto::b64(r.0@),
        config::key_of(Some(r.1@)) == Some(r.0@),
{
    let b = crypto::random_bytes(32);
    let key: [u8; 32] = match bytes::array32(b.as_slice()) {
        Some(k) => k,
        None => [0u8;32],
    };
    let s = crypto::b64_encode(key.as_slice());
    proof {
        crypto::lemma_b64_trims(s@);
    }
    (key, s)
}

/// The daemon's key: the stored one, or a new one with what to write for it.
pub fn load_or_generate_keypair(contents: Option<&str>) -> (r: ([u8; 32], Option<String>))
    ensures
        match config::key_of(config::opt(contents)) {
            Some(k) => r.0@ == k && r.1 is None,
            None => r.1 matches Some(s) && config::key_of(Some(s@)) == Some(r.0@),
        },
{
    match load_keypair(contents) {
        Some(k) => (k, None),
        None => {
            let (k, s) = generate_keypair();
            (k, Some(s))
        },
    }
}

// ── Output to a remote browser ──────────────────────────────────────

/// The message for an event, where remote browsers get one.
pub open spec fn remote_message(e: AgentEventView) -> Option<JsonView> {
    match e {
        AgentEventView::Hive { sender, text } => if sender == "info"@ {
            Some(terminal::typed("info"@).put_text("html"@, text))
        } else {
            None
        },
        AgentEventView::HiveRoom { .. } => None,
        AgentEventView::Notification { title, body, level, action } => {
            let m = terminal::typed("notification"@).put_text("title"@, title).put_text(
                "body"@,
                body,
            ).put_text("level"@, level);
            Some(
                match action {
                    Some(a) => m.put("action"@, a),
                    None => m,
                },
            )
        },
        other => match terminal::event_emission(other, false, Seq::empty()) {
            EmissionView::Critical(j) => Some(j),
            EmissionView::BestEffort(j) => Some(j),
            _ => None,
        },
    }
}

/// What a remote browser is sent for what the daemon receives, and how far it
/// has got after it. Before the handshake it is sent nothing.
pub open spec fn remote_output(
    ready: bool,
    offset: u64,
    r: Received<AgentEvent>,
    store: Option<SessionBufferView>,
) -> (EmissionView, u64) {
    if !ready {
        (EmissionView::Nothing, offset)
    } else {
        match r {
            Received::Item(e) => match e@ {
                AgentEventView::SessionUpdated { size } => terminal::delta_emission(store, offset),
                other => (
                    match remote_message(other) {
                        Some(j) => EmissionView::Critical(j),
                        None => EmissionView::Nothing,
                    },
                    offset,
                ),
            },
            Received::Lagged(_) => terminal::delta_emission(store, offset),
            Received::Closed => (EmissionView::Stop, offset),
        }
    }
}

/// The message for an event, where remote browsers get one.
pub fn message_for(e: &AgentEvent) -> (r: Option<Json>)
    ensures
        json::opt_view(r) == remote_message(e@),
{
    match e {
        AgentEvent::Hive { sender, text } => if text::same(sender.as_str(), "info") {
            Some(Json::object().put_text("type", "info").put_text("html", text.as_str()))
        } else {
            None
        },
        AgentEvent::HiveRoom { .. } => None,
        AgentEvent::Notification { title, body, level, action } => {
            let m = Json::object().put_text("type", "notification").put_text(
                "title",
                title.as_str(),
            ).put_text("body", body.as_str()).put_text("level", level.as_str());
            match action {
                Some(a) => Some(m.put("action", a.copy())),
                None => Some(m),
            }
        },
        _ => {
            let none: Vec<String> = Vec::new();
            assert(text::views(none@) =~= Seq::empty());
            match terminal::emit(e, false, none.as_slice()) {
                Emission::Critical(j) => Some(j),
                Emission::BestEffort(j) => Some(j),
                _ => None,
            }
        },
    }
}

/// What a remote browser is sent for what the daemon receives; `offset` is how far
/// it has got.
pub fn on_event(
    ready: bool,
    offset: &mut u64,
    received: &Received<AgentEvent>,
    store: &SessionStore,
) -> (r: Emission)
    ensures
        (r@, *final(offset)) == remote_output(ready, *old(offset), *received, store@),
{
    if !ready {
        return Emission::Nothing;
    }
    let delta: bool = match received {
        Received::Item(AgentEvent::SessionUpdated { size }) => true,
        Received::Lagged(_) => true,
        _ => false,
    };
    if delta {
        return match store.delta_msg(*offset) {
            Some((msg, n)) => {
                *offset = n;
                Emission::BestEffort(msg)
            },
            None => Emission::Nothing,
        };
    }
    match received {
        Received::Item(e) => match message_for(e) {
            Some(j) => Emission::Critical(j),
            None => Emission::Nothing,
        },
        _ => Emission::Stop,
    }
}

/// The first message to a remote browser: all of the terminal contents.
pub open spec fn remote_init(b: SessionBufferView) -> JsonView {
    JsonView::object().put_text("type"@, "init"@).put_text(
        "terminal_data"@,
        crypto::b64(b.terminal_data),
    ).put_uint("rows"@, b.rows as u64).put_uint("cols"@, b.cols as u64)
}

/// The first message to a remote browser, after which it has got as far as the
/// contents go; none before there are any.
pub fn init_frame(store: &SessionStore, offset: &mut u64) -> (r: Option<Json>)
    ensures
        match store@ {
            Some(b) => json::opt_view(r) == Some(remote_init(b)) && *final(offset) == b.write_offset,
            None => r is None && *final(offset) == *old(offset),
        },
{
    match store.get() {
        Some(b) => {
            let data = crypto::b64_encode(b.terminal_data.as_slice());
            *offset = b.write_offset;
            Some(
                Json::object().put_text("type", "init").put_text(
                    "terminal_data",
                    data.as_str(),
                ).put_uint("rows", b.rows as u64).put_uint("cols", b.cols as u64),
            )
        },
        None => None,
    }
}

// ── Input from a remote browser ─────────────────────────────────────

/// What to do with a frame from the server.
#[derive(Debug)]
pub enum FrameAction {
    /// The browser has gone: close the local connection.
    EndInput,
    /// Open the local connection for a browser session and take the handshake; with
    /// `reset`, forget the browser before it.
    Connect { reset: bool, session_id: u64 },
    Reply(Json),
    /// Pass the text to the local connection.
    ForwardRaw(String),
    Ignore,
    Decrypt,
}

/// The mathematical value of a [`FrameAction`].
#[verifier::ext_equal]
pub enum FrameActionView {
    EndInput,
    Connect { reset: bool, session_id: u64 },
    Reply(JsonView),
    ForwardRaw(Seq<char>),
    Ignore,
    Decrypt,
}

impl View for FrameAction {
    type V = FrameActionView;

    open spec fn view(&self) -> FrameActionView {
        match self {
            FrameAction::EndInput => FrameActionView::EndInput,
            FrameAction::Connect { reset, session_id } => FrameActionView::Connect {
                reset: *reset,
                session_id: *session_id,
            },
            FrameAction::Reply(a) => FrameActionView::Reply(a@),
            FrameAction::ForwardRaw(a) => FrameActionView::ForwardRaw(a@),
            FrameAction::Ignore => FrameActionView::Ignore,
            FrameAction::Decrypt => FrameActionView::Decrypt,
        }
    }
}

/// The JSON that bytes spell, where they do.
pub open spec fn json_bytes(b: Seq<u8>) -> Option<JsonView> {
    if vstd::utf8::valid_utf8(b) {
        match json::json_value(vstd::utf8::decode_utf8(b)) {
            Ok(j) => Some(j),
            Err(_) => None,
        }
    } else {
        None
    }
}

/// The text and the JSON that bytes spell, where they do.
pub fn parse_bytes(b: &[u8]) -> (r: Option<(String, Json)>)
    ensures
        match r {
            Some((s, j)) => json_bytes(b@) == Some(j@) && vstd::utf8::valid_utf8(b@) && s@
                == vstd::utf8::decode_utf8(b@),
            None => json_bytes(b@) is None,
        },
{
    match bytes::utf8_text(bytes::copy_bytes(b)) {
        Ok(s) => match json::parse(s.as_str()) {
            Ok(j) => Some((s, j)),
            Err(_) => None,
        },
        Err(_) => None,
    }
}

/// The browser session that a handshake names.
pub open spec fn handshake_session(j: JsonView) -> u64 {
    match j.field("session_id"@) {
        Some(v) => match v.as_uint() {
            Some(n) => n,
            None => match v.as_text() {
                Some(s) => match text::parse_unsigned(s, 0xffff_ffff_ffff_ffff) {
                    Some(n) => n as u64,
                    None => 0,
                },
                None => 0,
            },
        },
        None => 0,
    }
}

/// What to do with a JSON frame, whose text is `s`, from the server. Before the
/// handshake only a handshake is taken.
pub open spec fn json_frame_action(s: Seq<char>, j: JsonView, ready: bool) -> FrameActionView {
    let kind = j.text("type"@);
    if kind == Some("browser_disconnected"@) {
        FrameActionView::EndInput
    } else if kind == Some("handshake"@) {
        FrameActionView::Connect { reset: ready, session_id: handshake_session(j) }
    } else if kind == Some("echo_ping"@) {
        FrameActionView::Reply(
            terminal::typed("echo_pong"@).put_text("id"@, j.text_or("id"@, ""@)),
        )
    } else if kind == Some("telemetry"@) || kind == Some("browser_log"@) {
        FrameActionView::ForwardRaw(s)
    } else if ready {
        FrameActionView::Decrypt
    } else {
        FrameActionView::Ignore
    }
}

/// What to do with a frame from the server.
pub open spec fn frame_action(data: Seq<u8>, ready: bool) -> FrameActionView {
    match json_bytes(data) {
        Some(j) => json_frame_action(vstd::utf8::decode_utf8(data), j, ready),
        None => if ready {
            FrameActionView::Decrypt
        } else {
            FrameActionView::Ignore
        },
    }
}

/// What to do with a JSON frame, whose text is `s`, from the server.
pub fn on_json_frame(s: String, j: &Json, ready: bool) -> (r: FrameAction)
    ensures
        r@ == json_frame_action(s@, j@, ready),
{
    if j.is("type", "browser_disconnected") {
        FrameAction::EndInput
    } else if j.is("type", "handshake") {
        let session_id: u64 = match j.get("session_id") {
            Some(v) => match v.as_u64() {
                Some(n) => n,
                None => match v.as_str() {
                    Some(t) => match text::parse_number(t, 0xffff_ffff_ffff_ffff) {
                        Some(n) => n,
                        None => 0,
                    },
                    None => 0,
                },
            },
            None => 0,
        };
        FrameAction::Connect { reset: ready, session_id }
    } else if j.is("type", "echo_ping") {
        let id = j.text_or("id", "");
        FrameAction::Reply(terminal::echo_pong(id.as_str()))
    } else if j.is("type", "telemetry") || j.is("type", "browser_log") {
        FrameAction::ForwardRaw(s)
    } else if ready {
        FrameAction::Decrypt
    } else {
        FrameAction::Ignore
    }
}

/// What to do with a frame from the server. `ready` says whether the handshake is
/// done.
pub fn handle_ec2_frame(data: &[u8], ready: bool) -> (r: FrameAction)
    ensures
        r@ == frame_action(data@, ready),
{
    match parse_bytes(data) {
        Some((s, j)) => on_json_frame(s, &j, ready),
        None => if ready {
            FrameAction::Decrypt
        } else {
            FrameAction::Ignore
        },
    }
}

/// Before the handshake nothing is decrypted.
pub proof fn law_handshake_first(data: Seq<u8>)
    ensures
        !(frame_action(data, false) is Decrypt),
{
}

/// The local URL through which a browser session's input reaches the terminal.
pub fn local_ws_url(web_port: u16, proxy_token: &str, session_id: u64) -> (r: String)
    ensures
        r@ == "ws://127.0.0.1:"@ + text::decimal(web_port as nat) + "/ws-proxy?proxy_token="@
            + proxy_token@ + "&session_id="@ + text::decimal(session_id as nat),
{
    let p = text::to_decimal(web_port as u64);
    let s = text::to_decimal(session_id);
    text::cat6(
        "ws://127.0.0.1:",
        p.as_str(),
        "/ws-proxy?proxy_token=",
        proxy_token,
        "&session_id=",
        s.as_str(),
    )
}

/// The method of a request to the daemon's own web server.
#[derive(Debug, Clone, Copy, PartialEq, Eq, Structural)]
pub enum Method {
    Get,
    Post,
    Put,
    Patch,
    Delete,
}

/// The method that a name stands for; any other name stands for GET.
pub open spec fn method_named(s: Seq<char>) -> Method {
    if s == "POST"@ {
        Method::Post
    } else if s == "PUT"@ {
        Method::Put
    } else if s == "PATCH"@ {
        Method::Patch
    } else if s == "DELETE"@ {
        Method::Delete
    } else {
        Method::Get
    }
}

/// The method that a name stands for; any other name stands for GET.
pub fn method_of(s: &str) -> (r: Method)
    ensures
        r == method_named(s@),
{
    if text::same(s, "POST") {
        Method::Post
    } else if text::same(s, "PUT") {
        Method::Put
    } else if text::same(s, "PATCH") {
        Method::Patch
    } else if text::same(s, "DELETE") {
        Method::Delete
    } else {
        Method::Get
    }
}

/// What to do with a decrypted message from a browser.
#[derive(Debug)]
pub enum PayloadAction {
    /// Ask the daemon's own web server.
    Request { id: String, method: Method, path: String, body: String, content_type: String },
    Reply(Json),
    ForwardText(String),
    ForwardBytes(Vec<u8>),
}

/// The mathematical value of a [`PayloadAction`].
#[verifier::ext_equal]
pub enum PayloadActionView {
    Request { id: Seq<char>, method: Method, path: Seq<char>, body: Seq<char>, content_type: Seq<char> },
    Reply(JsonView),
    ForwardText(Seq<char>),
    ForwardBytes(Seq<u8>),
}

impl View for PayloadAction {
    type V = PayloadActionView;

    open spec fn view(&self) -> PayloadActionView {
        match self {
            PayloadAction::Request { id, method, path, body, content_type } => PayloadActionView::Request {
                id: id@,
                method: *method,
                path: path@,
                body: body@,
                content_type: content_type@,
            },
            PayloadAction::Reply(a) => PayloadActionView::Reply(a@),
            PayloadAction::ForwardText(a) => PayloadActionView::ForwardText(a@),
            PayloadAction::ForwardBytes(a) => PayloadActionView::ForwardBytes(a@),
        }
    }
}

/// The answer to a request, without a content type.
pub open spec fn response_json(id: Seq<char>, status: u16, body: Seq<char>) -> JsonView {
    terminal::typed("http_response"@).put_text("id"@, id).put_uint("status"@, status as u64).put_text(
        "body"@,
        body,
    )
}

/// The content type that a request names.
pub open spec fn request_type(j: JsonView) -> Seq<char> {
    match j.field("headers"@) {
        Some(h) => h.text_or("Content-Type"@, "application/json"@),
        None => "application/json"@,
    }
}

/// What to do with a request. Only the paths under `/api/` are open to it.
pub open spec fn request_action(j: JsonView) -> PayloadActionView {
    let id = j.text_or("id"@, ""@);
    let path = j.text_or("path"@, "/"@);
    if text::starts_with_spec(path, "/api/"@) {
        PayloadActionView::Request {
            id,
            method: method_named(j.text_or("method"@, "GET"@)),
            path,
            body: j.text_or("body"@, ""@),
            content_type: request_type(j),
        }
    } else {
        PayloadActionView::Reply(response_json(id, 403, "{\"error\":\"forbidden\"}"@))
    }
}

/// What to do with a decrypted message from a browser: requests are made, and
/// anything else is input.
pub open spec fn payload_action(b: Seq<u8>) -> PayloadActionView {
    match json_bytes(b) {
        Some(j) => if j.is("type"@, "http_request"@) {
            request_action(j)
        } else {
            PayloadActionView::ForwardText(vstd::utf8::decode_utf8(b))
        },
        None => if vstd::utf8::valid_utf8(b) {
            PayloadActionView::ForwardText(vstd::utf8::decode_utf8(b))
        } else {
            PayloadActionView::ForwardBytes(b)
        },
    }
}

/// What to do with a request.
pub fn on_request(j: &Json) -> (r: PayloadAction)
    ensures
        r@ == request_action(j@),
{
    let id = j.text_or("id", "");
    let path = j.text_or("path", "/");
    if !text::starts_with(path.as_str(), "/api/") {
        return PayloadAction::Reply(
            Json::object().put_text("type", "http_response").put_text("id", id.as_str()).put_uint(
                "status",
                403,
            ).put_text("body", "{\"error\":\"forbidden\"}"),
        );
    }
    let method = j.text_or("method", "GET");
    let content_type = match j.get("headers") {
        Some(h) => h.text_or("Content-Type", "application/json"),
        None => "application/json".to_owned(),
    };
    PayloadAction::Request {
        id,
        method: method_of(method.as_str()),
        path,
        body: j.text_or("body", ""),
        content_type,
    }
}

/// What to do with a decrypted message from a browser.
pub fn on_payload(payload: Vec<u8>) -> (r: PayloadAction)
    ensures
        r@ == payload_action(payload@),
{
    match parse_bytes(payload.as_slice()) {
        Some((s, j)) => if j.is("type", "http_request") {
            on_request(&j)
        } else {
            PayloadAction::ForwardText(s)
        },
        None => match bytes::utf8_text(bytes::copy_bytes(payload.as_slice())) {
            Ok(s) => PayloadAction::ForwardText(s),
            Err(_) => PayloadAction::ForwardBytes(payload),
        },
    }
}

/// A browser's request reaches the daemon's web server only under `/api/`.
pub proof fn law_requests_confined(b: Seq<u8>)
    ensures
        payload_action(b) matches PayloadActionView::Request { id, method, path, body, content_type }
            ==> text::starts_with_spec(path, "/api/"@),
{
}

/// A request under `/api/` is passed on whole: its id, its method, its path, its body and
/// the type of its body, however they were written down.
pub proof fn law_request_passed_on(
    b: Seq<u8>,
    j: JsonView,
    id: Seq<char>,
    method: Seq<char>,
    path: Seq<char>,
    body: Seq<char>,
)
    requires
        json_bytes(b) == Some(j),
        j.text("type"@) == Some("http_request"@),
        j.text("id"@) == Some(id),
        j.text("method"@) == Some(method),
        j.text("path"@) == Some("/api/"@ + path),
        j.text("body"@) == Some(body),
    ensures
        payload_action(b) is Request,
        payload_action(b)->id == id,
        payload_action(b)->path == "/api/"@ + path,
        payload_action(b)->body == body,
        payload_action(b)->method is Post <==> method == "POST"@,
        payload_action(b)->method is Put <==> method == "PUT"@,
        payload_action(b)->method is Patch <==> method == "PATCH"@,
        payload_action(b)->method is Delete <==> method == "DELETE"@,
        j.field("headers"@) is None ==> payload_action(b)->content_type == "application/json"@,
        j.field("headers"@) matches Some(h) ==> (h.text("Content-Type"@) matches Some(x)
            ==> payload_action(b)->content_type == x),
{
    reveal_strlit("POST");
    reveal_strlit("PUT");
    reveal_strlit("PATCH");
    reveal_strlit("DELETE");
    assert("POST"@.len() == 4 && "PUT"@.len() == 3 && "PATCH"@.len() == 5 && "DELETE"@.len() == 6);
    assert(("/api/"@ + path).take("/api/"@.len() as int) =~= "/api/"@);
}

/// Whether a body of the given type has to be carried as base64.
pub open spec fn binary_type(content_type: Seq<char>) -> bool {
    text::starts_with_spec(content_type, "audio/"@) || text::starts_with_spec(
        content_type,
        "image/"@,
    ) || content_type == "application/octet-stream"@
}

/// Whether a body of the given type has to be carried as base64.
pub fn is_binary_type(content_type: &str) -> (r: bool)
    ensures
        r == binary_type(content_type@),
{
    text::starts_with(content_type, "audio/") || text::starts_with(content_type, "image/")
        || text::same(content_type, "application/octet-stream")
}

/// The answer to a request.
pub fn http_response(id: &str, status: u16, body: &str, content_type: &str) -> (r: Json)
    ensures
        r@ == response_json(id@, status, body@).put_text("content_type"@, content_type@),
{
    Json::object().put_text("type", "http_response").put_text("id", id).put_uint(
        "status",
        status as u64,
    ).put_text("body", body).put_text("content_type", content_type)
}

/// The body of an answer as text: binary content is encoded.
pub open spec fn body_text(content_type: Seq<char>, body: Seq<u8>) -> Seq<char> {
    if binary_type(content_type) {
        crypto::b64(body)
    } else {
        bytes::shown_text(body)
    }
}

/// The body that carries the given bytes: base64 for a binary type, else the text
/// that they are shown as.
pub fn response_body(content_type: &str, body: &[u8]) -> (r: String)
    ensures
        r@ == body_text(content_type@, body@),
{
    if is_binary_type(content_type) {
        crypto::b64_encode(body)
    } else {
        bytes::utf8_lossy(body)
    }
}

/// The answer to a request that could not be made.
pub fn http_error(id: &str, error: &str) -> (r: Json)
    ensures
        r@ == response_json(id@, 502, "{\"error\":\""@ + error@ + "\" }"@).put_text(
            "content_type"@,
            "application/json"@,
        ),
{
    let body = text::cat3("{\"error\":\"", error, "\" }");
    http_response(id, 502, body.as_str(), "application/json")
}

// ── Laws ────────────────────────────────────────────────────────────

/// The answer to a request bears the request's number, its status and its body.
pub proof fn law_request_answered(id: Seq<char>, status: u16, body: Seq<char>)
    ensures
        response_json(id, status, body).is("type"@, "http_response"@),
        response_json(id, status, body).text("id"@) == Some(id),
        response_json(id, status, body).uint("status"@) == Some(status as u64),
        response_json(id, status, body).text("body"@) == Some(body),
{
    broadcast use json::lemma_put_field;
    broadcast use json::lemma_object_field;

    reveal_strlit("type");
    reveal_strlit("id");
    reveal_strlit("status");
    reveal_strlit("body");
    assert("type"@.len() == 4 && "id"@.len() == 2 && "status"@.len() == 6 && "body"@.len() == 4);
    assert("type"@[0] != "body"@[0]);
}

/// A daemon registers under its public key, never its secret one, and with its port.
pub proof fn law_registered(secret: Seq<u8>, lan_port: u16)
    ensures
        register_json(secret, lan_port).is("type"@, "register"@),
        register_json(secret, lan_port).text("pubkey"@) == Some(
            crypto::b64(crypto::public_key(secret)),
        ),
        register_json(secret, lan_port).uint("lan_port"@) == Some(lan_port as u64),
        register_json(secret, lan_port).truth("multi_server"@) == Some(true),
{
    broadcast use json::lemma_put_field;
    broadcast use json::lemma_object_field;

    reveal_strlit("type");
    reveal_strlit("pubkey");
    reveal_strlit("lan_port");
    reveal_strlit("multi_server");
    assert("type"@.len() == 4 && "pubkey"@.len() == 6 && "lan_port"@.len() == 8 && "multi_server"@.len() == 12);
}

/// What a relayed frame asks for is done as it says: a handshake connects its session, an
/// echo is answered with its number, and what is sealed is opened only once connected.
pub proof fn law_frames_understood(data: Seq<u8>, j: JsonView, n: u64, id: Seq<char>, ready: bool)
    requires
        json_bytes(data) == Some(j),
    ensures
        j.is("type"@, "handshake"@) && j.uint("session_id"@) == Some(n) ==> frame_action(
            data,
            ready,
        ) == (FrameActionView::Connect { reset: ready, session_id: n }),
        j.is("type"@, "echo_ping"@) && j.is("id"@, id) ==> (frame_action(data, ready) matches
            FrameActionView::Reply(r) && r.is("type"@, "echo_pong"@) && r.text("id"@) == Some(id)),
        j.is("type"@, "browser_disconnected"@) ==> frame_action(data, ready) is EndInput,
        j.is("type"@, "telemetry"@) || j.is("type"@, "browser_log"@) ==> frame_action(data, ready)
            == FrameActionView::ForwardRaw(vstd::utf8::decode_utf8(data)),
        j.text("type"@) is None ==> frame_action(data, true) is Decrypt && frame_action(data, false)
            is Ignore,
{
    broadcast use json::lemma_put_field;
    broadcast use json::lemma_object_field;

    reveal_strlit("type");
    reveal_strlit("id");
    reveal_strlit("browser_disconnected");
    reveal_strlit("handshake");
    reveal_strlit("echo_ping");
    reveal_strlit("telemetry");
    reveal_strlit("browser_log");
    assert("type"@.len() == 4 && "id"@.len() == 2 && "browser_disconnected"@.len() == 20 && "handshake"@.len() == 9 && "echo_ping"@.len() == 9 && "telemetry"@.len() == 9 && "browser_log"@.len() == 11);
    assert("handshake"@[0] != "echo_ping"@[0]);
    assert("handshake"@[0] != "telemetry"@[0]);
    assert("echo_ping"@[0] != "telemetry"@[0]);
}

/// What is no request is passed on as it came.
pub proof fn law_payload_passed_on(b: Seq<u8>)
    ensures
        json_bytes(b) is None && !vstd::utf8::valid_utf8(b) ==> payload_action(b)
            == PayloadActionView::ForwardBytes(b),
        json_bytes(b) is None && vstd::utf8::valid_utf8(b) ==> payload_action(b)
            == PayloadActionView::ForwardText(vstd::utf8::decode_utf8(b)),
        json_bytes(b) matches Some(j) ==> !j.is("type"@, "http_request"@) ==> payload_action(b)
            == PayloadActionView::ForwardText(vstd::utf8::decode_utf8(b)),
{
}

/// A browser far away sees the terminal whole, with its size.
pub proof fn law_remote_sees_all(b: SessionBufferView)
    ensures
        remote_init(b).is("type"@, "init"@),
        remote_init(b).text("terminal_data"@) == Some(crypto::b64(b.terminal_data)),
        remote_init(b).uint("rows"@) == Some(b.rows as u64),
        remote_init(b).uint("cols"@) == Some(b.cols as u64),
{
    broadcast use json::lemma_put_field;
    broadcast use json::lemma_object_field;

    reveal_strlit("type");
    reveal_strlit("terminal_data");
    reveal_strlit("rows");
    reveal_strlit("cols");
    assert("type"@.len() == 4 && "terminal_data"@.len() == 13 && "rows"@.len() == 4 && "cols"@.len() == 4);
    assert("type"@[0] != "rows"@[0]);
    assert("type"@[0] != "cols"@[0]);
    assert("rows"@[0] != "cols"@[0]);
}

/// A browser far away is told of speech and notices as one nearby, with all that they
/// say; of messages between agents it is told only what is meant for the screen.
pub proof fn law_remote_told(e: AgentEventView)
    ensures
        match e {
            AgentEventView::Tts { text, msg_id, voice } => remote_message(e) matches Some(j)
                && j.text("text"@) == Some(text) && j.text("msg_id"@) == Some(msg_id),
            AgentEventView::TtsStream { msg_id, text, .. } => remote_message(e) matches Some(j)
                && j.text("text"@) == Some(text) && j.text("msg_id"@) == Some(msg_id),
            AgentEventView::TtsGenerating { msg_id, chunk, total } => remote_message(
                e,
            ) matches Some(j) && j.text("msg_id"@) == Some(msg_id) && j.uint("chunk"@) == Some(chunk)
                && j.uint("total"@) == Some(total),
            AgentEventView::Transcription { text } => remote_message(e) matches Some(j) && j.text(
                "text"@,
            ) == Some(text),
            AgentEventView::Led { emotion } => remote_message(e) matches Some(j) && j.text(
                "emotion"@,
            ) == Some(emotion),
            AgentEventView::BrowserEval { eval_id, code, session_id } => remote_message(
                e,
            ) matches Some(j) && j.text("eval_id"@) == Some(eval_id) && j.text("code"@) == Some(code),
            AgentEventView::Hive { sender, text } => if sender == "info"@ {
                remote_message(e) matches Some(j) && j.is("type"@, "info"@) && j.text("html"@)
                    == Some(text)
            } else {
                remote_message(e) is None
            },
            AgentEventView::HiveRoom { .. } => remote_message(e) is None,
            AgentEventView::Notification { title, body, level, action } => remote_message(
                e,
            ) matches Some(j) && j.is("type"@, "notification"@) && j.text("title"@) == Some(title)
                && j.text("body"@) == Some(body) && j.text("level"@) == Some(level) && j.field(
                "action"@,
            ) == action,
            _ => true,
        },
{
    terminal::law_events_told(e, Seq::empty());
    broadcast use json::lemma_put_field;
    broadcast use json::lemma_object_field;

    reveal_strlit("type");
    reveal_strlit("title");
    reveal_strlit("body");
    reveal_strlit("level");
    reveal_strlit("action");
    reveal_strlit("html");
    assert("type"@.len() == 4 && "title"@.len() == 5 && "body"@.len() == 4 && "level"@.len() == 5 && "action"@.len() == 6 && "html"@.len() == 4);
    assert("type"@[0] != "body"@[0]);
    assert("type"@[0] != "html"@[0]);
    assert("body"@[0] != "html"@[0]);
    assert("title"@[0] != "level"@[0]);
}

/// The body of an answer is passed on whole: text as it is, and audio, images and other
/// bytes encoded.
pub proof fn law_body_passed_on(s: Seq<char>, b: Seq<u8>, kind: Seq<char>)
    ensures
        body_text("application/json"@, vstd::utf8::encode_utf8(s)) == s,
        body_text("audio/"@ + kind, b) == crypto::b64(b),
        body_text("image/"@ + kind, b) == crypto::b64(b),
        body_text("application/octet-stream"@, b) == crypto::b64(b),
{
    reveal_strlit("application/json");
    reveal_strlit("application/octet-stream");
    reveal_strlit("audio/");
    reveal_strlit("image/");
    bytes::law_shown_text(s);
    let j = "application/json"@;
    assert(j.take(6)[1] == 'p' && "audio/"@[1] == 'u' && "image/"@[1] == 'm');
    assert(("audio/"@ + kind).take(6) =~= "audio/"@);
    assert(("image/"@ + kind).take(6) =~= "image/"@);
    assert(j.len() != "application/octet-stream"@.len());
}

/// The domain of a server is what stands in its URL between the scheme and the path.
pub proof fn law_domain(name: Seq<char>, rest: Seq<char>)
    requires
        text::lacks(name, '/'),
        name.len() > 0,
        name[0] != 'h',
        name[0] != 'w',
    ensures
        domain_of("https://"@ + name + "/"@ + rest) == name,
        domain_of(name) == name,
{
    reveal_strlit("https://");
    reveal_strlit("/");
    assert("/"@ =~= seq!['/']);
    let a = name + seq!['/'] + rest;
    let p = "https://"@;
    let u = p + a;
    assert(p + name + "/"@ + rest =~= u);
    assert(u.take(8) =~= p);
    assert(u.skip(8) =~= a);
    lemma_no_scheme(a);
    lemma_no_scheme(name);
    assert(text::strip_all(u, p) == text::strip_all(a, p));
    text::law_before(name, '/', rest);
}

proof fn lemma_no_scheme(a: Seq<char>)
    requires
        a.len() > 0,
        a[0] != 'h',
        a[0] != 'w',
    ensures
        text::strip_all(a, "https://"@) == a,
        text::strip_all(a, "http://"@) == a,
        text::strip_all(a, "wss://"@) == a,
        text::strip_all(a, "ws://"@) == a,
{
    reveal_strlit("https://");
    reveal_strlit("http://");
    reveal_strlit("wss://");
    reveal_strlit("ws://");
    assert(a.len() >= 8 ==> a.take(8)[0] == a[0]);
    assert(a.len() >= 7 ==> a.take(7)[0] == a[0]);
    assert(a.len() >= 6 ==> a.take(6)[0] == a[0]);
    assert(a.len() >= 5 ==> a.take(5)[0] == a[0]);
}

} // verus!
