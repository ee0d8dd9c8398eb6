//! The terminal connection of a browser: who may open it, what it is sent and
//! what it may ask for.

use vstd::prelude::*;

use crate::config;
use crate::config::Config;
use crate::events::{AgentEvent, AgentEventView, Received};
use crate::ids::IdMap;
use crate::json;
use crate::json::{Json, JsonView};
use crate::session;
use crate::session::{SessionBufferView, SessionStore};
use crate::text;

verus! {

/// What arrives from a browser that has not given the password.
#[derive(Debug)]
pub enum AuthInput {
    Text(String),
    Binary(Vec<u8>),
    Closed,
    Other,
}

/// The mathematical value of an [`AuthInput`].
#[verifier::ext_equal]
pub enum AuthInputView {
    Text(Seq<char>),
    Binary(Seq<u8>),
    Closed,
    Other,
}

impl View for AuthInput {
    type V = AuthInputView;

    open spec fn view(&self) -> AuthInputView {
        match self {
            AuthInput::Text(a) => AuthInputView::Text(a@),
            AuthInput::Binary(a) => AuthInputView::Binary(a@),
            AuthInput::Closed => AuthInputView::Closed,
            AuthInput::Other => AuthInputView::Other,
        }
    }
}

/// What to do with it.
#[derive(Debug)]
pub enum AuthStep {
    Wait,
    /// Keep the frame until the session is set up.
    Buffer(Vec<u8>),
    /// Say that the password is wrong and wait on.
    Refuse,
    Accept,
    End,
}

/// The mathematical value of an [`AuthStep`].
#[verifier::ext_equal]
pub enum AuthStepView {
    Wait,
    Buffer(Seq<u8>),
    Refuse,
    Accept,
    End,
}

impl View for AuthStep {
    type V = AuthStepView;

    open spec fn view(&self) -> AuthStepView {
        match self {
            AuthStep::Wait => AuthStepView::Wait,
            AuthStep::Buffer(a) => AuthStepView::Buffer(a@),
            AuthStep::Refuse => AuthStepView::Refuse,
            AuthStep::Accept => AuthStepView::Accept,
            AuthStep::End => AuthStepView::End,
        }
    }
}

/// What a text frame from a browser asks for.
#[derive(Debug)]
pub enum Inbound {
    Ignore,
    Resize { rows: u16, cols: u16 },
    EchoPong { id: String },
    Version { version: String },
    BrowserInfo { user_agent: Option<String>, volume: Option<u8>, audio_context: Option<bool> },
    EvalResult { eval_id: String, result: String },
    /// How many frames the browser has seen.
    FramesIn { count: u64 },
    Log { lines: Vec<String> },
    SttLost { seq: u64, duration: Option<Json>, energy: Option<Json> },
    TtsLost { msg_id: String, text: String, error: String, stage: String },
    RtcInactive,
    /// Keystrokes.
    Input { data: String },
}

/// The mathematical value of an [`Inbound`].
#[verifier::ext_equal]
pub enum InboundView {
    Ignore,
    Resize { rows: u16, cols: u16 },
    EchoPong { id: Seq<char> },
    Version { version: Seq<char> },
    BrowserInfo { user_agent: Option<Seq<char>>, volume: Option<u8>, audio_context: Option<bool> },
    EvalResult { eval_id: Seq<char>, result: Seq<char> },
    FramesIn { count: u64 },
    Log { lines: Seq<Seq<char>> },
    SttLost { seq: u64, duration: Option<JsonView>, energy: Option<JsonView> },
    TtsLost { msg_id: Seq<char>, text: Seq<char>, error: Seq<char>, stage: Seq<char> },
    RtcInactive,
    Input { data: Seq<char> },
}

impl View for Inbound {
    type V = InboundView;

    open spec fn view(&self) -> InboundView {
        match self {
            Inbound::Ignore => InboundView::Ignore,
            Inbound::Resize { rows, cols } => InboundView::Resize {
                rows: *rows,
                cols: *cols,
            },
            Inbound::EchoPong { id } => InboundView::EchoPong {
                id: id@,
            },
            Inbound::Version { version } => InboundView::Version {
                version: version@,
            },
            Inbound::BrowserInfo { user_agent, volume, audio_context } => InboundView::BrowserInfo {
                user_agent: crate::config::opt_string(*user_agent),
                volume: *volume,
                audio_context: *audio_context,
            },
            Inbound::EvalResult { eval_id, result } => InboundView::EvalResult {
                eval_id: eval_id@,
                result: result@,
            },
            Inbound::FramesIn { count } => InboundView::FramesIn {
                count: *count,
            },
            Inbound::Log { lines } => InboundView::Log {
                lines: crate::text::views(lines@),
            },
            Inbound::SttLost { seq, duration, energy } => InboundView::SttLost {
                seq: *seq,
                duration: crate::json::opt_view(*duration),
                energy: crate::json::opt_view(*energy),
            },
            Inbound::TtsLost { msg_id, text, error, stage } => InboundView::TtsLost {
                msg_id: msg_id@,
                text: text@,
                error: error@,
                stage: stage@,
            },
            Inbound::RtcInactive => InboundView::RtcInactive,
            Inbound::Input { data } => InboundView::Input {
                data: data@,
            },
        }
    }
}

/// What a session sends for an event.
#[derive(Debug)]
pub enum Emission {
    Nothing,
    Critical(Json),
    BestEffort(Json),
    /// The session reads no more events.
    Stop,
}

/// The mathematical value of an [`Emission`].
#[verifier::ext_equal]
pub enum EmissionView {
    Nothing,
    Critical(JsonView),
    BestEffort(JsonView),
    Stop,
}

impl View for Emission {
    type V = EmissionView;

    open spec fn view(&self) -> EmissionView {
        match self {
            Emission::Nothing => EmissionView::Nothing,
            Emission::Critical(a) => EmissionView::Critical(a@),
            Emission::BestEffort(a) => EmissionView::BestEffort(a@),
            Emission::Stop => EmissionView::Stop,
        }
    }
}

// ── Password ────────────────────────────────────────────────────────

/// The message that asks for the password.
pub open spec fn auth_required_json() -> JsonView {
    JsonView::object().put_text("type"@, "auth_required"@)
}

/// The message that asks for the password.
pub fn auth_required() -> (r: Json)
    ensures
        r@ == auth_required_json(),
{
    Json::object().put_text("type", "auth_required")
}

/// The message that refuses a password.
pub open spec fn auth_failed_json() -> JsonView {
    JsonView::object().put_text("type"@, "auth_failed"@).put_text(
        "error"@,
        "Invalid daemon password"@,
    )
}

/// The message that refuses a password.
pub fn auth_failed() -> (r: Json)
    ensures
        r@ == auth_failed_json(),
{
    Json::object().put_text("type", "auth_failed").put_text("error", "Invalid daemon password")
}

/// The message that accepts a password.
pub open spec fn auth_ok_json() -> JsonView {
    JsonView::object().put_text("type"@, "auth_ok"@)
}

/// The message that accepts a password.
pub fn auth_ok() -> (r: Json)
    ensures
        r@ == auth_ok_json(),
{
    Json::object().put_text("type", "auth_ok")
}

/// Whether a message gives a password that the hash lets in.
pub open spec fn gives_password(j: JsonView, hash: Seq<char>) -> bool {
    j.is("type"@, "auth"@) && (match j.text("password"@) {
        Some(p) => config::password_ok(p, hash),
        None => false,
    })
}

/// What to do with a message before the password was given.
pub open spec fn auth_message_step(j: JsonView, hash: Seq<char>) -> AuthStepView {
    if gives_password(j, hash) {
        AuthStepView::Accept
    } else if j.is("type"@, "auth"@) {
        AuthStepView::Refuse
    } else {
        AuthStepView::Wait
    }
}

/// What to do with what arrives before the password was given.
pub open spec fn auth_step_of(input: AuthInputView, hash: Seq<char>) -> AuthStepView {
    match input {
        AuthInputView::Text(s) => match json::json_value(s) {
            Ok(j) => auth_message_step(j, hash),
            Err(_) => AuthStepView::Wait,
        },
        AuthInputView::Binary(b) => AuthStepView::Buffer(b),
        AuthInputView::Closed => AuthStepView::End,
        AuthInputView::Other => AuthStepView::Wait,
    }
}

/// What to do with a message before the password was given: a password is
/// checked, any other message is passed over.
pub fn auth_message(val: &Json, hash: &str) -> (r: AuthStep)
    ensures
        r@ == auth_message_step(val@, hash@),
{
    if val.is("type", "auth") {
        let ok: bool = match val.text("password") {
            Some(p) => Config::verify_daemon_password(p.as_str(), hash),
            None => false,
        };
        if ok {
            AuthStep::Accept
        } else {
            AuthStep::Refuse
        }
    } else {
        AuthStep::Wait
    }
}

/// What to do with what arrives before the password was given. Binary frames are
/// kept: the browser sends the first before it is asked for the password.
pub fn auth_step(input: AuthInput, hash: &str) -> (r: AuthStep)
    ensures
        r@ == auth_step_of(input@, hash@),
{
    match input {
        AuthInput::Text(s) => match json::parse(s.as_str()) {
            Ok(val) => auth_message(&val, hash),
            Err(_) => AuthStep::Wait,
        },
        AuthInput::Binary(b) => AuthStep::Buffer(b),
        AuthInput::Closed => AuthStep::End,
        AuthInput::Other => AuthStep::Wait,
    }
}

/// A connection is accepted only on a message that gives the right password.
pub proof fn law_accept_needs_password(input: AuthInputView, hash: Seq<char>)
    requires
        auth_step_of(input, hash) is Accept,
    ensures
        input matches AuthInputView::Text(s) && json::json_value(s) matches Ok(j)
            && gives_password(j, hash),
{
}

/// The greeting of a session, or the refusal of a connection that names none.
pub fn greet(session_id: Option<u64>) -> (r: Result<Json, Json>)
    ensures
        match session_id {
            Some(id) => r matches Ok(j) && j@ == JsonView::object().put_text(
                "type"@,
                "welcome"@,
            ).put_uint("session_id"@, id),
            None => r matches Err(j) && j@ == JsonView::object().put_text(
                "type"@,
                "error"@,
            ).put_text("message"@, "session_id query param required"@),
        },
{
    match session_id {
        Some(id) => Ok(Json::object().put_text("type", "welcome").put_uint("session_id", id)),
        None => Err(
            Json::object().put_text("type", "error").put_text(
                "message",
                "session_id query param required",
            ),
        ),
    }
}

/// The message that keeps an idle connection open.
pub fn heartbeat() -> (r: Json)
    ensures
        r@ == JsonView::object().put_text("type"@, "heartbeat"@),
{
    Json::object().put_text("type", "heartbeat")
}

// ── Sessions ────────────────────────────────────────────────────────

/// How long a session may be silent before it is taken for abandoned.
pub const STALE_SESSION_SECS: u64 = 120;

/// Whether a session is abandoned: it is another one, and it has gone or was
/// silent for too long. `silent` holds the seconds since each was last heard.
pub open spec fn is_stale(id: u64, current: u64, silent: Map<u64, u64>) -> bool {
    id != current && (!silent.dom().contains(id) || silent[id] > STALE_SESSION_SECS)
}

/// The abandoned sessions, when the session `current` connects.
pub fn stale_sessions(current: u64, sessions: &[u64], silent: &IdMap<u64>) -> (r: Vec<u64>)
    ensures
        r@ == sessions@.filter(|id: u64| is_stale(id, current, silent@)),
{
    let mut out: Vec<u64> = Vec::new();
    let ghost stale = |id: u64| is_stale(id, current, silent@);
    let mut i: usize = 0;
    assert(sessions@.take(0).filter(stale) =~= Seq::empty()) by {
        reveal(Seq::filter);
    }
    while i < sessions.len()
        invariant
            i <= sessions.len(),
            stale == (|id: u64| is_stale(id, current, silent@)),
            out@ == sessions@.take(i as int).filter(stale),
        decreases sessions.len() - i,
    {
        let id: u64 = sessions[i];
        assert(sessions@.take(i + 1).filter(stale) == (if stale(id) {
            sessions@.take(i as int).filter(stale).push(id)
        } else {
            sessions@.take(i as int).filter(stale)
        })) by {
            reveal(Seq::filter);
            assert(sessions@.take(i + 1).drop_last() =~= sessions@.take(i as int));
        }
        let gone: bool = match silent.get(id) {
            Some(secs) => *secs > STALE_SESSION_SECS,
            None => true,
        };
        if id != current && gone {
            out.push(id);
        }
        i = i + 1;
    }
    assert(sessions@.take(sessions@.len() as int) =~= sessions@);
    out
}

/// How long, in seconds, a session waits for its browser to come back.
pub fn cleanup_timeout(rtc_active: bool) -> (r: u64)
    ensures
        r == (if rtc_active {
            1800u64
        } else {
            300u64
        }),
{
    if rtc_active {
        1800
    } else {
        300
    }
}

// ── Events to the browser ───────────────────────────────────────────

/// How far a session has sent, and how often in a row it could not keep up.
#[derive(Debug)]
pub struct Consumer {
    pub sent_offset: u64,
    pub lags: u32,
}

/// How often in a row a session may fail to keep up.
pub const MAX_LAGS: u32 = 5;

/// The message for terminal output that a session has not sent yet.
pub open spec fn delta_emission(store: Option<SessionBufferView>, offset: u64) -> (
    EmissionView,
    u64,
) {
    match session::delta_of(store, offset) {
        Some((j, n)) => (EmissionView::BestEffort(j), n),
        None => (EmissionView::Nothing, offset),
    }
}

/// A message of the given type.
pub open spec fn typed(kind: Seq<char>) -> JsonView {
    JsonView::object().put_text("type"@, kind)
}

/// What a session sends for an event other than new terminal output. Speech goes
/// over the peer connection where there is one.
pub open spec fn event_emission(
    e: AgentEventView,
    rtc_active: bool,
    members: Seq<Seq<char>>,
) -> EmissionView {
    match e {
        AgentEventView::Transcription { text } => EmissionView::Critical(
            typed("transcription"@).put_text("text"@, text),
        ),
        AgentEventView::Hive { sender, text } => EmissionView::BestEffort(
            typed("hive_dm"@).put_text("sender"@, sender).put_text("text"@, text),
        ),
        AgentEventView::HiveRoom { sender, room_id, room_topic, text } => EmissionView::BestEffort(
            typed("hive_room"@).put_text("sender"@, sender).put_text("room_id"@, room_id).put_text(
                "room_topic"@,
                room_topic,
            ).put_text("text"@, text).put("members"@, json::texts(members)),
        ),
        AgentEventView::Tts { text, msg_id, voice } => if rtc_active {
            EmissionView::Nothing
        } else {
            EmissionView::Critical(
                typed("tts"@).put_text("text"@, text).put_text("msg_id"@, msg_id).put_text(
                    "voice"@,
                    voice,
                ),
            )
        },
        AgentEventView::TtsGenerating { msg_id, chunk, total } => if rtc_active {
            EmissionView::Nothing
        } else {
            EmissionView::BestEffort(
                typed("tts_generating"@).put_text("msg_id"@, msg_id).put_uint(
                    "chunk"@,
                    chunk,
                ).put_uint("total"@, total),
            )
        },
        AgentEventView::TtsStream {
            msg_id,
            text,
            original_text,
            voice,
            emotion,
            replying_to,
            split_chars,
            min_chunk_chars,
            conditionals_b64,
        } => if rtc_active {
            EmissionView::Nothing
        } else {
            EmissionView::Critical(
                typed("tts_stream"@).put_text("msg_id"@, msg_id).put_text("text"@, text).put_text(
                    "original_text"@,
                    original_text,
                ).put_text("voice"@, voice).put_text("emotion"@, emotion).put_text(
                    "replying_to"@,
                    replying_to,
                ).put_text("split_chars"@, split_chars).put_uint(
                    "min_chunk_chars"@,
                    min_chunk_chars,
                ).put_text("conditionals_b64"@, conditionals_b64),
            )
        },
        AgentEventView::Led { emotion } => EmissionView::BestEffort(
            typed("led"@).put_text("emotion"@, emotion),
        ),
        AgentEventView::BrowserEval { eval_id, code, session_id } => EmissionView::Critical(
            ({
                let m = typed("browser_eval"@).put_text("eval_id"@, eval_id).put_text(
                    "code"@,
                    code,
                );
                match session_id {
                    Some(id) => m.put_uint("target_session_id"@, id),
                    None => m,
                }
            }),
        ),
        _ => EmissionView::Nothing,
    }
}

/// What a session sends for what it receives, and its offset and count of lags
/// after it.
pub open spec fn consumed(
    offset: u64,
    lags: u32,
    r: Received<AgentEvent>,
    store: Option<SessionBufferView>,
    rtc_active: bool,
    members: Seq<Seq<char>>,
) -> (EmissionView, u64, u32) {
    match r {
        Received::Item(e) => match e@ {
            AgentEventView::SessionUpdated { size } => {
                let (m, n) = delta_emission(store, offset);
                (m, n, 0)
            },
            other => (event_emission(other, rtc_active, members), offset, 0),
        },
        Received::Lagged(_) => if lags + 1 >= MAX_LAGS {
            (EmissionView::Stop, offset, (lags + 1) as u32)
        } else {
            let (m, n) = delta_emission(store, offset);
            (m, n, (lags + 1) as u32)
        },
        Received::Closed => (EmissionView::Stop, offset, lags),
    }
}

/// A message of the given type.
fn typed_message(kind: &str) -> (r: Json)
    ensures
        r@ == typed(kind@),
{
    Json::object().put_text("type", kind)
}

/// What a session sends for an event other than new terminal output.
pub fn emit(e: &AgentEvent, rtc_active: bool, members: &[String]) -> (r: Emission)
    ensures
        r@ == event_emission(e@, rtc_active, text::views(members@)),
{
    match e {
        AgentEvent::Transcription { text } => Emission::Critical(
            typed_message("transcription").put_text("text", text.as_str()),
        ),
        AgentEvent::Hive { sender, text } => Emission::BestEffort(
            typed_message("hive_dm").put_text("sender", sender.as_str()).put_text(
                "text",
                text.as_str(),
            ),
        ),
        AgentEvent::HiveRoom { sender, room_id, room_topic, text } => Emission::BestEffort(
            typed_message("hive_room").put_text("sender", sender.as_str()).put_text(
                "room_id",
                room_id.as_str(),
            ).put_text("room_topic", room_topic.as_str()).put_text("text", text.as_str()).put(
                "members",
                Json::texts(members),
            ),
        ),
        AgentEvent::Tts { text, msg_id, voice } => if rtc_active {
            Emission::Nothing
        } else {
            Emission::Critical(
                typed_message("tts").put_text("text", text.as_str()).put_text(
                    "msg_id",
                    msg_id.as_str(),
                ).put_text("voice", voice.as_str()),
            )
        },
        AgentEvent::TtsGenerating { msg_id, chunk, total } => if rtc_active {
            Emission::Nothing
        } else {
            Emission::BestEffort(
                typed_message("tts_generating").put_text("msg_id", msg_id.as_str()).put_uint(
                    "chunk",
                    *chunk,
                ).put_uint("total", *total),
            )
        },
        AgentEvent::TtsStream {
            msg_id,
            text,
            original_text,
            voice,
            emotion,
            replying_to,
            split_chars,
            min_chunk_chars,
            conditionals_b64,
        } => if rtc_active {
            Emission::Nothing
        } else {
            Emission::Critical(
                typed_message("tts_stream").put_text("msg_id", msg_id.as_str()).put_text(
                    "text",
                    text.as_str(),
                ).put_text("original_text", original_text.as_str()).put_text(
                    "voice",
                    voice.as_str(),
                ).put_text("emotion", emotion.as_str()).put_text(
                    "replying_to",
                    replying_to.as_str(),
                ).put_text("split_chars", split_chars.as_str()).put_uint(
                    "min_chunk_chars",
                    *min_chunk_chars,
                ).put_text("conditionals_b64", conditionals_b64.as_str()),
            )
        },
        AgentEvent::Led { emotion } => Emission::BestEffort(
            typed_message("led").put_text("emotion", emotion.as_str()),
        ),
        AgentEvent::BrowserEval { eval_id, code, session_id } => {
            let m = typed_message("browser_eval").put_text("eval_id", eval_id.as_str()).put_text(
                "code",
                code.as_str(),
            );
            match session_id {
                Some(id) => Emission::Critical(m.put_uint("target_session_id", *id)),
                None => Emission::Critical(m),
            }
        },
        _ => Emission::Nothing,
    }
}

/// What a message carries.
pub open spec fn carried(m: EmissionView) -> JsonView {
    match m {
        EmissionView::Critical(j) => j,
        EmissionView::BestEffort(j) => j,
        _ => JsonView::Null,
    }
}

/// A browser is told everything that an event says: which event it is, and each of its
/// parts under its own name. What must not be lost is sent as such.
pub proof fn law_events_told(e: AgentEventView, members: Seq<Seq<char>>)
    ensures
        ({
            let m = event_emission(e, false, members);
            let j = carried(m);
            match e {
                AgentEventView::Transcription { text } => m is Critical && j.is(
                    "type"@,
                    "transcription"@,
                ) && j.text("text"@) == Some(text),
                AgentEventView::Hive { sender, text } => m is BestEffort && j.is(
                    "type"@,
                    "hive_dm"@,
                ) && j.text("sender"@) == Some(sender) && j.text("text"@) == Some(text),
                AgentEventView::HiveRoom { sender, room_id, room_topic, text } => m is BestEffort
                    && j.is("type"@, "hive_room"@) && j.text("sender"@) == Some(sender) && j.text(
                    "room_id"@,
                ) == Some(room_id) && j.text("room_topic"@) == Some(room_topic) && j.text("text"@)
                    == Some(text) && json::text_items(j.items("members"@)) == members,
                AgentEventView::Tts { text, msg_id, voice } => m is Critical && j.is(
                    "type"@,
                    "tts"@,
                ) && j.text("text"@) == Some(text) && j.text("msg_id"@) == Some(msg_id) && j.text(
                    "voice"@,
                ) == Some(voice),
                AgentEventView::TtsGenerating { msg_id, chunk, total } => m is BestEffort && j.is(
                    "type"@,
                    "tts_generating"@,
                ) && j.text("msg_id"@) == Some(msg_id) && j.uint("chunk"@) == Some(chunk)
                    && j.uint("total"@) == Some(total),
                AgentEventView::TtsStream {
                    msg_id,
                    text,
                    original_text,
                    voice,
                    emotion,
                    replying_to,
                    split_chars,
                    min_chunk_chars,
                    conditionals_b64,
                } => m is Critical && j.is("type"@, "tts_stream"@) && j.text("msg_id"@) == Some(
                    msg_id,
                ) && j.text("text"@) == Some(text) && j.text("original_text"@) == Some(
                    original_text,
                ) && j.text("voice"@) == Some(voice) && j.text("emotion"@) == Some(emotion)
                    && j.text("replying_to"@) == Some(replying_to) && j.text("split_chars"@)
                    == Some(split_chars) && j.uint("min_chunk_chars"@) == Some(min_chunk_chars)
                    && j.text("conditionals_b64"@) == Some(conditionals_b64),
                AgentEventView::Led { emotion } => m is BestEffort && j.is("type"@, "led"@)
                    && j.text("emotion"@) == Some(emotion),
                AgentEventView::BrowserEval { eval_id, code, session_id } => m is Critical && j.is(
                    "type"@,
                    "browser_eval"@,
                ) && j.text("eval_id"@) == Some(eval_id) && j.text("code"@) == Some(code)
                    && j.uint("target_session_id"@) == session_id,
                _ => true,
            }
        }),
{
    broadcast use json::lemma_put_field;
    broadcast use json::lemma_object_field;

    reveal_strlit("type");
    reveal_strlit("text");
    reveal_strlit("sender");
    reveal_strlit("room_id");
    reveal_strlit("room_topic");
    reveal_strlit("members");
    reveal_strlit("msg_id");
    reveal_strlit("voice");
    reveal_strlit("chunk");
    reveal_strlit("total");
    reveal_strlit("original_text");
    reveal_strlit("emotion");
    reveal_strlit("replying_to");
    reveal_strlit("split_chars");
    reveal_strlit("min_chunk_chars");
    reveal_strlit("conditionals_b64");
    reveal_strlit("eval_id");
    reveal_strlit("code");
    reveal_strlit("target_session_id");
    assert("type"@.len() == 4 && "text"@.len() == 4 && "sender"@.len() == 6 && "room_id"@.len() == 7 && "room_topic"@.len() == 10 && "members"@.len() == 7 && "msg_id"@.len() == 6 && "voice"@.len() == 5 && "chunk"@.len() == 5 && "total"@.len() == 5 && "original_text"@.len() == 13 && "emotion"@.len() == 7 && "replying_to"@.len() == 11 && "split_chars"@.len() == 11 && "min_chunk_chars"@.len() == 15 && "conditionals_b64"@.len() == 16 && "eval_id"@.len() == 7 && "code"@.len() == 4 && "target_session_id"@.len() == 17);
    assert("type"@[1] != "text"@[1]);
    assert("type"@[0] != "code"@[0]);
    assert("text"@[0] != "code"@[0]);
    assert("sender"@[0] != "msg_id"@[0]);
    assert("room_id"@[0] != "members"@[0]);
    assert("room_id"@[0] != "emotion"@[0]);
    assert("room_id"@[0] != "eval_id"@[0]);
    assert("members"@[0] != "emotion"@[0]);
    assert("members"@[0] != "eval_id"@[0]);
    assert("emotion"@[1] != "eval_id"@[1]);
    assert("voice"@[0] != "chunk"@[0]);
    assert("voice"@[0] != "total"@[0]);
    assert("chunk"@[0] != "total"@[0]);
    assert("replying_to"@[0] != "split_chars"@[0]);
    json::law_texts(members);
}

/// A peer connection changes nothing for a browser but that speech does not come over
/// the WebSocket then.
pub proof fn law_peer_takes_speech(e: AgentEventView, members: Seq<Seq<char>>)
    ensures
        (e is Tts || e is TtsGenerating || e is TtsStream) ==> event_emission(
            e,
            true,
            members,
        ) is Nothing,
        !(e is Tts || e is TtsGenerating || e is TtsStream) ==> event_emission(e, true, members)
            == event_emission(e, false, members),
{
}

impl Consumer {
    /// A session that has sent the first `offset` bytes.
    pub fn new(offset: u64) -> (r: Self)
        ensures
            r.sent_offset == offset,
            r.lags == 0,
    {
        Consumer { sent_offset: offset, lags: 0 }
    }

    /// The message for terminal output that was not sent yet.
    fn delta(&mut self, store: &SessionStore) -> (r: Emission)
        ensures
            (r@, final(self).sent_offset) == delta_emission(store@, old(self).sent_offset),
            final(self).lags == old(self).lags,
    {
        match store.delta_msg(self.sent_offset) {
            Some((msg, n)) => {
                self.sent_offset = n;
                Emission::BestEffort(msg)
            },
            None => Emission::Nothing,
        }
    }

    /// What to send for what was received. `members` are those of the room that
    /// the event is about.
    pub fn step(
        &mut self,
        received: &Received<AgentEvent>,
        store: &SessionStore,
        rtc_active: bool,
        members: &[String],
    ) -> (r: Emission)
        requires
            old(self).lags < MAX_LAGS,
        ensures
            (r@, final(self).sent_offset, final(self).lags) == consumed(
                old(self).sent_offset,
                old(self).lags,
                *received,
                store@,
                rtc_active,
                text::views(members@),
            ),
            !(r@ is Stop) ==> final(self).lags < MAX_LAGS,
    {
        match received {
            Received::Item(e) => {
                self.lags = 0;
                match e {
                    AgentEvent::SessionUpdated { size } => self.delta(store),
                    _ => emit(e, rtc_active, members),
                }
            },
            Received::Lagged(_) => {
                self.lags = self.lags + 1;
                if self.lags >= MAX_LAGS {
                    Emission::Stop
                } else {
                    self.delta(store)
                }
            },
            Received::Closed => Emission::Stop,
        }
    }
}

// ── Messages from the browser ───────────────────────────────────────

/// The low 16 bits of a number.
pub open spec fn low16(n: u64) -> u16 {
    (n % 65536) as u16
}

/// A volume, at most 100.
pub open spec fn volume_of(v: Option<u64>) -> Option<u8> {
    match v {
        Some(n) => Some(
            if n > 100 {
                100
            } else {
                n as u8
            },
        ),
        None => None,
    }
}

/// What a JSON message from a browser asks for.
pub open spec fn message_of(j: JsonView) -> InboundView {
    let kind = j.text("type"@);
    if kind == Some("resize"@) {
        let rows = low16(j.uint_or("rows"@, 24));
        let cols = low16(j.uint_or("cols"@, 80));
        if rows > 0 && cols > 0 {
            InboundView::Resize { rows, cols }
        } else {
            InboundView::Ignore
        }
    } else if kind == Some("pong"@) {
        InboundView::Ignore
    } else if kind == Some("echo_ping"@) {
        InboundView::EchoPong { id: j.text_or("id"@, ""@) }
    } else if kind == Some("version"@) {
        InboundView::Version {
            version: j.text_or("js_version"@, j.text_or("server_version"@, "unknown"@)),
        }
    } else if kind == Some("browser_info"@) {
        InboundView::BrowserInfo {
            user_agent: j.text("user_agent"@),
            volume: volume_of(j.uint("volume"@)),
            audio_context: j.truth("audio_context"@),
        }
    } else if kind == Some("volume_change"@) {
        InboundView::BrowserInfo {
            user_agent: None,
            volume: volume_of(j.uint("volume"@)),
            audio_context: None,
        }
    } else if kind == Some("audio_context_change"@) {
        InboundView::BrowserInfo {
            user_agent: None,
            volume: None,
            audio_context: j.truth("audio_context"@),
        }
    } else if kind == Some("eval_result"@) {
        match j.text("eval_id"@) {
            Some(eval_id) => InboundView::EvalResult { eval_id, result: j.text_or("result"@, ""@) },
            None => InboundView::Ignore,
        }
    } else if kind == Some("disconnect"@) {
        InboundView::Ignore
    } else if kind == Some("telemetry"@) {
        match j.field("daemon"@) {
            Some(d) => match d.uint("frames_in"@) {
                Some(count) => InboundView::FramesIn { count },
                None => InboundView::Ignore,
            },
            None => InboundView::Ignore,
        }
    } else if kind == Some("browser_log"@) {
        InboundView::Log { lines: json::text_items(j.items("logs"@)) }
    } else if kind == Some("stt_lost"@) {
        InboundView::SttLost {
            seq: j.uint_or("seq"@, 0),
            duration: j.field("duration"@),
            energy: j.field("energy"@),
        }
    } else if kind == Some("tts_lost"@) {
        InboundView::TtsLost {
            msg_id: j.text_or("msg_id"@, "unknown"@),
            text: j.text_or("text"@, ""@),
            error: j.text_or("error"@, "unknown"@),
            stage: j.text_or("stage"@, "unknown"@),
        }
    } else if kind == Some("rtc_inactive"@) {
        InboundView::RtcInactive
    } else {
        InboundView::Ignore
    }
}

/// What a text frame from a browser asks for. What begins like a JSON object is
/// never taken for keystrokes.
pub open spec fn inbound_of(s: Seq<char>) -> InboundView {
    if s.len() == 0 {
        InboundView::Ignore
    } else if s[0] == '{' {
        match json::json_value(s) {
            Ok(j) => message_of(j),
            Err(_) => InboundView::Ignore,
        }
    } else {
        InboundView::Input { data: s }
    }
}

/// A volume, at most 100.
fn volume(v: Option<u64>) -> (r: Option<u8>)
    ensures
        r == volume_of(v),
{
    match v {
        Some(n) => if n > 100 {
            Some(100)
        } else {
            Some(n as u8)
        },
        None => None,
    }
}

/// What a JSON message from a browser asks for.
pub fn inbound_message(val: &Json) -> (r: Inbound)
    ensures
        r@ == message_of(val@),
{
    let kind: String = match val.text("type") {
        Some(k) => k,
        None => {
            return Inbound::Ignore;
        },
    };
    let kind: &str = kind.as_str();
    if text::same(kind, "resize") {
        let rows: u16 = (val.uint_or("rows", 24) % 65536) as u16;
        let cols: u16 = (val.uint_or("cols", 80) % 65536) as u16;
        if rows > 0 && cols > 0 {
            Inbound::Resize { rows, cols }
        } else {
            Inbound::Ignore
        }
    } else if text::same(kind, "pong") {
        Inbound::Ignore
    } else if text::same(kind, "echo_ping") {
        Inbound::EchoPong { id: val.text_or("id", "") }
    } else if text::same(kind, "version") {
        let server = val.text_or("server_version", "unknown");
        Inbound::Version { version: val.text_or("js_version", server.as_str()) }
    } else if text::same(kind, "browser_info") {
        Inbound::BrowserInfo {
            user_agent: val.text("user_agent"),
            volume: volume(val.uint("volume")),
            audio_context: val.truth("audio_context"),
        }
    } else if text::same(kind, "volume_change") {
        Inbound::BrowserInfo {
            user_agent: None,
            volume: volume(val.uint("volume")),
            audio_context: None,
        }
    } else if text::same(kind, "audio_context_change") {
        Inbound::BrowserInfo {
            user_agent: None,
            volume: None,
            audio_context: val.truth("audio_context"),
        }
    } else if text::same(kind, "eval_result") {
        match val.text("eval_id") {
            Some(eval_id) => Inbound::EvalResult { eval_id, result: val.text_or("result", "") },
            None => Inbound::Ignore,
        }
    } else if text::same(kind, "disconnect") {
        Inbound::Ignore
    } else if text::same(kind, "telemetry") {
        match val.get("daemon") {
            Some(d) => match d.uint("frames_in") {
                Some(count) => Inbound::FramesIn { count },
                None => Inbound::Ignore,
            },
            None => Inbound::Ignore,
        }
    } else if text::same(kind, "browser_log") {
        Inbound::Log { lines: json::texts_of(val.items("logs")) }
    } else if text::same(kind, "stt_lost") {
        Inbound::SttLost {
            seq: val.uint_or("seq", 0),
            duration: val.member("duration"),
            energy: val.member("energy"),
        }
    } else if text::same(kind, "tts_lost") {
        Inbound::TtsLost {
            msg_id: val.text_or("msg_id", "unknown"),
            text: val.text_or("text", ""),
            error: val.text_or("error", "unknown"),
            stage: val.text_or("stage", "unknown"),
        }
    } else if text::same(kind, "rtc_inactive") {
        Inbound::RtcInactive
    } else {
        Inbound::Ignore
    }
}

/// What a text frame from a browser asks for.
pub fn inbound(data: &str) -> (r: Inbound)
    ensures
        r@ == inbound_of(data@),
{
    if data.is_empty() {
        return Inbound::Ignore;
    }
    if data.get_char(0) == '{' {
        match json::parse(data) {
            Ok(val) => inbound_message(&val),
            Err(_) => Inbound::Ignore,
        }
    } else {
        Inbound::Input { data: data.to_owned() }
    }
}

/// The answer to an echo request.
pub fn echo_pong(id: &str) -> (r: Json)
    ensures
        r@ == typed("echo_pong"@).put_text("id"@, id@),
{
    typed_message("echo_pong").put_text("id", id)
}

/// The notice that spoken audio was lost. The figures come formatted.
pub fn stt_lost_notice(seq: u64, duration: &str, energy: &str) -> (r: String)
    ensures
        r@ == "[TRANSCRIPTION LOST] seq="@ + text::decimal(seq as nat) + " duration="@ + duration@
            + "s energy="@ + energy@ + " — audio saved to daemon for recovery"@,
{
    let n = text::to_decimal(seq);
    text::cat7(
        "[TRANSCRIPTION LOST] seq=",
        n.as_str(),
        " duration=",
        duration,
        "s energy=",
        energy,
        " — audio saved to daemon for recovery",
    )
}

/// The name of the file that keeps the text of lost speech.
pub open spec fn lost_tts_file(msg_id: Seq<char>, secs: u64) -> Seq<char> {
    msg_id + "_"@ + text::decimal(secs as nat) + ".txt"@
}

/// The first 100 characters of a text.
pub open spec fn preview(s: Seq<char>) -> Seq<char> {
    if 100 <= s.len() {
        s.take(100)
    } else {
        s
    }
}

/// The notice that speech was lost.
pub open spec fn tts_lost_text(
    msg_id: Seq<char>,
    stage: Seq<char>,
    error: Seq<char>,
    secs: u64,
    s: Seq<char>,
) -> Seq<char> {
    "[TTS LOST] msg="@ + msg_id + " stage="@ + stage + " error="@ + error
        + " file=~/.b3/lost-tts/"@ + lost_tts_file(msg_id, secs) + " text=\""@ + preview(s)
        + if vstd::utf8::encode_utf8(s).len() > 100 {
        "..."@
    } else {
        ""@
    } + "\""@
}

/// The file that keeps the text of lost speech, and the notice about it.
pub fn tts_lost_notice(msg_id: &str, stage: &str, error: &str, secs: u64, s: &str) -> (r: (
    String,
    String,
))
    ensures
        r.0@ == lost_tts_file(msg_id@, secs),
        r.1@ == tts_lost_text(msg_id@, stage@, error@, secs, s@),
{
    let n = text::to_decimal(secs);
    let file = text::cat4(msg_id, "_", n.as_str(), ".txt");
    let shown = text::take(s, 100);
    let more: &str = if s.as_bytes().len() > 100 {
        "..."
    } else {
        ""
    };
    let mut m = text::cat6("[TTS LOST] msg=", msg_id, " stage=", stage, " error=", error);
    m.append(" file=~/.b3/lost-tts/");
    m.append(file.as_str());
    m.append(" text=\"");
    m.append(shown.as_str());
    m.append(more);
    m.append("\"");
    (file, m)
}

// ── Browser console ─────────────────────────────────────────────────

/// How many lines of browser consoles are kept.
pub const MAX_CONSOLE_LINES: usize = 500;

/// The last `n` of the given items, or all of them.
pub open spec fn last_of<T>(s: Seq<T>, n: int) -> Seq<T> {
    if s.len() > n {
        s.skip(s.len() - n)
    } else {
        s
    }
}

/// Adds lines; only the last 500 are kept.
pub fn push_console(buf: &mut Vec<String>, lines: Vec<String>)
    ensures
        final(buf)@ == last_of(old(buf)@ + lines@, MAX_CONSOLE_LINES as int),
{
    let mut lines = lines;
    let ghost all = old(buf)@ + lines@;
    buf.append(&mut lines);
    if buf.len() > MAX_CONSOLE_LINES {
        let cut: usize = buf.len() - MAX_CONSOLE_LINES;
        let kept = buf.split_off(cut);
        assert(kept@ =~= all.skip(all.len() - MAX_CONSOLE_LINES));
        *buf = kept;
    }
}

// ── What is known of each browser ───────────────────────────────────

/// What is known of each connected browser.
#[derive(Debug)]
pub struct Browsers {
    pub sizes: IdMap<(u16, u16)>,
    pub versions: IdMap<String>,
    pub user_agents: IdMap<String>,
    pub volumes: IdMap<u8>,
    pub audio_contexts: IdMap<bool>,
}

/// Whether `r` is the smallest height and the smallest width of the given sizes.
pub open spec fn is_min_size(sizes: Map<u64, (u16, u16)>, r: (u16, u16)) -> bool {
    &&& exists|id: u64| #[trigger] sizes.dom().contains(id) && sizes[id].0 == r.0
    &&& exists|id: u64| #[trigger] sizes.dom().contains(id) && sizes[id].1 == r.1
    &&& forall|id: u64| #[trigger]
        sizes.dom().contains(id) ==> r.0 <= sizes[id].0 && r.1 <= sizes[id].1
}

/// The smallest height and the smallest width, where there are sizes.
pub fn min_size(sizes: &IdMap<(u16, u16)>) -> (r: Option<(u16, u16)>)
    ensures
        match r {
            Some(m) => is_min_size(sizes@, m),
            None => sizes@ =~= Map::<u64, (u16, u16)>::empty(),
        },
{
    let n: usize = sizes.len();
    if n == 0 {
        return None;
    }
    let (first_id, first) = sizes.at(0);
    let mut rows: u16 = first.0;
    let mut cols: u16 = first.1;
    let ghost mut row_id = first_id;
    let ghost mut col_id = first_id;
    let mut i: usize = 1;
    while i < n
        invariant
            1 <= i <= n,
            n == sizes.listed().len(),
            sizes@.dom().contains(row_id) && sizes@[row_id].0 == rows,
            sizes@.dom().contains(col_id) && sizes@[col_id].1 == cols,
            forall|k: int|
                0 <= k < i ==> rows <= (#[trigger] sizes.listed()[k]).1.0 && cols
                    <= sizes.listed()[k].1.1,
        decreases n - i,
    {
        let (id, size) = sizes.at(i);
        if size.0 < rows {
            rows = size.0;
            proof {
                row_id = id;
            }
        }
        if size.1 < cols {
            cols = size.1;
            proof {
                col_id = id;
            }
        }
        i = i + 1;
    }
    assert forall|id: u64| #[trigger] sizes@.dom().contains(id) implies rows <= sizes@[id].0 && cols
        <= sizes@[id].1 by {
        let k = sizes.lemma_listed(id);
    }
    Some((rows, cols))
}

impl Browsers {
    /// No browsers.
    pub fn new() -> (r: Self)
        ensures
            r.sizes@ == Map::<u64, (u16, u16)>::empty(),
            r.versions@ == Map::<u64, String>::empty(),
            r.user_agents@ == Map::<u64, String>::empty(),
            r.volumes@ == Map::<u64, u8>::empty(),
            r.audio_contexts@ == Map::<u64, bool>::empty(),
    {
        Browsers {
            sizes: IdMap::new(),
            versions: IdMap::new(),
            user_agents: IdMap::new(),
            volumes: IdMap::new(),
            audio_contexts: IdMap::new(),
        }
    }

    /// Notes the size of a browser's terminal. The result is the size that fits
    /// all of them.
    pub fn resize(&mut self, id: u64, rows: u16, cols: u16) -> (r: (u16, u16))
        ensures
            final(self).sizes@ == old(self).sizes@.insert(id, (rows, cols)),
            is_min_size(final(self).sizes@, r),
            final(self).versions == old(self).versions,
            final(self).user_agents == old(self).user_agents,
            final(self).volumes == old(self).volumes,
            final(self).audio_contexts == old(self).audio_contexts,
    {
        self.sizes.insert(id, (rows, cols));
        assert(self.sizes@.dom().contains(id));
        match min_size(&self.sizes) {
            Some(m) => m,
            None => (rows, cols),
        }
    }

    /// Notes the version that a browser runs.
    pub fn version(&mut self, id: u64, version: String)
        ensures
            final(self).versions@ == old(self).versions@.insert(id, version),
            final(self).sizes == old(self).sizes,
            final(self).user_agents == old(self).user_agents,
            final(self).volumes == old(self).volumes,
            final(self).audio_contexts == old(self).audio_contexts,
    {
        self.versions.insert(id, version);
    }

    /// Notes what a browser says of itself; what it leaves out stays as it was.
    pub fn info(
        &mut self,
        id: u64,
        user_agent: Option<String>,
        volume: Option<u8>,
        audio_context: Option<bool>,
    )
        ensures
            final(self).user_agents@ == (match user_agent {
                Some(u) => old(self).user_agents@.insert(id, u),
                None => old(self).user_agents@,
            }),
            final(self).volumes@ == (match volume {
                Some(v) => old(self).volumes@.insert(id, v),
                None => old(self).volumes@,
            }),
            final(self).audio_contexts@ == (match audio_context {
                Some(a) => old(self).audio_contexts@.insert(id, a),
                None => old(self).audio_contexts@,
            }),
            final(self).sizes == old(self).sizes,
            final(self).versions == old(self).versions,
    {
        match user_agent {
            Some(u) => {
                self.user_agents.insert(id, u);
            },
            None => {},
        }
        match volume {
            Some(v) => {
                self.volumes.insert(id, v);
            },
            None => {},
        }
        match audio_context {
            Some(a) => {
                self.audio_contexts.insert(id, a);
            },
            None => {},
        }
    }

    /// Forgets a browser. The result is the size that fits those that remain.
    pub fn disconnect(&mut self, id: u64) -> (r: Option<(u16, u16)>)
        ensures
            final(self).sizes@ == old(self).sizes@.remove(id),
            final(self).versions@ == old(self).versions@.remove(id),
            final(self).user_agents@ == old(self).user_agents@.remove(id),
            final(self).volumes@ == old(self).volumes@.remove(id),
            final(self).audio_contexts@ == old(self).audio_contexts@.remove(id),
            match r {
                Some(m) => is_min_size(final(self).sizes@, m),
                None => final(self).sizes@ =~= Map::<u64, (u16, u16)>::empty(),
            },
    {
        self.sizes.remove(id);
        self.versions.remove(id);
        self.user_agents.remove(id);
        self.volumes.remove(id);
        self.audio_contexts.remove(id);
        min_size(&self.sizes)
    }
}

/// The size that fits all browsers is the only one that `is_min_size` names.
pub proof fn law_min_size_unique(sizes: Map<u64, (u16, u16)>, a: (u16, u16), b: (u16, u16))
    requires
        is_min_size(sizes, a),
        is_min_size(sizes, b),
    ensures
        a == b,
{
}

/// What is typed arrives as it was typed, unless it begins like a JSON object.
pub proof fn law_keystrokes_kept(s: Seq<char>)
    requires
        s.len() > 0,
        s[0] != '{',
    ensures
        inbound_of(s) == (InboundView::Input { data: s }),
{
}

/// A message of a browser is understood as it says: each of its parts comes out under
/// its own name.
pub proof fn law_messages_understood(s: Seq<char>, j: JsonView)
    requires
        s.len() > 0,
        s[0] == '{',
        json::json_value(s) == Ok::<JsonView, Seq<char>>(j),
    ensures
        forall|rows: u16, cols: u16|
            j.is("type"@, "resize"@) && #[trigger] sized(j, rows, cols) && rows > 0 && cols > 0
                ==> inbound_of(s) == (InboundView::Resize { rows, cols }),
        forall|id: Seq<char>|
            j.is("type"@, "echo_ping"@) && #[trigger] j.is("id"@, id) ==> inbound_of(s) == (
            InboundView::EchoPong { id }),
        forall|version: Seq<char>|
            j.is("type"@, "version"@) && #[trigger] j.is("js_version"@, version) ==> inbound_of(s)
                == (InboundView::Version { version }),
        j.is("type"@, "browser_info"@) ==> inbound_of(s) is BrowserInfo && inbound_of(s)->user_agent
            == j.text("user_agent"@) && inbound_of(s)->audio_context == j.truth("audio_context"@)
            && (j.uint("volume"@) matches Some(v) ==> v <= 100 ==> inbound_of(s)->volume == Some(
            v as u8,
        )) && (j.uint("volume"@) matches Some(v) ==> v > 100 ==> inbound_of(s)->volume == Some(
            100u8,
        )),
        j.is("type"@, "volume_change"@) ==> inbound_of(s) is BrowserInfo && inbound_of(
            s,
        )->user_agent is None && inbound_of(s)->audio_context is None && (j.uint(
            "volume"@,
        ) matches Some(v) ==> v <= 100 ==> inbound_of(s)->volume == Some(v as u8)),
        j.is("type"@, "audio_context_change"@) ==> inbound_of(s) == (InboundView::BrowserInfo {
            user_agent: None,
            volume: None,
            audio_context: j.truth("audio_context"@),
        }),
        forall|eval_id: Seq<char>, result: Seq<char>|
            j.is("type"@, "eval_result"@) && #[trigger] j.is("eval_id"@, eval_id)
                && #[trigger] j.is("result"@, result) ==> inbound_of(s) == (
            InboundView::EvalResult { eval_id, result }),
        j.is("type"@, "browser_log"@) ==> inbound_of(s) == (InboundView::Log {
            lines: json::text_items(j.items("logs"@)),
        }),
        j.is("type"@, "stt_lost"@) && j.uint("seq"@) is Some ==> inbound_of(s) == (
        InboundView::SttLost {
            seq: j.uint("seq"@).unwrap(),
            duration: j.field("duration"@),
            energy: j.field("energy"@),
        }),
        forall|msg_id: Seq<char>, text: Seq<char>, error: Seq<char>, stage: Seq<char>|
            j.is("type"@, "tts_lost"@) && #[trigger] j.is("msg_id"@, msg_id) && #[trigger] j.is(
                "text"@,
                text,
            ) && #[trigger] j.is("error"@, error) && #[trigger] j.is("stage"@, stage) ==> inbound_of(
                s,
            ) == (InboundView::TtsLost { msg_id, text, error, stage }),
        j.is("type"@, "rtc_inactive"@) ==> inbound_of(s) is RtcInactive,
        j.is("type"@, "pong"@) || j.is("type"@, "disconnect"@) ==> inbound_of(s) is Ignore,
        !(inbound_of(s) is Input),
{
    reveal_strlit("resize");
    reveal_strlit("pong");
    reveal_strlit("echo_ping");
    reveal_strlit("version");
    reveal_strlit("browser_info");
    reveal_strlit("volume_change");
    reveal_strlit("audio_context_change");
    reveal_strlit("eval_result");
    reveal_strlit("disconnect");
    reveal_strlit("telemetry");
    reveal_strlit("browser_log");
    reveal_strlit("stt_lost");
    reveal_strlit("tts_lost");
    reveal_strlit("rtc_inactive");
    assert("resize"@.len() == 6 && "pong"@.len() == 4 && "echo_ping"@.len() == 9 && "version"@.len() == 7 && "browser_info"@.len() == 12 && "volume_change"@.len() == 13 && "audio_context_change"@.len() == 20 && "eval_result"@.len() == 11 && "disconnect"@.len() == 10 && "telemetry"@.len() == 9 && "browser_log"@.len() == 11 && "stt_lost"@.len() == 8 && "tts_lost"@.len() == 8 && "rtc_inactive"@.len() == 12);
    assert("echo_ping"@[0] != "telemetry"@[0]);
    assert("browser_info"@[0] != "rtc_inactive"@[0]);
    assert("eval_result"@[0] != "browser_log"@[0]);
    assert("stt_lost"@[0] != "tts_lost"@[0]);
}

/// Whether a message gives the given size.
pub open spec fn sized(j: JsonView, rows: u16, cols: u16) -> bool {
    j.uint("rows"@) == Some(rows as u64) && j.uint("cols"@) == Some(cols as u64)
}

/// The right password lets a browser in, and a wrong one is refused; what was sent
/// before is kept whole.
pub proof fn law_password_decides(s: Seq<char>, j: JsonView, password: Seq<char>, hash: Seq<char>, b: Seq<u8>)
    requires
        json::json_value(s) == Ok::<JsonView, Seq<char>>(j),
        j.text("type"@) == Some("auth"@),
        j.text("password"@) == Some(password),
    ensures
        config::password_ok(password, hash) ==> auth_step_of(AuthInputView::Text(s), hash)
            is Accept,
        !config::password_ok(password, hash) ==> auth_step_of(AuthInputView::Text(s), hash)
            is Refuse,
        auth_step_of(AuthInputView::Binary(b), hash) == AuthStepView::Buffer(b),
        auth_step_of(AuthInputView::Closed, hash) is End,
{
}

/// A session is not abandoned while it is the one that connects, or was heard within
/// two minutes.
pub proof fn law_heard_not_stale(id: u64, current: u64, silent: Map<u64, u64>)
    ensures
        !is_stale(current, current, silent),
        silent.dom().contains(id) && silent[id] <= 120 ==> !is_stale(id, current, silent),
        id != current && silent.dom().contains(id) && silent[id] > 120 ==> is_stale(
            id,
            current,
            silent,
        ),
        id != current && !silent.dom().contains(id) ==> is_stale(id, current, silent),
{
}

/// Only the newest lines of a console are kept, in order.
pub proof fn law_newest_kept<T>(s: Seq<T>, n: nat)
    ensures
        last_of(s, n as int).len() <= n,
        s.len() <= n ==> last_of(s, n as int) == s,
        s.len() > n ==> last_of(s, n as int).len() == n,
        forall|i: int|
            0 <= i < last_of(s, n as int).len() ==> #[trigger] last_of(s, n as int)[i] == s[s.len()
                - last_of(s, n as int).len() + i],
{
}

} // verus!
