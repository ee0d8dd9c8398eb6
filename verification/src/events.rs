//! Events that travel between the parts of the daemon.

use vstd::prelude::*;

use crate::json::{Json, JsonView};

verus! {

/// Something that happened at the agent and that its browsers, terminals and peers may
/// want to know. A number with a fraction is kept as its JSON text.
#[derive(Debug)]
pub enum AgentEvent {
    Transcription { text: String },
    Hive { sender: String, text: String },
    HiveRoom { sender: String, room_id: String, room_topic: String, text: String },
    PtyInput { data: String },
    PtyResize { rows: u16, cols: u16 },
    SessionUpdated { size: usize },
    Tts { text: String, msg_id: String, voice: String },
    TtsGenerating { msg_id: String, chunk: u64, total: u64 },
    TtsStream { msg_id: String, text: String, original_text: String, voice: String, emotion: String, replying_to: String, split_chars: String, min_chunk_chars: u64, conditionals_b64: String },
    TtsAudioData { msg_id: String, chunk: u64, total: u64, audio_b64: String, duration_sec: String, generation_sec: String },
    Led { emotion: String },
    BrowserEval { eval_id: String, code: String, session_id: Option<u64> },
    Notification { title: String, body: String, level: String, action: Option<Json> },
    UpdateAvailable { version: String, url: String, sha256: String },
    WebRtcOffer { session_id: String, sdp: String, target: String, origin_url: String, browser_session_id: Option<u64> },
    WebRtcAnswer { session_id: String, sdp: String },
    WebRtcIce { session_id: String, candidate: String, mid: String, target: String },
}

/// The mathematical value of an [`AgentEvent`].
#[verifier::ext_equal]
pub enum AgentEventView {
    Transcription { text: Seq<char> },
    Hive { sender: Seq<char>, text: Seq<char> },
    HiveRoom { sender: Seq<char>, room_id: Seq<char>, room_topic: Seq<char>, text: Seq<char> },
    PtyInput { data: Seq<char> },
    PtyResize { rows: u16, cols: u16 },
    SessionUpdated { size: usize },
    Tts { text: Seq<char>, msg_id: Seq<char>, voice: Seq<char> },
    TtsGenerating { msg_id: Seq<char>, chunk: u64, total: u64 },
    TtsStream { msg_id: Seq<char>, text: Seq<char>, original_text: Seq<char>, voice: Seq<char>, emotion: Seq<char>, replying_to: Seq<char>, split_chars: Seq<char>, min_chunk_chars: u64, conditionals_b64: Seq<char> },
    TtsAudioData { msg_id: Seq<char>, chunk: u64, total: u64, audio_b64: Seq<char>, duration_sec: Seq<char>, generation_sec: Seq<char> },
    Led { emotion: Seq<char> },
    BrowserEval { eval_id: Seq<char>, code: Seq<char>, session_id: Option<u64> },
    Notification { title: Seq<char>, body: Seq<char>, level: Seq<char>, action: Option<JsonView> },
    UpdateAvailable { version: Seq<char>, url: Seq<char>, sha256: Seq<char> },
    WebRtcOffer { session_id: Seq<char>, sdp: Seq<char>, target: Seq<char>, origin_url: Seq<char>, browser_session_id: Option<u64> },
    WebRtcAnswer { session_id: Seq<char>, sdp: Seq<char> },
    WebRtcIce { session_id: Seq<char>, candidate: Seq<char>, mid: Seq<char>, target: Seq<char> },
}

impl View for AgentEvent {
    type V = AgentEventView;

    open spec fn view(&self) -> AgentEventView {
        match self {
            AgentEvent::Transcription { text } => AgentEventView::Transcription {
                text: text@,
            },
            AgentEvent::Hive { sender, text } => AgentEventView::Hive {
                sender: sender@,
                text: text@,
            },
            AgentEvent::HiveRoom { sender, room_id, room_topic, text } => AgentEventView::HiveRoom {
                sender: sender@,
                room_id: room_id@,
                room_topic: room_topic@,
                text: text@,
            },
            AgentEvent::PtyInput { data } => AgentEventView::PtyInput {
                data: data@,
            },
            AgentEvent::PtyResize { rows, cols } => AgentEventView::PtyResize {
                rows: *rows,
                cols: *cols,
            },
            AgentEvent::SessionUpdated { size } => AgentEventView::SessionUpdated {
                size: *size,
            },
            AgentEvent::Tts { text, msg_id, voice } => AgentEventView::Tts {
                text: text@,
                msg_id: msg_id@,
                voice: voice@,
            },
            AgentEvent::TtsGenerating { msg_id, chunk, total } => AgentEventView::TtsGenerating {
                msg_id: msg_id@,
                chunk: *chunk,
                total: *total,
            },
            AgentEvent::TtsStream { msg_id, text, original_text, voice, emotion, replying_to, split_chars, min_chunk_chars, conditionals_b64 } => AgentEventView::TtsStream {
                msg_id: msg_id@,
                text: text@,
                original_text: original_text@,
                voice: voice@,
                emotion: emotion@,
                replying_to: replying_to@,
                split_chars: split_chars@,
                min_chunk_chars: *min_chunk_chars,
                conditionals_b64: conditionals_b64@,
            },
            AgentEvent::TtsAudioData { msg_id, chunk, total, audio_b64, duration_sec, generation_sec } => AgentEventView::TtsAudioData {
                msg_id: msg_id@,
                chunk: *chunk,
                total: *total,
                audio_b64: audio_b64@,
                duration_sec: duration_sec@,
                generation_sec: generation_sec@,
            },
            AgentEvent::Led { emotion } => AgentEventView::Led {
                emotion: emotion@,
            },
            AgentEvent::BrowserEval { eval_id, code, session_id } => AgentEventView::BrowserEval {
                eval_id: eval_id@,
                code: code@,
                session_id: *session_id,
            },
            AgentEvent::Notification { title, body, level, action } => AgentEventView::Notification {
                title: title@,
                body: body@,
                level: level@,
                action: crate::json::opt_view(*action),
            },
            AgentEvent::UpdateAvailable { version, url, sha256 } => AgentEventView::UpdateAvailable {
                version: version@,
                url: url@,
                sha256: sha256@,
            },
            AgentEvent::WebRtcOffer { session_id, sdp, target, origin_url, browser_session_id } => AgentEventView::WebRtcOffer {
                session_id: session_id@,
                sdp: sdp@,
                target: target@,
                origin_url: origin_url@,
                browser_session_id: *browser_session_id,
            },
            AgentEvent::WebRtcAnswer { session_id, sdp } => AgentEventView::WebRtcAnswer {
                session_id: session_id@,
                sdp: sdp@,
            },
            AgentEvent::WebRtcIce { session_id, candidate, mid, target } => AgentEventView::WebRtcIce {
                session_id: session_id@,
                candidate: candidate@,
                mid: mid@,
                target: target@,
            },
        }
    }
}

impl AgentEvent {
    /// A copy of the event.
    pub fn copy(&self) -> (r: AgentEvent)
        ensures
            r@ == self@,
    {
        match self {
            AgentEvent::Transcription { text } => AgentEvent::Transcription {
                text: text.clone(),
            },
            AgentEvent::Hive { sender, text } => AgentEvent::Hive {
                sender: sender.clone(),
                text: text.clone(),
            },
            AgentEvent::HiveRoom { sender, room_id, room_topic, text } => AgentEvent::HiveRoom {
                sender: sender.clone(),
                room_id: room_id.clone(),
                room_topic: room_topic.clone(),
                text: text.clone(),
            },
            AgentEvent::PtyInput { data } => AgentEvent::PtyInput {
                data: data.clone(),
            },
            AgentEvent::PtyResize { rows, cols } => AgentEvent::PtyResize {
                rows: *rows,
                cols: *cols,
            },
            AgentEvent::SessionUpdated { size } => AgentEvent::SessionUpdated {
                size: *size,
            },
            AgentEvent::Tts { text, msg_id, voice } => AgentEvent::Tts {
                text: text.clone(),
                msg_id: msg_id.clone(),
                voice: voice.clone(),
            },
            AgentEvent::TtsGenerating { msg_id, chunk, total } => AgentEvent::TtsGenerating {
                msg_id: msg_id.clone(),
                chunk: *chunk,
                total: *total,
            },
            AgentEvent::TtsStream { msg_id, text, original_text, voice, emotion, replying_to, split_chars, min_chunk_chars, conditionals_b64 } => AgentEvent::TtsStream {
                msg_id: msg_id.clone(),
                text: text.clone(),
                original_text: original_text.clone(),
                voice: voice.clone(),
                emotion: emotion.clone(),
                replying_to: replying_to.clone(),
                split_chars: split_chars.clone(),
                min_chunk_chars: *min_chunk_chars,
                conditionals_b64: conditionals_b64.clone(),
            },
            AgentEvent::TtsAudioData { msg_id, chunk, total, audio_b64, duration_sec, generation_sec } => AgentEvent::TtsAudioData {
                msg_id: msg_id.clone(),
                chunk: *chunk,
                total: *total,
                audio_b64: audio_b64.clone(),
                duration_sec: duration_sec.clone(),
                generation_sec: generation_sec.clone(),
            },
            AgentEvent::Led { emotion } => AgentEvent::Led {
                emotion: emotion.clone(),
            },
            AgentEvent::BrowserEval { eval_id, code, session_id } => AgentEvent::BrowserEval {
                eval_id: eval_id.clone(),
                code: code.clone(),
                session_id: *session_id,
            },
            AgentEvent::Notification { title, body, level, action } => AgentEvent::Notification {
                title: title.clone(),
                body: body.clone(),
                level: level.clone(),
                action: match action {
                    Some(a) => Some(a.copy()),
                    None => None,
                },
            },
            AgentEvent::UpdateAvailable { version, url, sha256 } => AgentEvent::UpdateAvailable {
                version: version.clone(),
                url: url.clone(),
                sha256: sha256.clone(),
            },
            AgentEvent::WebRtcOffer { session_id, sdp, target, origin_url, browser_session_id } => AgentEvent::WebRtcOffer {
                session_id: session_id.clone(),
                sdp: sdp.clone(),
                target: target.clone(),
                origin_url: origin_url.clone(),
                browser_session_id: *browser_session_id,
            },
            AgentEvent::WebRtcAnswer { session_id, sdp } => AgentEvent::WebRtcAnswer {
                session_id: session_id.clone(),
                sdp: sdp.clone(),
            },
            AgentEvent::WebRtcIce { session_id, candidate, mid, target } => AgentEvent::WebRtcIce {
                session_id: session_id.clone(),
                candidate: candidate.clone(),
                mid: mid.clone(),
                target: target.clone(),
            },
        }
    }
}

/// What a receiver of broadcast events gets.
#[derive(Debug)]
pub enum Received<T> {
    Item(T),
    /// The given number of items was missed.
    Lagged(u64),
    /// There will be no more.
    Closed,
}

/// Something that the assistant's own channel is told of.
#[derive(Debug)]
pub enum ChannelEvent {
    Transcription { text: String, message_id: String },
    HiveDm { sender: String, text: String, message_id: String },
    HiveRoom { sender: String, room_id: String, room_topic: String, text: String, message_id: String },
}

/// The mathematical value of a [`ChannelEvent`].
#[verifier::ext_equal]
pub enum ChannelEventView {
    Transcription { text: Seq<char>, message_id: Seq<char> },
    HiveDm { sender: Seq<char>, text: Seq<char>, message_id: Seq<char> },
    HiveRoom { sender: Seq<char>, room_id: Seq<char>, room_topic: Seq<char>, text: Seq<char>, message_id: Seq<char> },
}

impl View for ChannelEvent {
    type V = ChannelEventView;

    open spec fn view(&self) -> ChannelEventView {
        match self {
            ChannelEvent::Transcription { text, message_id } => ChannelEventView::Transcription {
                text: text@,
                message_id: message_id@,
            },
            ChannelEvent::HiveDm { sender, text, message_id } => ChannelEventView::HiveDm {
                sender: sender@,
                text: text@,
                message_id: message_id@,
            },
            ChannelEvent::HiveRoom { sender, room_id, room_topic, text, message_id } => ChannelEventView::HiveRoom {
                sender: sender@,
                room_id: room_id@,
                room_topic: room_topic@,
                text: text@,
                message_id: message_id@,
            },
        }
    }
}

} // verus!
