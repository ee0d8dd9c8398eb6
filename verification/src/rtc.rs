//! Direct connections to browsers.

use vstd::prelude::*;

use crate::bytes;
use crate::config;
use crate::config::Config;
use crate::events::{AgentEvent, AgentEventView, Received};
use crate::json;
use crate::json::{Json, JsonView};
use crate::terminal;
use crate::text;

verus! {

/// A way to reach a peer.
#[derive(Debug)]
pub struct IceCandidate {
    pub candidate: String,
    pub mid: String,
}

/// The mathematical value of an [`IceCandidate`].
#[verifier::ext_equal]
pub struct IceCandidateView {
    pub candidate: Seq<char>,
    pub mid: Seq<char>,
}

impl View for IceCandidate {
    type V = IceCandidateView;

    open spec fn view(&self) -> IceCandidateView {
        IceCandidateView {
            candidate: self.candidate@,
            mid: self.mid@,
        }
    }
}

/// A server that helps peers to reach each other.
#[derive(Debug)]
pub struct IceServer {
    pub url: String,
    pub username: Option<String>,
    pub credential: Option<String>,
}

/// The mathematical value of an [`IceServer`].
#[verifier::ext_equal]
pub struct IceServerView {
    pub url: Seq<char>,
    pub username: Option<Seq<char>>,
    pub credential: Option<Seq<char>>,
}

impl View for IceServer {
    type V = IceServerView;

    open spec fn view(&self) -> IceServerView {
        IceServerView {
            url: self.url@,
            username: crate::config::opt_string(self.username),
            credential: crate::config::opt_string(self.credential),
        }
    }
}

/// A peer connection that the daemon keeps.
#[derive(Debug)]
pub struct PeerInfo {
    pub session_id: String,
    pub browser_session_id: Option<u64>,
    /// Whether its task has ended.
    pub finished: bool,
}

/// The mathematical value of a [`PeerInfo`].
#[verifier::ext_equal]
pub struct PeerInfoView {
    pub session_id: Seq<char>,
    pub browser_session_id: Option<u64>,
    pub finished: bool,
}

impl View for PeerInfo {
    type V = PeerInfoView;

    open spec fn view(&self) -> PeerInfoView {
        PeerInfoView {
            session_id: self.session_id@,
            browser_session_id: self.browser_session_id,
            finished: self.finished,
        }
    }
}

// ── Offers ──────────────────────────────────────────────────────────

/// Why an offer is refused, where it is: its browser is not connected. `known` says
/// whether the browser session that it names is.
pub fn offer_refusal(browser_session_id: Option<u64>, known: bool) -> (r: Option<String>)
    ensures
        config::opt_string(r) == (if browser_session_id is Some && !known {
            Some("session not found"@)
        } else {
            None
        }),
{
    match browser_session_id {
        Some(_) => if known {
            None
        } else {
            Some("session not found".to_owned())
        },
        None => None,
    }
}

/// The views of peers.
pub open spec fn peer_views(v: Seq<PeerInfo>) -> Seq<PeerInfoView> {
    v.map_values(|p: PeerInfo| p@)
}

/// Whether a peer gives way to an offer: it is still there, and of the same browser.
pub open spec fn gives_way(p: PeerInfoView, browser_session_id: Option<u64>) -> bool {
    !p.finished && browser_session_id is Some && p.browser_session_id == browser_session_id
}

/// The names of the peers that are over, and of those that give way.
pub open spec fn dropped(v: Seq<PeerInfoView>, bsid: Option<u64>, n: int) -> (
    Seq<Seq<char>>,
    Seq<Seq<char>>,
)
    decreases n,
{
    if n <= 0 {
        (Seq::empty(), Seq::empty())
    } else {
        let (over, ousted) = dropped(v, bsid, n - 1);
        if v[n - 1].finished {
            (over.push(v[n - 1].session_id), ousted)
        } else if gives_way(v[n - 1], bsid) {
            (over, ousted.push(v[n - 1].session_id))
        } else {
            (over, ousted)
        }
    }
}

/// The peers to forget before an offer is answered: those that are over, and those
/// of the same browser, whose tasks are to be stopped. Each browser has one peer.
pub fn make_way(peers: &[PeerInfo], browser_session_id: Option<u64>) -> (r: (
    Vec<String>,
    Vec<String>,
))
    ensures
        (text::views(r.0@), text::views(r.1@)) == dropped(
            peer_views(peers@),
            browser_session_id,
            peers@.len() as int,
        ),
{
    let ghost all = peer_views(peers@);
    let mut over: Vec<String> = Vec::new();
    let mut ousted: Vec<String> = Vec::new();
    let mut i: usize = 0;
    assert(text::views(over@) =~= Seq::empty());
    while i < peers.len()
        invariant
            i <= peers@.len(),
            all == peer_views(peers@),
            (text::views(over@), text::views(ousted@)) == dropped(
                all,
                browser_session_id,
                i as int,
            ),
        decreases peers.len() - i,
    {
        let p = &peers[i];
        assert(all[i as int] == p@);
        let same: bool = match (browser_session_id, p.browser_session_id) {
            (Some(a), Some(b)) => a == b,
            _ => false,
        };
        let ghost a = text::views(over@);
        let ghost b = text::views(ousted@);
        if p.finished {
            over.push(p.session_id.clone());
            assert(text::views(over@) =~= a.push(p@.session_id));
        } else if same {
            ousted.push(p.session_id.clone());
            assert(text::views(ousted@) =~= b.push(p@.session_id));
        }
        i = i + 1;
    }
    (over, ousted)
}

/// No peer of the browser remains once those that are over or give way are gone.
pub proof fn law_one_peer(v: Seq<PeerInfoView>, bsid: u64, i: int)
    requires
        0 <= i < v.len(),
        v[i].browser_session_id == Some(bsid),
    ensures
        v[i].finished || gives_way(v[i], Some(bsid)),
        dropped(v, Some(bsid), v.len() as int).0.contains(v[i].session_id) || dropped(
            v,
            Some(bsid),
            v.len() as int,
        ).1.contains(v[i].session_id),
{
    lemma_dropped(v, bsid, i, v.len() as int);
}

proof fn lemma_dropped(v: Seq<PeerInfoView>, bsid: u64, i: int, n: int)
    requires
        0 <= i < n <= v.len(),
        v[i].browser_session_id == Some(bsid),
    ensures
        dropped(v, Some(bsid), n).0.contains(v[i].session_id) || dropped(
            v,
            Some(bsid),
            n,
        ).1.contains(v[i].session_id),
    decreases n,
{
    let (a, b) = dropped(v, Some(bsid), n);
    if i == n - 1 {
        if v[i].finished {
            assert(a.last() == v[i].session_id);
        } else {
            assert(b.last() == v[i].session_id);
        }
    } else {
        lemma_dropped(v, bsid, i, n - 1);
        let (c, d) = dropped(v, Some(bsid), n - 1);
        if c.contains(v[i].session_id) {
            let k = choose|k: int| 0 <= k < c.len() && c[k] == v[i].session_id;
            assert(a[k] == v[i].session_id);
        } else {
            let k = choose|k: int| 0 <= k < d.len() && d[k] == v[i].session_id;
            assert(b[k] == v[i].session_id);
        }
    }
}

/// The views of servers.
pub open spec fn server_views(v: Seq<IceServer>) -> Seq<IceServerView> {
    v.map_values(|s: IceServer| s@)
}

/// The servers that help to reach a browser: one that tells addresses, and, with
/// credentials, one that relays.
pub open spec fn servers_of(
    stun_url: Seq<char>,
    turn_host: Seq<char>,
    credentials: Option<(Seq<char>, Seq<char>)>,
) -> Seq<IceServerView> {
    let stun = seq![IceServerView { url: stun_url, username: None, credential: None }];
    match credentials {
        None => stun,
        Some((u, c)) => stun + seq![
            IceServerView {
                url: "turn:"@ + turn_host + ":3478?transport=udp"@,
                username: Some(u),
                credential: Some(c),
            },
            IceServerView {
                url: "turns:"@ + turn_host + ":5349?transport=tcp"@,
                username: Some(u),
                credential: Some(c),
            },
        ],
    }
}

/// A setting, or what stands for it where it is not set.
pub open spec fn or_else(v: Option<Seq<char>>, default: Seq<char>) -> Seq<char> {
    match v {
        Some(s) => s,
        None => default,
    }
}

/// The servers that help to reach a browser, by the variables `STUN_URL` and
/// `TURN_HOST`.
pub fn ice_servers(
    stun_url: Option<&str>,
    turn_host: Option<&str>,
    credentials: Option<(&str, &str)>,
) -> (r: Vec<IceServer>)
    ensures
        server_views(r@) == servers_of(
            or_else(config::opt(stun_url), "stun:stun.l.google.com:19302"@),
            or_else(config::opt(turn_host), "turn.babel3.com"@),
            match credentials {
                Some((u, c)) => Some((u@, c@)),
                None => None,
            },
        ),
{
    let stun = match stun_url {
        Some(s) => s.to_owned(),
        None => "stun:stun.l.google.com:19302".to_owned(),
    };
    let host = match turn_host {
        Some(s) => s,
        None => "turn.babel3.com",
    };
    let ghost first = IceServerView { url: stun@, username: None, credential: None };
    let mut v: Vec<IceServer> = Vec::new();
    v.push(IceServer { url: stun, username: None, credential: None });
    assert(server_views(v@) =~= seq![first]);
    match credentials {
        None => {},
        Some((u, c)) => {
            let udp = text::cat3("turn:", host, ":3478?transport=udp");
            let tcp = text::cat3("turns:", host, ":5349?transport=tcp");
            v.push(
                IceServer { url: udp, username: Some(u.to_owned()), credential: Some(c.to_owned()) },
            );
            assert(server_views(v@) =~= seq![first].push(
                (IceServerView { url: udp@, username: Some(u@), credential: Some(c@) }),
            ));
            v.push(
                IceServer { url: tcp, username: Some(u.to_owned()), credential: Some(c.to_owned()) },
            );
            assert(server_views(v@) =~= seq![first].push(
                (IceServerView { url: udp@, username: Some(u@), credential: Some(c@) }),
            ).push((IceServerView { url: tcp@, username: Some(u@), credential: Some(c@) })));
            assert(server_views(v@) =~= servers_of(stun@, host@, Some((u@, c@))));
        },
    }
    v
}

/// What a new peer connection reports.
#[derive(Debug)]
pub enum PeerEvent {
    LocalDescription { sdp: String, sdp_type: String },
    /// All ways to reach the daemon are known; the description names them.
    GatheringComplete { description: Option<String> },
    Other,
    /// Nothing more comes, or the time is up.
    Ended,
}

/// The mathematical value of a [`PeerEvent`].
#[verifier::ext_equal]
pub enum PeerEventView {
    LocalDescription { sdp: Seq<char>, sdp_type: Seq<char> },
    GatheringComplete { description: Option<Seq<char>> },
    Other,
    Ended,
}

impl View for PeerEvent {
    type V = PeerEventView;

    open spec fn view(&self) -> PeerEventView {
        match self {
            PeerEvent::LocalDescription { sdp, sdp_type } => PeerEventView::LocalDescription {
                sdp: sdp@,
                sdp_type: sdp_type@,
            },
            PeerEvent::GatheringComplete { description } => PeerEventView::GatheringComplete {
                description: crate::config::opt_string(*description),
            },
            PeerEvent::Other => PeerEventView::Other,
            PeerEvent::Ended => PeerEventView::Ended,
        }
    }
}

/// The answer to an offer so far, and whether it is complete.
pub open spec fn answer_step(answer: Option<Seq<char>>, e: PeerEventView) -> (Option<Seq<char>>, bool) {
    match e {
        PeerEventView::LocalDescription { sdp, sdp_type } => if sdp_type == "answer"@ {
            (Some(sdp), false)
        } else {
            (answer, false)
        },
        PeerEventView::GatheringComplete { description } => if answer is Some {
            (
                if description is Some {
                    description
                } else {
                    answer
                },
                true,
            )
        } else {
            (answer, false)
        },
        PeerEventView::Other => (answer, false),
        PeerEventView::Ended => (answer, true),
    }
}

/// Takes what a new peer connection reports. The result says whether the answer to
/// the offer is complete, or nothing more will come.
pub fn collect_answer(answer: &mut Option<String>, e: PeerEvent) -> (r: bool)
    ensures
        (config::opt_string(*final(answer)), r) == answer_step(
            config::opt_string(*old(answer)),
            e@,
        ),
{
    match e {
        PeerEvent::LocalDescription { sdp, sdp_type } => {
            if text::same(sdp_type.as_str(), "answer") {
                *answer = Some(sdp);
            }
            false
        },
        PeerEvent::GatheringComplete { description } => {
            if answer.is_some() {
                if description.is_some() {
                    *answer = description;
                }
                true
            } else {
                false
            }
        },
        PeerEvent::Other => false,
        PeerEvent::Ended => true,
    }
}

/// The answer to an offer, where there is one.
pub fn answer_of(answer: Option<String>) -> (r: Result<String, String>)
    ensures
        match answer {
            Some(s) => r matches Ok(t) && t@ == s@,
            None => r matches Err(e) && e@ == "answer generation timeout"@,
        },
{
    match answer {
        Some(s) => Ok(s),
        None => Err("answer generation timeout".to_owned()),
    }
}

// ── The life of a connection ────────────────────────────────────────

/// How long a connection may be interrupted, in milliseconds.
pub const GRACE_MS: u64 = 30_000;

/// A direct connection to a browser: until when it may stay interrupted.
#[derive(Debug)]
pub struct Bridge {
    pub deadline: Option<u64>,
}

/// What a change of a connection's state asks for.
#[derive(Debug, Clone, Copy, PartialEq, Eq, Structural)]
pub enum BridgeStep {
    Continue,
    /// Stop sending over the connection, for now.
    Suspend,
    /// Stop sending over the connection, for good.
    Close,
}

impl Bridge {
    /// A connection that is not interrupted.
    pub fn new() -> (r: Self)
        ensures
            r.deadline is None,
    {
        Bridge { deadline: None }
    }

    /// Takes a new state of the connection. One that is interrupted may recover for
    /// a while; one that failed or closed is over.
    pub fn on_state(&mut self, state: &str, now: u64) -> (r: BridgeStep)
        requires
            now <= u64::MAX - GRACE_MS,
        ensures
            r == (if state@ == "closed"@ || state@ == "failed"@ {
                BridgeStep::Close
            } else if state@ == "disconnected"@ {
                BridgeStep::Suspend
            } else {
                BridgeStep::Continue
            }),
            final(self).deadline == (if state@ == "disconnected"@ {
                Some((now + GRACE_MS) as u64)
            } else if state@ == "connected"@ {
                None
            } else {
                old(self).deadline
            }),
    {
        if text::same(state, "closed") || text::same(state, "failed") {
            proof {
                reveal_strlit("closed");
                reveal_strlit("failed");
                reveal_strlit("disconnected");
                reveal_strlit("connected");
                assert("closed"@.len() == 6 && "failed"@.len() == 6 && "disconnected"@.len() == 12
                    && "connected"@.len() == 9);
            }
            return BridgeStep::Close;
        }
        if text::same(state, "disconnected") {
            self.deadline = Some(now + GRACE_MS);
            return BridgeStep::Suspend;
        }
        if text::same(state, "connected") {
            self.deadline = None;
        }
        BridgeStep::Continue
    }

    /// Whether the connection is over because it did not recover in time.
    pub fn expired(&self, now: u64) -> (r: bool)
        ensures
            r == (self.deadline matches Some(d) && now >= d),
    {
        match self.deadline {
            Some(d) => now >= d,
            None => false,
        }
    }
}

/// The input that a browser typed, by the bytes that came.
pub fn terminal_input(data: &[u8]) -> (r: Option<AgentEvent>)
    ensures
        if bytes::shown_text(data@).len() == 0 {
            r is None
        } else {
            r matches Some(e) && e@ == (AgentEventView::PtyInput {
                data: bytes::shown_text(data@),
            })
        },
{
    let s = bytes::utf8_lossy(data);
    if s.as_str().is_empty() {
        None
    } else {
        Some(AgentEvent::PtyInput { data: s })
    }
}

// ── Events to the browser ───────────────────────────────────────────

/// A message about an event.
pub open spec fn pushed(event: Seq<char>) -> JsonView {
    JsonView::object().put_text("event"@, event)
}

fn push(event: &str) -> (r: Json)
    ensures
        r@ == pushed(event@),
{
    Json::object().put_text("event", event)
}

/// What a browser is told of an event over a direct connection; of some, nothing.
pub open spec fn relayed(e: AgentEventView) -> Option<JsonView> {
    match e {
        AgentEventView::TtsStream { msg_id, text, original_text, voice, emotion, replying_to, split_chars, min_chunk_chars, conditionals_b64 } => Some(
            pushed("tts_stream"@).put_text("msg_id"@, msg_id).put_text("text"@, text).put_text("original_text"@, original_text).put_text("voice"@, voice).put_text("emotion"@, emotion).put_text("replying_to"@, replying_to).put_text("split_chars"@, split_chars).put_uint("min_chunk_chars"@, min_chunk_chars).put_text("conditionals_b64"@, conditionals_b64),
        ),
        AgentEventView::TtsAudioData { msg_id, chunk, total, audio_b64, duration_sec, generation_sec } => Some(
            pushed("tts_audio_data"@).put_text("msg_id"@, msg_id).put_uint("chunk"@, chunk).put_uint("total"@, total).put_text("audio_b64"@, audio_b64).put("duration_sec"@, JsonView::Real(duration_sec)).put("generation_sec"@, JsonView::Real(generation_sec)),
        ),
        AgentEventView::TtsGenerating { msg_id, chunk, total } => Some(
            pushed("tts_generating"@).put_text("msg_id"@, msg_id).put_uint("chunk"@, chunk).put_uint("total"@, total),
        ),
        AgentEventView::Led { emotion } => Some(
            pushed("led"@).put_text("emotion"@, emotion),
        ),
        AgentEventView::Transcription { text } => Some(
            pushed("transcription"@).put_text("text"@, text),
        ),
        AgentEventView::Hive { sender, text } => Some(
            pushed("hive"@).put_text("sender"@, sender).put_text("text"@, text),
        ),
        AgentEventView::HiveRoom { sender, room_id, room_topic, text } => Some(
            pushed("hive_room"@).put_text("sender"@, sender).put_text("room_id"@, room_id).put_text("room_topic"@, room_topic).put_text("text"@, text),
        ),
        AgentEventView::BrowserEval { eval_id, code, session_id } => Some(
            ({
                let m = pushed("browser_eval"@).put_text("eval_id"@, eval_id).put_text(
                    "code"@,
                    code,
                );
                match session_id {
                    Some(id) => m.put_uint("target_session_id"@, id),
                    None => m,
                }
            }),
        ),
        AgentEventView::Notification { title, body, level, action } => Some(
            pushed("notification"@).put_text("title"@, title).put_text("body"@, body).put_text(
                "level"@,
                level,
            ).put(
                "action"@,
                match action {
                    Some(a) => a,
                    None => JsonView::Null,
                },
            ),
        ),
        AgentEventView::Tts { text, msg_id, voice } => Some(
            terminal::typed("tts"@).put_text("text"@, text).put_text("msg_id"@, msg_id).put_text(
                "voice"@,
                voice,
            ),
        ),
        _ => None,
    }
}

/// What a browser is told of an event over a direct connection.
pub fn relay(e: &AgentEvent) -> (r: Option<Json>)
    ensures
        json::opt_view(r) == relayed(e@),
{
    match e {
        AgentEvent::TtsStream { msg_id, text, original_text, voice, emotion, replying_to, split_chars, min_chunk_chars, conditionals_b64 } => Some(
            push("tts_stream").put_text("msg_id", msg_id.as_str()).put_text("text", text.as_str()).put_text("original_text", original_text.as_str()).put_text("voice", voice.as_str()).put_text("emotion", emotion.as_str()).put_text("replying_to", replying_to.as_str()).put_text("split_chars", split_chars.as_str()).put_uint("min_chunk_chars", *min_chunk_chars).put_text("conditionals_b64", conditionals_b64.as_str()),
        ),
        AgentEvent::TtsAudioData { msg_id, chunk, total, audio_b64, duration_sec, generation_sec } => Some(
            push("tts_audio_data").put_text("msg_id", msg_id.as_str()).put_uint("chunk", *chunk).put_uint("total", *total).put_text("audio_b64", audio_b64.as_str()).put("duration_sec", Json::Real(duration_sec.clone())).put("generation_sec", Json::Real(generation_sec.clone())),
        ),
        AgentEvent::TtsGenerating { msg_id, chunk, total } => Some(
            push("tts_generating").put_text("msg_id", msg_id.as_str()).put_uint("chunk", *chunk).put_uint("total", *total),
        ),
        AgentEvent::Led { emotion } => Some(
            push("led").put_text("emotion", emotion.as_str()),
        ),
        AgentEvent::Transcription { text } => Some(
            push("transcription").put_text("text", text.as_str()),
        ),
        AgentEvent::Hive { sender, text } => Some(
            push("hive").put_text("sender", sender.as_str()).put_text("text", text.as_str()),
        ),
        AgentEvent::HiveRoom { sender, room_id, room_topic, text } => Some(
            push("hive_room").put_text("sender", sender.as_str()).put_text("room_id", room_id.as_str()).put_text("room_topic", room_topic.as_str()).put_text("text", text.as_str()),
        ),
        AgentEvent::BrowserEval { eval_id, code, session_id } => {
            let m = push("browser_eval").put_text("eval_id", eval_id.as_str()).put_text(
                "code",
                code.as_str(),
            );
            match session_id {
                Some(id) => Some(m.put_uint("target_session_id", *id)),
                None => Some(m),
            }
        },
        AgentEvent::Notification { title, body, level, action } => {
            let a = match action {
                Some(a) => a.copy(),
                None => Json::Null,
            };
            Some(
                push("notification").put_text("title", title.as_str()).put_text(
                    "body",
                    body.as_str(),
                ).put_text("level", level.as_str()).put("action", a),
            )
        },
        AgentEvent::Tts { text, msg_id, voice } => Some(
            Json::object().put_text("type", "tts").put_text("text", text.as_str()).put_text(
                "msg_id",
                msg_id.as_str(),
            ).put_text("voice", voice.as_str()),
        ),
        _ => None,
    }
}

/// Over a direct connection a browser is told everything that an event says: which event
/// it is, and each of its parts under its own name.
pub proof fn law_events_relayed(e: AgentEventView)
    ensures
        match e {
            AgentEventView::TtsStream {
                msg_id,
                text,
                original_text,
                voice,
                emotion,
                replying_to,
                split_chars,
                min_chunk_chars,
                conditionals_b64,
            } => relayed(e) matches Some(j) && j.is("event"@, "tts_stream"@) && j.text("msg_id"@)
                == Some(msg_id) && j.text("text"@) == Some(text) && j.text("original_text"@)
                == Some(original_text) && j.text("voice"@) == Some(voice) && j.text("emotion"@)
                == Some(emotion) && j.text("replying_to"@) == Some(replying_to) && j.text(
                "split_chars"@,
            ) == Some(split_chars) && j.uint("min_chunk_chars"@) == Some(min_chunk_chars)
                && j.text("conditionals_b64"@) == Some(conditionals_b64),
            AgentEventView::TtsAudioData {
                msg_id,
                chunk,
                total,
                audio_b64,
                duration_sec,
                generation_sec,
            } => relayed(e) matches Some(j) && j.is("event"@, "tts_audio_data"@) && j.text(
                "msg_id"@,
            ) == Some(msg_id) && j.uint("chunk"@) == Some(chunk) && j.uint("total"@) == Some(total)
                && j.text("audio_b64"@) == Some(audio_b64) && j.field("duration_sec"@) == Some(
                JsonView::Real(duration_sec),
            ) && j.field("generation_sec"@) == Some(JsonView::Real(generation_sec)),
            AgentEventView::TtsGenerating { msg_id, chunk, total } => relayed(e) matches Some(j)
                && j.is("event"@, "tts_generating"@) && j.text("msg_id"@) == Some(msg_id) && j.uint(
                "chunk"@,
            ) == Some(chunk) && j.uint("total"@) == Some(total),
            AgentEventView::Led { emotion } => relayed(e) matches Some(j) && j.is(
                "event"@,
                "led"@,
            ) && j.text("emotion"@) == Some(emotion),
            AgentEventView::Transcription { text } => relayed(e) matches Some(j) && j.is(
                "event"@,
                "transcription"@,
            ) && j.text("text"@) == Some(text),
            AgentEventView::Hive { sender, text } => relayed(e) matches Some(j) && j.is(
                "event"@,
                "hive"@,
            ) && j.text("sender"@) == Some(sender) && j.text("text"@) == Some(text),
            AgentEventView::HiveRoom { sender, room_id, room_topic, text } => relayed(
                e,
            ) matches Some(j) && j.is("event"@, "hive_room"@) && j.text("sender"@) == Some(sender)
                && j.text("room_id"@) == Some(room_id) && j.text("room_topic"@) == Some(room_topic)
                && j.text("text"@) == Some(text),
            AgentEventView::BrowserEval { eval_id, code, session_id } => relayed(e) matches Some(j)
                && j.is("event"@, "browser_eval"@) && j.text("eval_id"@) == Some(eval_id) && j.text(
                "code"@,
            ) == Some(code) && j.uint("target_session_id"@) == session_id,
            AgentEventView::Notification { title, body, level, action } => relayed(
                e,
            ) matches Some(j) && j.is("event"@, "notification"@) && j.text("title"@) == Some(title)
                && j.text("body"@) == Some(body) && j.text("level"@) == Some(level) && j.field(
                "action"@,
            ) == Some(
                match action {
                    Some(a) => a,
                    None => JsonView::Null,
                },
            ),
            AgentEventView::Tts { text, msg_id, voice } => relayed(e) matches Some(j) && j.is(
                "type"@,
                "tts"@,
            ) && j.text("text"@) == Some(text) && j.text("msg_id"@) == Some(msg_id) && j.text(
                "voice"@,
            ) == Some(voice),
            _ => true,
        },
{
    broadcast use json::lemma_put_field;
    broadcast use json::lemma_object_field;

    reveal_strlit("event");
    reveal_strlit("type");
    reveal_strlit("text");
    reveal_strlit("sender");
    reveal_strlit("room_id");
    reveal_strlit("room_topic");
    reveal_strlit("msg_id");
    reveal_strlit("voice");
    reveal_strlit("chunk");
    reveal_strlit("total");
    reveal_strlit("original_text");
    reveal_strlit("emotion");
    reveal_strlit("replying_to");
    reveal_strlit("split_chars");
    reveal_strlit("min_chunk_chars");
    reveal_strlit("conditionals_b64");
    reveal_strlit("eval_id");
    reveal_strlit("code");
    reveal_strlit("target_session_id");
    reveal_strlit("audio_b64");
    reveal_strlit("duration_sec");
    reveal_strlit("generation_sec");
    reveal_strlit("title");
    reveal_strlit("body");
    reveal_strlit("level");
    reveal_strlit("action");
    assert("event"@.len() == 5 && "type"@.len() == 4 && "text"@.len() == 4 && "sender"@.len() == 6 && "room_id"@.len() == 7 && "room_topic"@.len() == 10 && "msg_id"@.len() == 6 && "voice"@.len() == 5 && "chunk"@.len() == 5 && "total"@.len() == 5 && "original_text"@.len() == 13 && "emotion"@.len() == 7 && "replying_to"@.len() == 11 && "split_chars"@.len() == 11 && "min_chunk_chars"@.len() == 15 && "conditionals_b64"@.len() == 16 && "eval_id"@.len() == 7 && "code"@.len() == 4 && "target_session_id"@.len() == 17 && "audio_b64"@.len() == 9 && "duration_sec"@.len() == 12 && "generation_sec"@.len() == 14 && "title"@.len() == 5 && "body"@.len() == 4 && "level"@.len() == 5 && "action"@.len() == 6);
    assert("event"@[0] != "voice"@[0]);
    assert("event"@[0] != "chunk"@[0]);
    assert("event"@[0] != "total"@[0]);
    assert("event"@[0] != "title"@[0]);
    assert("event"@[0] != "level"@[0]);
    assert("voice"@[0] != "chunk"@[0]);
    assert("voice"@[0] != "total"@[0]);
    assert("voice"@[0] != "title"@[0]);
    assert("voice"@[0] != "level"@[0]);
    assert("chunk"@[0] != "total"@[0]);
    assert("chunk"@[0] != "title"@[0]);
    assert("chunk"@[0] != "level"@[0]);
    assert("total"@[1] != "title"@[1]);
    assert("total"@[0] != "level"@[0]);
    assert("title"@[0] != "level"@[0]);
    assert("type"@[1] != "text"@[1]);
    assert("type"@[0] != "code"@[0]);
    assert("type"@[0] != "body"@[0]);
    assert("text"@[0] != "code"@[0]);
    assert("text"@[0] != "body"@[0]);
    assert("code"@[0] != "body"@[0]);
    assert("sender"@[0] != "msg_id"@[0]);
    assert("sender"@[0] != "action"@[0]);
    assert("msg_id"@[0] != "action"@[0]);
    assert("room_id"@[0] != "emotion"@[0]);
    assert("room_id"@[0] != "eval_id"@[0]);
    assert("emotion"@[1] != "eval_id"@[1]);
    assert("replying_to"@[0] != "split_chars"@[0]);
}

/// Speech reaches a browser by exactly one way, with its message's id and, where it has
/// one, its text: over the WebSocket without a peer connection, and over that with one.
pub proof fn law_speech_one_way(e: AgentEventView, members: Seq<Seq<char>>)
    requires
        e is Tts || e is TtsGenerating || e is TtsStream,
    ensures
        terminal::event_emission(e, true, members) is Nothing,
        relayed(e) is Some,
        terminal::event_emission(e, false, members) is Critical || terminal::event_emission(
            e,
            false,
            members,
        ) is BestEffort,
        terminal::carried(terminal::event_emission(e, false, members)).text("msg_id"@) == (
        match e {
            AgentEventView::Tts { text, msg_id, voice } => Some(msg_id),
            AgentEventView::TtsGenerating { msg_id, chunk, total } => Some(msg_id),
            _ => Some(e->TtsStream_msg_id),
        }),
        terminal::carried(terminal::event_emission(e, false, members)).text("text"@)
            == relayed(e).unwrap().text("text"@),
        terminal::carried(terminal::event_emission(e, false, members)).text("msg_id"@)
            == relayed(e).unwrap().text("msg_id"@),
        e matches AgentEventView::Tts { text, msg_id, voice } ==> relayed(e).unwrap().text("text"@)
            == Some(text),
        e is TtsStream ==> relayed(e).unwrap().text("text"@) == Some(e->TtsStream_text),
{
    broadcast use json::lemma_put_field;
    broadcast use json::lemma_object_field;

    terminal::law_events_told(e, members);
    law_events_relayed(e);
    reveal_strlit("type");
    reveal_strlit("event");
    reveal_strlit("text");
    reveal_strlit("msg_id");
    reveal_strlit("chunk");
    reveal_strlit("total");
    assert("type"@.len() == 4 && "event"@.len() == 5 && "text"@.len() == 4 && "msg_id"@.len() == 6 && "chunk"@.len() == 5 && "total"@.len() == 5);
    assert("type"@[1] != "text"@[1]);
    assert("event"@[0] != "chunk"@[0]);
    assert("event"@[0] != "total"@[0]);
    assert("chunk"@[0] != "total"@[0]);
}

/// How often in a row a connection could not keep up.
#[derive(Debug)]
pub struct Relay {
    pub lags: u32,
}

/// What the relay does next: it ends, or it sends a message, or nothing.
pub enum RelayStep {
    Send(Json),
    Skip,
    End,
}

impl Relay {
    /// Whether the connection keeps up.
    pub open spec fn wf(self) -> bool {
        self.lags < terminal::MAX_LAGS
    }

    /// At the start.
    pub fn new() -> (r: Self)
        ensures
            r.wf(),
            r.lags == 0,
    {
        Relay { lags: 0 }
    }

    /// Takes what the daemon receives. A connection that fails to keep up too often in
    /// a row is ended; a message that is sent starts the count over.
    pub fn step(&mut self, received: &Received<AgentEvent>) -> (r: RelayStep)
        requires
            old(self).wf(),
        ensures
            match received {
                Received::Item(e) => match relayed(e@) {
                    Some(j) => r matches RelayStep::Send(m) && m@ == j && final(self).lags == 0,
                    None => r is Skip && final(self).lags == old(self).lags,
                },
                Received::Lagged(_) => final(self).lags == old(self).lags + 1 && (r is End
                    <==> final(self).lags >= terminal::MAX_LAGS) && !(r is Send),
                Received::Closed => r is End && final(self).lags == old(self).lags,
            },
            !(r is End) ==> final(self).wf(),
    {
        match received {
            Received::Item(e) => match relay(e) {
                Some(j) => {
                    self.lags = 0;
                    RelayStep::Send(j)
                },
                None => RelayStep::Skip,
            },
            Received::Lagged(_) => {
                self.lags = self.lags + 1;
                if self.lags >= terminal::MAX_LAGS {
                    RelayStep::End
                } else {
                    RelayStep::Skip
                }
            },
            Received::Closed => RelayStep::End,
        }
    }
}

// ── Control messages ────────────────────────────────────────────────

/// What to do with a control message.
#[derive(Debug)]
pub enum ControlAction {
    Nothing,
    Reply(Json),
    /// Answer a request.
    Rpc { id: String, path: String, body: Option<Json> },
    /// Note what the browser says of itself.
    BrowserInfo { volume: u8, audio_context: bool },
    Resize { rows: u16, cols: u16 },
    /// Pass input to the terminal.
    Input(String),
    EvalResult { eval_id: String, result: String },
}

/// The mathematical value of a [`ControlAction`].
#[verifier::ext_equal]
pub enum ControlActionView {
    Nothing,
    Reply(JsonView),
    Rpc { id: Seq<char>, path: Seq<char>, body: Option<JsonView> },
    BrowserInfo { volume: u8, audio_context: bool },
    Resize { rows: u16, cols: u16 },
    Input(Seq<char>),
    EvalResult { eval_id: Seq<char>, result: Seq<char> },
}

impl View for ControlAction {
    type V = ControlActionView;

    open spec fn view(&self) -> ControlActionView {
        match self {
            ControlAction::Nothing => ControlActionView::Nothing,
            ControlAction::Reply(a) => ControlActionView::Reply(a@),
            ControlAction::Rpc { id, path, body } => ControlActionView::Rpc {
                id: id@,
                path: path@,
                body: crate::json::opt_view(*body),
            },
            ControlAction::BrowserInfo { volume, audio_context } => ControlActionView::BrowserInfo {
                volume: *volume,
                audio_context: *audio_context,
            },
            ControlAction::Resize { rows, cols } => ControlActionView::Resize {
                rows: *rows,
                cols: *cols,
            },
            ControlAction::Input(a) => ControlActionView::Input(a@),
            ControlAction::EvalResult { eval_id, result } => ControlActionView::EvalResult {
                eval_id: eval_id@,
                result: result@,
            },
        }
    }
}

/// Whether a password is right; without a hash any is.
pub open spec fn lets_in(hash: Option<Seq<char>>, password: Seq<char>) -> bool {
    match hash {
        Some(h) => config::password_ok(password, h),
        None => true,
    }
}

/// What to do with a control message of a browser that is let in.
pub open spec fn control(v: JsonView) -> ControlActionView {
    match v.text("id"@) {
        Some(id) => ControlActionView::Rpc {
            id,
            path: v.text_or("path"@, "/"@),
            body: v.field("body"@),
        },
        None => {
            let kind = v.text_or("type"@, ""@);
            if kind == "browser_info"@ {
                ControlActionView::BrowserInfo {
                    volume: (v.uint_or("volume"@, 100) % 256) as u8,
                    audio_context: v.truth_or("audio_context"@, false),
                }
            } else if kind == "resize"@ {
                ControlActionView::Resize {
                    rows: (v.uint_or("rows"@, 24) % 65536) as u16,
                    cols: (v.uint_or("cols"@, 80) % 65536) as u16,
                }
            } else if kind == "terminal_input"@ && v.text("data"@) is Some {
                ControlActionView::Input(v.text("data"@).unwrap())
            } else if kind == "eval_result"@ {
                ControlActionView::EvalResult {
                    eval_id: v.text_or("eval_id"@, ""@),
                    result: v.text_or("result"@, ""@),
                }
            } else {
                ControlActionView::Nothing
            }
        },
    }
}

/// What to do with a control message, and whether the browser is let in then.
pub open spec fn controlled(v: JsonView, hash: Option<Seq<char>>, inside: bool) -> (
    ControlActionView,
    bool,
) {
    if v.text_or("type"@, ""@) == "auth"@ {
        if lets_in(hash, v.text_or("password"@, ""@)) {
            (ControlActionView::Reply(terminal::typed("auth_ok"@)), true)
        } else {
            (ControlActionView::Reply(terminal::typed("auth_failed"@)), inside)
        }
    } else if !inside {
        (ControlActionView::Reply(terminal::typed("auth_required"@)), false)
    } else {
        (control(v), true)
    }
}

fn typed_reply(kind: &str) -> (r: ControlAction)
    ensures
        r@ == ControlActionView::Reply(terminal::typed(kind@)),
{
    ControlAction::Reply(Json::object().put_text("type", kind))
}

/// What to do with a control message. Before a browser is let in, only its password
/// is looked at.
pub fn handle_control_message(value: &Json, hash: Option<&str>, authenticated: &mut bool) -> (r:
    ControlAction)
    ensures
        (r@, *final(authenticated)) == controlled(value@, config::opt(hash), *old(authenticated)),
{
    let kind = value.text_or("type", "");
    let k = kind.as_str();
    if text::same(k, "auth") {
        let password = value.text_or("password", "");
        let ok: bool = match hash {
            Some(h) => Config::verify_daemon_password(password.as_str(), h),
            None => true,
        };
        if ok {
            *authenticated = true;
            return typed_reply("auth_ok");
        }
        return typed_reply("auth_failed");
    }
    if !*authenticated {
        return typed_reply("auth_required");
    }
    match value.text("id") {
        Some(id) => {
            let path = value.text_or("path", "/");
            let body = value.member("body");
            return ControlAction::Rpc { id, path, body };
        },
        None => {},
    }
    if text::same(k, "browser_info") {
        ControlAction::BrowserInfo {
            volume: (value.uint_or("volume", 100) % 256) as u8,
            audio_context: value.truth_or("audio_context", false),
        }
    } else if text::same(k, "resize") {
        ControlAction::Resize {
            rows: (value.uint_or("rows", 24) % 65536) as u16,
            cols: (value.uint_or("cols", 80) % 65536) as u16,
        }
    } else if text::same(k, "terminal_input") {
        match value.text("data") {
            Some(data) => ControlAction::Input(data),
            None => {
                proof {
                    reveal_strlit("terminal_input");
                    reveal_strlit("eval_result");
                    assert("terminal_input"@.len() != "eval_result"@.len());
                }
                ControlAction::Nothing
            },
        }
    } else if text::same(k, "eval_result") {
        ControlAction::EvalResult {
            eval_id: value.text_or("eval_id", ""),
            result: value.text_or("result", ""),
        }
    } else {
        ControlAction::Nothing
    }
}

/// A browser that is not let in reaches nothing: whatever it sends is answered, and
/// only the right password lets it in.
pub proof fn law_control_gate(v: JsonView, hash: Option<Seq<char>>)
    ensures
        controlled(v, hash, false).0 is Reply,
        controlled(v, hash, false).1 ==> lets_in(hash, v.text_or("password"@, ""@)),
{
}

// ── Requests ────────────────────────────────────────────────────────

/// What the daemon keeps that requests ask for.
pub struct Kept {
    pub tts_history: Json,
    pub info_archive: Json,
    pub console: Vec<String>,
    pub local_gpu_url: String,
    pub force_lowercase: bool,
}

/// The answer to a request.
pub open spec fn rpc_reply(id: Seq<char>, status: u64, body: JsonView) -> JsonView {
    JsonView::object().put_text("id"@, id).put_uint("status"@, status).put("body"@, body)
}

/// The body of the answer to a request; nothing for a path that is not known.
pub open spec fn rpc_body(path: Seq<char>, k: Kept) -> Option<JsonView> {
    if path == "/api/init-bundle"@ {
        Some(
            JsonView::object().put("tts_history"@, k.tts_history@).put(
                "info_archive"@,
                k.info_archive@,
            ).put(
                "gpu_config"@,
                JsonView::object().put_text("local_gpu_url"@, k.local_gpu_url@),
            ),
        )
    } else if path == "/api/tts-history"@ {
        Some(k.tts_history@)
    } else if path == "/api/inject"@ || path == "/api/submitTranscription"@ {
        Some(JsonView::object().put_bool("ok"@, true))
    } else if path == "/api/tts"@ {
        Some(JsonView::object().put_text("status"@, "streaming"@))
    } else if path == "/api/info"@ {
        Some(k.info_archive@)
    } else if path == "/api/browser-console"@ {
        Some(json::texts(text::views(k.console@)))
    } else {
        None
    }
}

/// The event that a request raises.
pub open spec fn rpc_event(
    path: Seq<char>,
    body: Option<JsonView>,
    force_lowercase: bool,
) -> Option<AgentEventView> {
    match body {
        None => None,
        Some(b) => if path == "/api/inject"@ || path == "/api/submitTranscription"@ {
            match b.text("text"@) {
                Some(text) => Some(AgentEventView::Transcription { text }),
                None => None,
            }
        } else if path == "/api/tts"@ {
            let said = b.text_or("text"@, ""@);
            Some(
                AgentEventView::TtsStream {
                    msg_id: b.text_or("msg_id"@, ""@),
                    text: if force_lowercase {
                        text::lowercase(said)
                    } else {
                        said
                    },
                    original_text: said,
                    voice: b.text_or("voice"@, "default"@),
                    emotion: b.text_or("emotion"@, ""@),
                    replying_to: ""@,
                    split_chars: ".!?"@,
                    min_chunk_chars: 80,
                    conditionals_b64: ""@,
                },
            )
        } else {
            None
        },
    }
}

/// The event that a request raises.
fn event_for(path: &str, body: Option<&Json>, force_lowercase: bool) -> (r: Option<AgentEvent>)
    ensures
        (match r {
            Some(e) => Some(e@),
            None => None,
        }) == rpc_event(
            path@,
            match body {
                Some(b) => Some(b@),
                None => None,
            },
            force_lowercase,
        ),
{
    let b = match body {
        None => {
            return None;
        },
        Some(b) => b,
    };
    if text::same(path, "/api/inject") || text::same(path, "/api/submitTranscription") {
        match b.text("text") {
            Some(text) => Some(AgentEvent::Transcription { text }),
            None => None,
        }
    } else if text::same(path, "/api/tts") {
        let said = b.text_or("text", "");
        let cleaned = if force_lowercase {
            text::to_lowercase(said.as_str())
        } else {
            said.clone()
        };
        Some(
            AgentEvent::TtsStream {
                msg_id: b.text_or("msg_id", ""),
                text: cleaned,
                original_text: said,
                voice: b.text_or("voice", "default"),
                emotion: b.text_or("emotion", ""),
                replying_to: "".to_owned(),
                split_chars: ".!?".to_owned(),
                min_chunk_chars: 80,
                conditionals_b64: "".to_owned(),
            },
        )
    } else {
        None
    }
}

/// The body of the answer to a request.
fn body_for(path: &str, k: &Kept) -> (r: Option<Json>)
    ensures
        json::opt_view(r) == rpc_body(path@, *k),
{
    if text::same(path, "/api/init-bundle") {
        let gpu = Json::object().put_text("local_gpu_url", k.local_gpu_url.as_str());
        Some(
            Json::object().put("tts_history", k.tts_history.copy()).put(
                "info_archive",
                k.info_archive.copy(),
            ).put("gpu_config", gpu),
        )
    } else if text::same(path, "/api/tts-history") {
        Some(k.tts_history.copy())
    } else if text::same(path, "/api/inject") || text::same(path, "/api/submitTranscription") {
        Some(Json::object().put_bool("ok", true))
    } else if text::same(path, "/api/tts") {
        Some(Json::object().put_text("status", "streaming"))
    } else if text::same(path, "/api/info") {
        Some(k.info_archive.copy())
    } else if text::same(path, "/api/browser-console") {
        Some(Json::texts(k.console.as_slice()))
    } else {
        None
    }
}

/// The answer to a request, and the event that it raises.
pub fn handle_rpc(id: &str, path: &str, body: Option<&Json>, k: &Kept) -> (r: (
    Json,
    Option<AgentEvent>,
))
    ensures
        r.0@ == (match rpc_body(path@, *k) {
            Some(b) => rpc_reply(id@, 200, b),
            None => rpc_reply(id@, 404, JsonView::object().put_text("error"@, "not found"@)),
        }),
        (match r.1 {
            Some(e) => Some(e@),
            None => None,
        }) == rpc_event(
            path@,
            match body {
                Some(b) => Some(b@),
                None => None,
            },
            k.force_lowercase,
        ),
{
    let event = event_for(path, body, k.force_lowercase);
    let reply = match body_for(path, k) {
        Some(b) => Json::object().put_text("id", id).put_uint("status", 200).put("body", b),
        None => {
            let e = Json::object().put_text("error", "not found");
            Json::object().put_text("id", id).put_uint("status", 404).put("body", e)
        },
    };
    (reply, event)
}

// ── Laws ────────────────────────────────────────────────────────────

/// A message over a direct connection is understood as it says: a call with its path and
/// its body, and each other message with its parts.
pub proof fn law_control_understood(v: JsonView, hash: Option<Seq<char>>)
    requires
        v.text_or("type"@, ""@) != "auth"@,
    ensures
        forall|id: Seq<char>, path: Seq<char>| #[trigger]
            v.is("id"@, id) && #[trigger] v.is("path"@, path) ==> controlled(v, hash, true).0 == (
            ControlActionView::Rpc { id, path, body: v.field("body"@) }),
        forall|data: Seq<char>|
            v.text("id"@) is None && v.is("type"@, "terminal_input"@) && #[trigger] v.is(
                "data"@,
                data,
            ) ==> controlled(v, hash, true).0 == ControlActionView::Input(data),
        forall|rows: u16, cols: u16|
            v.text("id"@) is None && v.is("type"@, "resize"@) && #[trigger] terminal::sized(
                v,
                rows,
                cols,
            ) ==> controlled(v, hash, true).0 == (ControlActionView::Resize { rows, cols }),
        forall|eval_id: Seq<char>, result: Seq<char>|
            v.text("id"@) is None && v.is("type"@, "eval_result"@) && #[trigger] v.is(
                "eval_id"@,
                eval_id,
            ) && #[trigger] v.is("result"@, result) ==> controlled(v, hash, true).0 == (
            ControlActionView::EvalResult { eval_id, result }),
        v.text("id"@) is None && v.is("type"@, "browser_info"@) && v.uint("volume"@) is Some
            && v.uint("volume"@).unwrap() < 256 && v.truth("audio_context"@) is Some
            ==> controlled(v, hash, true).0 == (ControlActionView::BrowserInfo {
            volume: v.uint("volume"@).unwrap() as u8,
            audio_context: v.truth("audio_context"@).unwrap(),
        }),
        controlled(v, hash, true).1,
        controlled(v, hash, false).0 is Reply && !controlled(v, hash, false).1,
{
    reveal_strlit("auth");
    reveal_strlit("browser_info");
    reveal_strlit("resize");
    reveal_strlit("terminal_input");
    reveal_strlit("eval_result");
    assert("auth"@.len() == 4 && "browser_info"@.len() == 12 && "resize"@.len() == 6 && "terminal_input"@.len() == 14 && "eval_result"@.len() == 11);
}

/// The answer to a call bears the call's number.
pub proof fn law_call_answered(id: Seq<char>, status: u64, body: JsonView)
    ensures
        rpc_reply(id, status, body).text("id"@) == Some(id),
        rpc_reply(id, status, body).uint("status"@) == Some(status),
        rpc_reply(id, status, body).field("body"@) == Some(body),
{
    broadcast use json::lemma_put_field;
    broadcast use json::lemma_object_field;

    reveal_strlit("id");
    reveal_strlit("status");
    reveal_strlit("body");
    assert("id"@.len() == 2 && "status"@.len() == 6 && "body"@.len() == 4);
}

/// What a browser says over a direct connection reaches the assistant as it was said, and
/// what is to be spoken reaches the browsers so.
pub proof fn law_calls_carried_out(body: JsonView, said: Seq<char>, msg_id: Seq<char>)
    requires
        body.text("text"@) == Some(said),
        body.text("msg_id"@) == Some(msg_id),
    ensures
        rpc_event("/api/inject"@, Some(body), false) == Some(
            AgentEventView::Transcription { text: said },
        ),
        rpc_event("/api/submitTranscription"@, Some(body), true) == Some(
            AgentEventView::Transcription { text: said },
        ),
        rpc_event("/api/tts"@, Some(body), false) matches Some(e) && e is TtsStream
            && e->TtsStream_text == said && e->TtsStream_original_text == said
            && e->TtsStream_msg_id == msg_id,
        rpc_event("/api/tts"@, Some(body), true) matches Some(e) && e is TtsStream
            && e->TtsStream_text == text::lowercase(said) && e->TtsStream_original_text == said,
{
    reveal_strlit("/api/inject");
    reveal_strlit("/api/submitTranscription");
    reveal_strlit("/api/tts");
    assert("/api/inject"@.len() == 11 && "/api/submitTranscription"@.len() == 24 && "/api/tts"@.len() == 8);
}

/// What is kept is handed out as it is.
pub proof fn law_kept_handed_out(k: Kept)
    ensures
        rpc_body("/api/tts-history"@, k) == Some(k.tts_history@),
        rpc_body("/api/info"@, k) == Some(k.info_archive@),
        rpc_body("/api/init-bundle"@, k) matches Some(j) && j.field("tts_history"@) == Some(
            k.tts_history@,
        ) && j.field("info_archive"@) == Some(k.info_archive@),
        rpc_body("/api/browser-console"@, k) == Some(json::texts(text::views(k.console@))),
{
    broadcast use json::lemma_put_field;
    broadcast use json::lemma_object_field;

    reveal_strlit("/api/init-bundle");
    reveal_strlit("/api/tts-history");
    reveal_strlit("/api/inject");
    reveal_strlit("/api/submitTranscription");
    reveal_strlit("/api/tts");
    reveal_strlit("/api/info");
    reveal_strlit("/api/browser-console");
    reveal_strlit("tts_history");
    reveal_strlit("info_archive");
    reveal_strlit("gpu_config");
    assert("/api/init-bundle"@.len() == 16 && "/api/tts-history"@.len() == 16 && "/api/inject"@.len() == 11 && "/api/submitTranscription"@.len() == 24 && "/api/tts"@.len() == 8 && "/api/info"@.len() == 9 && "/api/browser-console"@.len() == 20 && "tts_history"@.len() == 11 && "info_archive"@.len() == 12 && "gpu_config"@.len() == 10);
    assert("/api/init-bundle"@[5] != "/api/tts-history"@[5]);
    assert("/api/inject"@[0] != "tts_history"@[0]);
}

/// Where there are credentials, each relay gets them; the other server gets none.
pub proof fn law_relays_credited(stun: Seq<char>, turn: Seq<char>, u: Seq<char>, c: Seq<char>)
    ensures
        servers_of(stun, turn, None) == seq![
            IceServerView { url: stun, username: None, credential: None },
        ],
        servers_of(stun, turn, Some((u, c))).len() == 3,
        servers_of(stun, turn, Some((u, c)))[0] == servers_of(stun, turn, None)[0],
        forall|i: int|
            1 <= i < 3 ==> (#[trigger] servers_of(stun, turn, Some((u, c)))[i]).username == Some(u)
                && servers_of(stun, turn, Some((u, c)))[i].credential == Some(c),
{
}

/// An offer is answered with the answer that was made, with the candidates where they
/// were gathered.
pub proof fn law_answer_collected(sdp: Seq<char>, full: Seq<char>)
    ensures
        answer_step(
            None,
            PeerEventView::LocalDescription { sdp, sdp_type: "answer"@ },
        ) == (Some(sdp), false),
        answer_step(
            Some(sdp),
            PeerEventView::GatheringComplete { description: Some(full) },
        ) == (Some(full), true),
        answer_step(Some(sdp), PeerEventView::GatheringComplete { description: None }) == (
            Some(sdp),
            true,
        ),
        answer_step(Some(sdp), PeerEventView::Other) == (Some(sdp), false),
        answer_step(Some(sdp), PeerEventView::Ended) == (Some(sdp), true),
{
}

} // verus!
