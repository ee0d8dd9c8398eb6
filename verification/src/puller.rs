//! Events that the servers push to the agent.

use std::collections::hash_map::DefaultHasher;
use std::hash::Hasher;

use vstd::prelude::*;
use vstd::std_specs::hash::DefaultHasherAdditionalSpecFns;

use crate::bytes;
use crate::config;
use crate::config::Config;
use crate::crypto;
use crate::events::{AgentEvent, AgentEventView, ChannelEvent, ChannelEventView};
use crate::hive::EncryptedRoomKey;
use crate::hive_integration;
use crate::json;
use crate::json::{Json, JsonView};
use crate::paths;
use crate::text;

verus! {

// ── Messages seen before ────────────────────────────────────────────

/// How many messages are remembered.
pub const MAX_SEEN: usize = 200;

/// How many characters of a message tell it from others.
pub const FINGERPRINT_CHARS: usize = 200;

/// The messages seen last, by their fingerprints, so that none is delivered both
/// when it is pushed and when it is polled for.
#[derive(Debug)]
pub struct HiveDedup {
    seen: Vec<u64>,
}

impl View for HiveDedup {
    type V = Seq<u64>;

    closed spec fn view(&self) -> Seq<u64> {
        self.seen@
    }
}

/// The number that stands for a message: the hash of its sender and of how it begins.
pub open spec fn fingerprint_of(sender: Seq<char>, text: Seq<char>) -> u64 {
    let start = if text.len() <= FINGERPRINT_CHARS {
        text
    } else {
        text.take(FINGERPRINT_CHARS as int)
    };
    DefaultHasher::spec_finish(
        seq![
            vstd::utf8::encode_utf8(sender),
            seq![255u8],
            vstd::utf8::encode_utf8(start),
            seq![255u8],
        ],
    )
}

/// The messages remembered after one more: the oldest goes when there are too many.
pub open spec fn remembered(seen: Seq<u64>, mark: u64) -> Seq<u64> {
    if seen.contains(mark) {
        seen
    } else if seen.len() >= MAX_SEEN {
        seen.skip(1).push(mark)
    } else {
        seen.push(mark)
    }
}

impl HiveDedup {
    #[verifier::type_invariant]
    spec fn bounded(self) -> bool {
        self.seen@.len() <= MAX_SEEN && self.seen@.no_duplicates()
    }

    /// With no message seen.
    pub fn new() -> (r: Self)
        ensures
            r@ == Seq::<u64>::empty(),
    {
        HiveDedup { seen: Vec::new() }
    }

    /// The number that stands for a message.
    pub fn fingerprint(sender: &str, text: &str) -> (r: u64)
        ensures
            r == fingerprint_of(sender@, text@),
    {
        let start = text::take(text, FINGERPRINT_CHARS);
        let a = bytes::bytes_of(sender);
        let b = bytes::bytes_of(start.as_str());
        let end: [u8; 1] = [255u8];
        let mut hasher = DefaultHasher::new();
        hasher.write(a.as_slice());
        hasher.write(end.as_slice());
        hasher.write(b.as_slice());
        hasher.write(end.as_slice());
        assert(end@ =~= seq![255u8]);
        assert(text@.take(text@.len() as int) =~= text@);
        assert(hasher@ =~= seq![a@, seq![255u8], b@, seq![255u8]]);
        hasher.finish()
    }

    /// How many messages are remembered: never more than [`MAX_SEEN`].
    pub fn len(&self) -> (r: usize)
        ensures
            r == self@.len(),
            r <= MAX_SEEN,
    {
        proof {
            use_type_invariant(self);
        }
        self.seen.len()
    }

    /// Whether a fingerprint is remembered; if it was not, it is now.
    pub fn mark(&mut self, mark: u64) -> (r: bool)
        ensures
            r == old(self)@.contains(mark),
            final(self)@ == remembered(old(self)@, mark),
            final(self)@.contains(mark),
    {
        proof {
            use_type_invariant(&*self);
        }
        let mut seen: Vec<u64> = Vec::new();
        std::mem::swap(&mut seen, &mut self.seen);
        let ghost before = seen@;
        let mut found: bool = false;
        let mut i: usize = 0;
        while i < seen.len()
            invariant
                i <= seen.len(),
                seen@ == before,
                found == exists|k: int| 0 <= k < i && before[k] == mark,
            decreases seen.len() - i,
        {
            if seen[i] == mark {
                found = true;
            }
            i = i + 1;
        }
        assert(found == before.contains(mark));
        if !found {
            if seen.len() >= MAX_SEEN {
                seen.remove(0);
                assert(seen@ =~= before.skip(1));
            }
            let ghost kept = seen@;
            seen.push(mark);
            assert(seen@.last() == mark);
            assert(seen@.no_duplicates());
        }
        self.seen = seen;
        found
    }

    /// Whether a message was seen lately; if it was not, it is now.
    pub fn check_and_mark(&mut self, sender: &str, text: &str) -> (r: bool)
        ensures
            r == old(self)@.contains(fingerprint_of(sender@, text@)),
            final(self)@ == remembered(old(self)@, fingerprint_of(sender@, text@)),
            final(self)@.contains(fingerprint_of(sender@, text@)),
    {
        let fp: u64 = Self::fingerprint(sender, text);
        self.mark(fp)
    }
}

/// The fingerprints remembered after several more.
pub open spec fn remembered_all(seen: Seq<u64>, marks: Seq<u64>) -> Seq<u64>
    decreases marks.len(),
{
    if marks.len() == 0 {
        seen
    } else {
        remembered(remembered_all(seen, marks.drop_last()), marks.last())
    }
}

/// How many of several messages were not remembered when they came.
pub open spec fn new_among(seen: Seq<u64>, marks: Seq<u64>) -> nat
    decreases marks.len(),
{
    if marks.len() == 0 {
        0
    } else {
        let before = marks.drop_last();
        new_among(seen, before) + if remembered_all(seen, before).contains(marks.last()) {
            0nat
        } else {
            1
        }
    }
}

/// Where a remembered message stands after several more: once there is no room left
/// it moves towards the front by one place for each new one.
proof fn lemma_stays(seen: Seq<u64>, marks: Seq<u64>, at: int)
    requires
        0 <= at < seen.len() <= MAX_SEEN,
        seen.len() + new_among(seen, marks) - MAX_SEEN <= at,
    ensures
        remembered_all(seen, marks).len() <= MAX_SEEN,
        remembered_all(seen, marks).len() <= seen.len() + new_among(seen, marks),
        exists|k: int|
            {
                &&& at - (seen.len() + new_among(seen, marks) - MAX_SEEN) <= k || k == at
                &&& 0 <= k <= at
                &&& k < remembered_all(seen, marks).len()
                &&& #[trigger] remembered_all(seen, marks)[k] == seen[at]
            },
    decreases marks.len(),
{
    if marks.len() > 0 {
        let fewer = marks.drop_last();
        lemma_stays(seen, fewer, at);
        let s = remembered_all(seen, fewer);
        let k = choose|k: int|
            {
                &&& at - (seen.len() + new_among(seen, fewer) - MAX_SEEN) <= k || k == at
                &&& 0 <= k <= at
                &&& k < s.len()
                &&& #[trigger] s[k] == seen[at]
            };
        let t = remembered_all(seen, marks);
        assert(t == remembered(s, marks.last()));
        if s.contains(marks.last()) {
            assert(t[k] == seen[at]);
        } else if s.len() >= MAX_SEEN {
            assert(k >= 1);
            assert(t[k - 1] == seen[at]);
        } else {
            assert(t[k] == seen[at]);
        }
    } else {
        assert(remembered_all(seen, marks)[at] == seen[at]);
    }
}

/// A message is known as a duplicate until at least [`MAX_SEEN`] new ones came after
/// it, however many known ones did.
pub proof fn law_duplicate_known(seen: Seq<u64>, mark: u64, others: Seq<u64>)
    requires
        seen.len() <= MAX_SEEN,
        !seen.contains(mark),
        new_among(remembered(seen, mark), others) < MAX_SEEN,
    ensures
        remembered_all(remembered(seen, mark), others).contains(mark),
{
    let s = remembered(seen, mark);
    let at = s.len() - 1;
    assert(s[at] == mark);
    lemma_stays(s, others, at);
}

// ── Connections ─────────────────────────────────────────────────────

/// The agent's name in lower case: the part of its address before the `@`.
pub fn agent_name(config: &Config) -> (r: String)
    ensures
        r@ == text::lowercase(config::name_of(config.agent_email@)),
{
    let n = text::before_first(config.agent_email.as_str(), '@');
    text::to_lowercase(n.as_str())
}

/// Whether a server is another than the one at `primary`.
pub open spec fn is_peer(primary: Seq<char>, peer: Seq<char>) -> bool {
    config::host_of(peer) != config::host_of(primary) && config::host_of(peer).len() > 0
}

/// The servers to listen to: the primary, and those on other hosts.
pub fn server_urls(config: &Config) -> (r: Vec<String>)
    ensures
        text::views(r@) == seq![config.api_url@] + text::views(config.servers@).filter(
            |p: Seq<char>| is_peer(config.api_url@, p),
        ),
{
    let ghost all = text::views(config.servers@);
    let ghost keep = |p: Seq<char>| is_peer(config.api_url@, p);
    let mut out: Vec<String> = Vec::new();
    out.push(config.api_url.clone());
    assert(text::views(out@) =~= seq![config.api_url@] + all.take(0).filter(keep)) by {
        reveal(Seq::filter);
        assert(all.take(0).filter(keep) =~= Seq::empty());
    }
    let primary = config::host(config.api_url.as_str());
    let mut i: usize = 0;
    while i < config.servers.len()
        invariant
            i <= config.servers.len(),
            all == text::views(config.servers@),
            keep == (|p: Seq<char>| is_peer(config.api_url@, p)),
            primary@ == config::host_of(config.api_url@),
            text::views(out@) == seq![config.api_url@] + all.take(i as int).filter(keep),
        decreases config.servers.len() - i,
    {
        let peer = config::host(config.servers[i].as_str());
        proof {
            text::lemma_filter_step(all, keep, i as int);
        }
        let ghost before = text::views(out@);
        let empty: bool = peer.as_str().is_empty();
        if !text::same(peer.as_str(), primary.as_str()) && !empty {
            out.push(config.servers[i].clone());
            assert(text::views(out@) =~= before.push(all[i as int]));
        }
        assert(text::views(out@) =~= seq![config.api_url@] + all.take(i + 1).filter(keep));
        i = i + 1;
    }
    assert(all.take(i as int) =~= all);
    out
}

/// The URL at which a server pushes the agent's events.
pub fn events_url(server_url: &str, agent_id: &str) -> (r: String)
    ensures
        r@ == server_url@ + "/api/agents/"@ + agent_id@ + "/events"@,
{
    text::cat4(server_url, "/api/agents/", agent_id, "/events")
}

/// How a connection to a server ended.
#[derive(Debug)]
pub enum SseResult {
    /// It was there until it closed or fell silent.
    CleanClose,
    /// The server refused the credentials.
    PermanentFailure(u16),
    /// The server failed.
    TransientFailure(String),
    /// The server was not reached.
    NetworkError(String),
}

/// The mathematical value of a [`SseResult`].
#[verifier::ext_equal]
pub enum SseResultView {
    CleanClose,
    PermanentFailure(u16),
    TransientFailure(Seq<char>),
    NetworkError(Seq<char>),
}

impl View for SseResult {
    type V = SseResultView;

    open spec fn view(&self) -> SseResultView {
        match self {
            SseResult::CleanClose => SseResultView::CleanClose,
            SseResult::PermanentFailure(a) => SseResultView::PermanentFailure(*a),
            SseResult::TransientFailure(a) => SseResultView::TransientFailure(a@),
            SseResult::NetworkError(a) => SseResultView::NetworkError(a@),
        }
    }
}

/// How a connection that the server answered with the given status ends, where it
/// ends there.
pub open spec fn refusal(status: u16) -> Option<SseResultView> {
    if 200 <= status < 300 {
        None
    } else if status == 401 || status == 403 {
        Some(SseResultView::PermanentFailure(status))
    } else {
        Some(SseResultView::TransientFailure("HTTP "@ + text::decimal(status as nat)))
    }
}

/// How a connection that the server answered with the given status ends, where it
/// ends there.
pub fn classify_status(status: u16) -> (r: Option<SseResult>)
    ensures
        match r {
            Some(x) => refusal(status) == Some(x@),
            None => refusal(status) is None,
        },
{
    if 200 <= status && status < 300 {
        None
    } else if status == 401 || status == 403 {
        Some(SseResult::PermanentFailure(status))
    } else {
        let n = text::to_decimal(status as u64);
        Some(SseResult::TransientFailure(text::cat2("HTTP ", n.as_str())))
    }
}

/// How a stream of events ended.
#[derive(Debug)]
pub enum StreamEnd {
    /// The server ended it.
    Closed,
    /// Nothing came for too long.
    TimedOut,
    /// It broke.
    Broke(String),
}

/// How a connection went, by how its stream ended.
pub fn stream_result(end: StreamEnd) -> (r: SseResult)
    ensures
        match end {
            StreamEnd::Broke(e) => r matches SseResult::TransientFailure(m) && m@ == e@,
            _ => r is CleanClose,
        },
{
    match end {
        StreamEnd::Closed => SseResult::CleanClose,
        StreamEnd::TimedOut => SseResult::CleanClose,
        StreamEnd::Broke(e) => SseResult::TransientFailure(e),
    }
}

/// How many refusals of the credentials end the attempts.
pub const MAX_PERMANENT_FAILURES: u32 = 10;

/// How long to wait between attempts, in milliseconds.
#[derive(Debug)]
pub struct Backoff {
    initial: u64,
    max: u64,
    next: u64,
    /// How many attempts have failed since the last success.
    pub(crate) failures: u32,
}

/// The model of a [`Backoff`].
pub struct BackoffView {
    pub initial: u64,
    pub max: u64,
    pub next: u64,
    pub failures: u32,
}

impl View for Backoff {
    type V = BackoffView;

    closed spec fn view(&self) -> BackoffView {
        BackoffView {
            initial: self.initial,
            max: self.max,
            next: self.next,
            failures: self.failures,
        }
    }
}

impl BackoffView {
    /// One more failure.
    pub open spec fn failed(self) -> u32 {
        if self.failures < u32::MAX {
            (self.failures + 1) as u32
        } else {
            u32::MAX
        }
    }

    /// Twice the wait, up to the longest.
    pub open spec fn doubled(self) -> u64 {
        if 2 * self.next <= self.max {
            (2 * self.next) as u64
        } else {
            self.max
        }
    }
}

impl Backoff {
    #[verifier::type_invariant]
    spec fn bounded(self) -> bool {
        self.next <= self.max && self.initial <= self.max
    }

    /// A wait that starts at `initial` and does not exceed `max`.
    pub fn new(initial: u64, max: u64) -> (r: Self)
        requires
            initial <= max,
        ensures
            r@ == (BackoffView { initial, max, next: initial, failures: 0 }),
    {
        Backoff { initial, max, next: initial, failures: 0 }
    }

    /// How many attempts have failed since the last success.
    pub fn consecutive_failures(&self) -> (r: u32)
        ensures
            r == self@.failures,
    {
        self.failures
    }

    /// The wait after a failure; it never exceeds the longest. The next one is twice
    /// as long.
    pub fn next_delay(&mut self) -> (r: u64)
        ensures
            r == old(self)@.next,
            r <= old(self)@.max,
            final(self)@ == (BackoffView {
                next: old(self)@.doubled(),
                failures: old(self)@.failed(),
                ..old(self)@
            }),
    {
        proof {
            use_type_invariant(&*self);
        }
        let wait: u64 = self.next;
        let next: u64 = if wait <= self.max / 2 {
            wait * 2
        } else {
            self.max
        };
        *self = Backoff {
            initial: self.initial,
            max: self.max,
            next,
            failures: if self.failures < u32::MAX { self.failures + 1 } else { u32::MAX },
        };
        wait
    }

    /// The longest wait, from which later ones do not come down.
    pub fn next_delay_max(&mut self) -> (r: u64)
        ensures
            r == old(self)@.max,
            final(self)@ == (BackoffView {
                next: old(self)@.max,
                failures: old(self)@.failed(),
                ..old(self)@
            }),
    {
        proof {
            use_type_invariant(&*self);
        }
        let wait: u64 = self.max;
        *self = Backoff {
            initial: self.initial,
            max: self.max,
            next: wait,
            failures: if self.failures < u32::MAX { self.failures + 1 } else { u32::MAX },
        };
        wait
    }

    /// After a success all is as at the start.
    pub fn reset(&mut self)
        ensures
            final(self)@ == (BackoffView {
                next: old(self)@.initial,
                failures: 0,
                ..old(self)@
            }),
    {
        proof {
            use_type_invariant(&*self);
        }
        *self = Backoff { initial: self.initial, max: self.max, next: self.initial, failures: 0 };
    }
}

/// The attempts to listen to one server.
#[derive(Debug)]
pub struct Reconnect {
    pub backoff: Backoff,
    pub permanent_failures: u32,
}

impl Reconnect {
    /// Whether the attempts go on.
    pub open spec fn wf(self) -> bool {
        self.permanent_failures < MAX_PERMANENT_FAILURES
    }

    /// Before the first attempt: waits from one second to thirty.
    pub fn new() -> (r: Self)
        ensures
            r.wf(),
            r.permanent_failures == 0,
            r.backoff@ == (BackoffView { initial: 1000, max: 30000, next: 1000, failures: 0 }),
    {
        Reconnect { backoff: Backoff::new(1000, 30000), permanent_failures: 0 }
    }

    /// How long to wait after a connection ended, in milliseconds; nothing where the
    /// credentials were refused too often. A connection that was there starts all
    /// over.
    pub fn after(&mut self, result: &SseResult) -> (r: Option<u64>)
        requires
            old(self).wf(),
        ensures
            r is Some ==> final(self).wf(),
            match result@ {
                SseResultView::CleanClose => r == Some(1000u64) && final(self).permanent_failures == 0
                    && final(self).backoff@ == (BackoffView {
                    next: old(self).backoff@.initial,
                    failures: 0,
                    ..old(self).backoff@
                }),
                SseResultView::PermanentFailure(_) => final(self).permanent_failures == old(
                    self,
                ).permanent_failures + 1 && (r is None <==> final(self).permanent_failures
                    >= MAX_PERMANENT_FAILURES) && (r matches Some(d) ==> d == old(
                    self,
                ).backoff@.max && final(self).backoff@ == (BackoffView {
                    next: old(self).backoff@.max,
                    failures: old(self).backoff@.failed(),
                    ..old(self).backoff@
                })) && (r is None ==> final(self).backoff@ == old(self).backoff@),
                _ => r == Some(old(self).backoff@.next) && final(self).permanent_failures == old(
                    self,
                ).permanent_failures && final(self).backoff@ == (BackoffView {
                    next: old(self).backoff@.doubled(),
                    failures: old(self).backoff@.failed(),
                    ..old(self).backoff@
                }),
            },
    {
        match result {
            SseResult::CleanClose => {
                self.backoff.reset();
                self.permanent_failures = 0;
                Some(1000)
            },
            SseResult::PermanentFailure(_) => {
                self.permanent_failures = self.permanent_failures + 1;
                if self.permanent_failures >= MAX_PERMANENT_FAILURES {
                    return None;
                }
                Some(self.backoff.next_delay_max())
            },
            _ => Some(self.backoff.next_delay()),
        }
    }
}

// ── Events ──────────────────────────────────────────────────────────

/// What to do with an event from a server.
#[derive(Debug)]
pub enum PullAction {
    Ignore,
    /// Tell the assistant what was said.
    Transcription { text: String },
    /// Decrypt and deliver a direct message.
    Dm { sender: String, text: String },
    /// Deliver a message whose time has come; it is decrypted.
    Timelock { sender: String, text: String },
    /// Handle a message to a room.
    Room { sender: String, room_id: String, room_topic: String, text: String },
    /// Write bytes to the terminal.
    Inject(Vec<u8>),
    Resize { rows: u16, cols: u16 },
    /// Fetch a new version.
    Update { version: String, url: String, sha256: String },
    /// Answer a browser's offer of a direct connection.
    Offer { session_id: String, sdp: String, browser_session_id: Option<u64>, answer_url: String },
    Ice { session_id: String, candidate: String, mid: String },
}

/// The mathematical value of a [`PullAction`].
#[verifier::ext_equal]
pub enum PullActionView {
    Ignore,
    Transcription { text: Seq<char> },
    Dm { sender: Seq<char>, text: Seq<char> },
    Timelock { sender: Seq<char>, text: Seq<char> },
    Room { sender: Seq<char>, room_id: Seq<char>, room_topic: Seq<char>, text: Seq<char> },
    Inject(Seq<u8>),
    Resize { rows: u16, cols: u16 },
    Update { version: Seq<char>, url: Seq<char>, sha256: Seq<char> },
    Offer { session_id: Seq<char>, sdp: Seq<char>, browser_session_id: Option<u64>, answer_url: Seq<char> },
    Ice { session_id: Seq<char>, candidate: Seq<char>, mid: Seq<char> },
}

impl View for PullAction {
    type V = PullActionView;

    open spec fn view(&self) -> PullActionView {
        match self {
            PullAction::Ignore => PullActionView::Ignore,
            PullAction::Transcription { text } => PullActionView::Transcription {
                text: text@,
            },
            PullAction::Dm { sender, text } => PullActionView::Dm {
                sender: sender@,
                text: text@,
            },
            PullAction::Timelock { sender, text } => PullActionView::Timelock {
                sender: sender@,
                text: text@,
            },
            PullAction::Room { sender, room_id, room_topic, text } => PullActionView::Room {
                sender: sender@,
                room_id: room_id@,
                room_topic: room_topic@,
                text: text@,
            },
            PullAction::Inject(a) => PullActionView::Inject(a@),
            PullAction::Resize { rows, cols } => PullActionView::Resize {
                rows: *rows,
                cols: *cols,
            },
            PullAction::Update { version, url, sha256 } => PullActionView::Update {
                version: version@,
                url: url@,
                sha256: sha256@,
            },
            PullAction::Offer { session_id, sdp, browser_session_id, answer_url } => PullActionView::Offer {
                session_id: session_id@,
                sdp: sdp@,
                browser_session_id: *browser_session_id,
                answer_url: answer_url@,
            },
            PullAction::Ice { session_id, candidate, mid } => PullActionView::Ice {
                session_id: session_id@,
                candidate: candidate@,
                mid: mid@,
            },
        }
    }
}

/// A number of rows or columns in an event.
pub open spec fn small(j: JsonView, key: Seq<char>) -> Option<u16> {
    match j.uint(key) {
        Some(n) => if n <= 0xffff {
            Some(n as u16)
        } else {
            None
        },
        None => None,
    }
}

/// What an event of the given kind says, where its data are as they should be: an
/// object whose `type` is the kind and that holds the kind's members.
pub open spec fn event_of(kind: Seq<char>, j: JsonView) -> Option<AgentEventView> {
    if !j.is("type"@, kind) {
        None
    } else if kind == "transcription"@ {
        match j.text("text"@) {
            Some(text) => Some(AgentEventView::Transcription { text }),
            None => None,
        }
    } else if kind == "hive"@ {
        match (j.text("sender"@), j.text("text"@)) {
            (Some(sender), Some(text)) => Some(AgentEventView::Hive { sender, text }),
            _ => None,
        }
    } else if kind == "hive_room"@ {
        match (j.text("sender"@), j.text("room_id"@), j.text("room_topic"@), j.text("text"@)) {
            (Some(sender), Some(room_id), Some(room_topic), Some(text)) => Some(
                AgentEventView::HiveRoom { sender, room_id, room_topic, text },
            ),
            _ => None,
        }
    } else if kind == "pty_input"@ {
        match j.text("data"@) {
            Some(data) => Some(AgentEventView::PtyInput { data }),
            None => None,
        }
    } else if kind == "pty_resize"@ {
        match (small(j, "rows"@), small(j, "cols"@)) {
            (Some(rows), Some(cols)) => Some(AgentEventView::PtyResize { rows, cols }),
            _ => None,
        }
    } else if kind == "update_available"@ {
        match (j.text("version"@), j.text("url"@), j.text("sha256"@)) {
            (Some(version), Some(url), Some(sha256)) => Some(
                AgentEventView::UpdateAvailable { version, url, sha256 },
            ),
            _ => None,
        }
    } else if kind == "webrtc_offer"@ {
        match (j.text("session_id"@), j.text("sdp"@), j.text("target"@)) {
            (Some(session_id), Some(sdp), Some(target)) => Some(
                AgentEventView::WebRtcOffer {
                    session_id,
                    sdp,
                    target,
                    origin_url: j.text_or("origin_url"@, ""@),
                    browser_session_id: j.uint("browser_session_id"@),
                },
            ),
            _ => None,
        }
    } else if kind == "webrtc_ice"@ {
        match (j.text("session_id"@), j.text("candidate"@), j.text("mid"@), j.text("target"@)) {
            (Some(session_id), Some(candidate), Some(mid), Some(target)) => Some(
                AgentEventView::WebRtcIce { session_id, candidate, mid, target },
            ),
            _ => None,
        }
    } else {
        None
    }
}

/// What an event of the given kind says, where its data are as they should be.
pub fn read_event(kind: &str, j: &Json) -> (r: Option<AgentEvent>)
    ensures
        match r {
            Some(e) => event_of(kind@, j@) == Some(e@),
            None => event_of(kind@, j@) is None,
        },
{
    if !j.is("type", kind) {
        return None;
    }
    if text::same(kind, "transcription") {
        match j.text("text") {
            Some(text) => Some(AgentEvent::Transcription { text }),
            None => None,
        }
    } else if text::same(kind, "hive") {
        match (j.text("sender"), j.text("text")) {
            (Some(sender), Some(text)) => Some(AgentEvent::Hive { sender, text }),
            _ => None,
        }
    } else if text::same(kind, "hive_room") {
        match (j.text("sender"), j.text("room_id"), j.text("room_topic"), j.text("text")) {
            (Some(sender), Some(room_id), Some(room_topic), Some(text)) => Some(
                AgentEvent::HiveRoom { sender, room_id, room_topic, text },
            ),
            _ => None,
        }
    } else if text::same(kind, "pty_input") {
        match j.text("data") {
            Some(data) => Some(AgentEvent::PtyInput { data }),
            None => None,
        }
    } else if text::same(kind, "pty_resize") {
        match (j.uint("rows"), j.uint("cols")) {
            (Some(rows), Some(cols)) => if rows <= 0xffff && cols <= 0xffff {
                Some(AgentEvent::PtyResize { rows: rows as u16, cols: cols as u16 })
            } else {
                None
            },
            _ => None,
        }
    } else if text::same(kind, "update_available") {
        match (j.text("version"), j.text("url"), j.text("sha256")) {
            (Some(version), Some(url), Some(sha256)) => Some(
                AgentEvent::UpdateAvailable { version, url, sha256 },
            ),
            _ => None,
        }
    } else if text::same(kind, "webrtc_offer") {
        match (j.text("session_id"), j.text("sdp"), j.text("target")) {
            (Some(session_id), Some(sdp), Some(target)) => Some(
                AgentEvent::WebRtcOffer {
                    session_id,
                    sdp,
                    target,
                    origin_url: j.text_or("origin_url", ""),
                    browser_session_id: j.uint("browser_session_id"),
                },
            ),
            _ => None,
        }
    } else if text::same(kind, "webrtc_ice") {
        match (j.text("session_id"), j.text("candidate"), j.text("mid"), j.text("target")) {
            (Some(session_id), Some(candidate), Some(mid), Some(target)) => Some(
                AgentEvent::WebRtcIce { session_id, candidate, mid, target },
            ),
            _ => None,
        }
    } else {
        None
    }
}

/// Whether text is a report that the terminal gained or lost the focus.
pub open spec fn focus_report(s: Seq<char>) -> bool {
    s == "\x1b[I"@ || s == "\x1b[O"@
}

/// The message whose time has come that a direct message carries, where it does.
pub open spec fn timelock_delivery(message: Seq<char>) -> Option<Seq<char>> {
    match json::json_value(message) {
        Err(_) => None,
        Ok(j) => if j.truth("timelock_delivery"@) == Some(true) {
            Some(
                match hive_integration::timelock_decrypted(
                    j.text_or("content"@, ""@),
                    j.text_or("unlock_key"@, ""@),
                ) {
                    Ok(s) => s,
                    Err(e) => "[timelock decryption failed: "@ + e + "]"@,
                },
            )
        } else {
            None
        },
    }
}

/// The message whose time has come that a direct message carries, where it does.
pub fn open_delivery(message: &str) -> (r: Option<String>)
    ensures
        config::opt_string(r) == timelock_delivery(message@),
{
    match json::parse(message) {
        Err(_) => None,
        Ok(j) => if j.truth_or("timelock_delivery", false) {
            let content = j.text_or("content", "");
            let key = j.text_or("unlock_key", "");
            match hive_integration::decrypt_timelock(content.as_str(), key.as_str()) {
                Ok(s) => Some(s),
                Err(e) => Some(text::cat3("[timelock decryption failed: ", e.as_str(), "]")),
            }
        } else {
            None
        },
    }
}

/// What to do for an event. A focus report is no input, and only what is meant for
/// the daemon concerns it.
pub open spec fn action_for(e: AgentEventView, api_url: Seq<char>, agent_id: Seq<char>) -> PullActionView {
    match e {
        AgentEventView::Transcription { text } => PullActionView::Transcription { text },
        AgentEventView::Hive { sender, text } => match timelock_delivery(text) {
            Some(plain) => PullActionView::Timelock { sender, text: plain },
            None => PullActionView::Dm { sender, text },
        },
        AgentEventView::HiveRoom { sender, room_id, room_topic, text } => PullActionView::Room {
            sender,
            room_id,
            room_topic,
            text,
        },
        AgentEventView::PtyInput { data } => if focus_report(data) {
            PullActionView::Ignore
        } else {
            PullActionView::Inject(vstd::utf8::encode_utf8(data))
        },
        AgentEventView::PtyResize { rows, cols } => PullActionView::Resize { rows, cols },
        AgentEventView::UpdateAvailable { version, url, sha256 } => PullActionView::Update {
            version,
            url,
            sha256,
        },
        AgentEventView::WebRtcOffer { session_id, sdp, target, origin_url, browser_session_id } =>
        if target == "daemon"@ {
            PullActionView::Offer {
                session_id,
                sdp,
                browser_session_id,
                answer_url: (if origin_url.len() == 0 {
                    api_url
                } else {
                    origin_url
                }) + "/api/agents/"@ + agent_id + "/webrtc/answer"@,
            }
        } else {
            PullActionView::Ignore
        },
        AgentEventView::WebRtcIce { session_id, candidate, mid, target } => if target == "daemon"@ {
            PullActionView::Ice { session_id, candidate, mid }
        } else {
            PullActionView::Ignore
        },
        _ => PullActionView::Ignore,
    }
}

/// What to do for an event.
pub fn on_event(e: AgentEvent, api_url: &str, agent_id: &str) -> (r: PullAction)
    ensures
        r@ == action_for(e@, api_url@, agent_id@),
{
    match e {
        AgentEvent::Transcription { text } => PullAction::Transcription { text },
        AgentEvent::Hive { sender, text } => match open_delivery(text.as_str()) {
            Some(plain) => PullAction::Timelock { sender, text: plain },
            None => PullAction::Dm { sender, text },
        },
        AgentEvent::HiveRoom { sender, room_id, room_topic, text } => PullAction::Room {
            sender,
            room_id,
            room_topic,
            text,
        },
        AgentEvent::PtyInput { data } => {
            if text::same(data.as_str(), "\x1b[I") || text::same(data.as_str(), "\x1b[O") {
                PullAction::Ignore
            } else {
                PullAction::Inject(bytes::bytes_of(data.as_str()))
            }
        },
        AgentEvent::PtyResize { rows, cols } => PullAction::Resize { rows, cols },
        AgentEvent::UpdateAvailable { version, url, sha256 } => PullAction::Update {
            version,
            url,
            sha256,
        },
        AgentEvent::WebRtcOffer { session_id, sdp, target, origin_url, browser_session_id } => {
            if text::same(target.as_str(), "daemon") {
                let base = if origin_url.as_str().is_empty() {
                    api_url
                } else {
                    origin_url.as_str()
                };
                let answer_url = text::cat4(base, "/api/agents/", agent_id, "/webrtc/answer");
                PullAction::Offer { session_id, sdp, browser_session_id, answer_url }
            } else {
                PullAction::Ignore
            }
        },
        AgentEvent::WebRtcIce { session_id, candidate, mid, target } => {
            if text::same(target.as_str(), "daemon") {
                PullAction::Ice { session_id, candidate, mid }
            } else {
                PullAction::Ignore
            }
        },
        _ => PullAction::Ignore,
    }
}

/// Whether an event is a direct message that was seen lately.
pub open spec fn is_repeated(e: AgentEventView, seen: Seq<u64>) -> bool {
    e matches AgentEventView::Hive { sender, text } && seen.contains(fingerprint_of(sender, text))
}

/// What to do for an event: nothing for a direct message that was seen lately.
pub open spec fn fresh_action(
    e: AgentEventView,
    api_url: Seq<char>,
    agent_id: Seq<char>,
    seen: Seq<u64>,
) -> PullActionView {
    if is_repeated(e, seen) {
        PullActionView::Ignore
    } else {
        action_for(e, api_url, agent_id)
    }
}

/// What to do with an event as it was pushed. Malformed and unknown ones are
/// ignored, and so are direct messages that were seen lately.
pub open spec fn pushed(
    kind: Seq<char>,
    data: Seq<char>,
    api_url: Seq<char>,
    agent_id: Seq<char>,
    seen: Seq<u64>,
) -> PullActionView {
    match json::json_value(data) {
        Err(_) => PullActionView::Ignore,
        Ok(j) => match event_of(kind, j) {
            None => PullActionView::Ignore,
            Some(e) => fresh_action(e, api_url, agent_id, seen),
        },
    }
}

/// The fingerprints remembered after an event was pushed: that of a direct message
/// is among them.
pub open spec fn pushed_seen(seen: Seq<u64>, kind: Seq<char>, data: Seq<char>) -> Seq<u64> {
    match json::json_value(data) {
        Err(_) => seen,
        Ok(j) => match event_of(kind, j) {
            Some(AgentEventView::Hive { sender, text }) => remembered(
                seen,
                fingerprint_of(sender, text),
            ),
            _ => seen,
        },
    }
}

/// What to do with an event as it was read, and what is remembered then.
pub fn on_read_event(
    e: Option<AgentEvent>,
    api_url: &str,
    agent_id: &str,
    dedup: &mut HiveDedup,
) -> (r: PullAction)
    ensures
        match e {
            None => r@ == PullActionView::Ignore && final(dedup)@ == old(dedup)@,
            Some(x) => r@ == fresh_action(x@, api_url@, agent_id@, old(dedup)@) && final(dedup)@ == (
            match x@ {
                AgentEventView::Hive { sender, text } => remembered(
                    old(dedup)@,
                    fingerprint_of(sender, text),
                ),
                _ => old(dedup)@,
            }),
        },
{
    match e {
        None => PullAction::Ignore,
        Some(x) => {
            match &x {
                AgentEvent::Hive { sender, text } => {
                    if dedup.check_and_mark(sender.as_str(), text.as_str()) {
                        return PullAction::Ignore;
                    }
                },
                _ => {},
            }
            on_event(x, api_url, agent_id)
        },
    }
}

/// What to do with an event as it was pushed. Malformed and unknown ones are
/// ignored, and a direct message is remembered: several servers push the same one, and
/// it is delivered once.
pub fn handle_event(
    event_type: &str,
    data: &str,
    api_url: &str,
    agent_id: &str,
    dedup: &mut HiveDedup,
) -> (r: PullAction)
    ensures
        r@ == pushed(event_type@, data@, api_url@, agent_id@, old(dedup)@),
        final(dedup)@ == pushed_seen(old(dedup)@, event_type@, data@),
{
    match json::parse(data) {
        Err(_) => PullAction::Ignore,
        Ok(j) => {
            let e = read_event(event_type, &j);
            on_read_event(e, api_url, agent_id, dedup)
        },
    }
}

/// Only terminal input is written to the terminal; nothing else that the servers
/// push is.
pub proof fn law_only_input_injected(
    kind: Seq<char>,
    data: Seq<char>,
    api_url: Seq<char>,
    agent_id: Seq<char>,
    seen: Seq<u64>,
)
    ensures
        pushed(kind, data, api_url, agent_id, seen) is Inject ==> kind == "pty_input"@,
{
}

/// A message for later is delivered as it was written: where a direct message that was
/// not seen before hands over an envelope and the key that opens it to `plain`, `plain`
/// is what is delivered, with its sender's name. Encrypting `plain` for later gives such an
/// envelope and key.
pub proof fn law_timelock_delivered(
    data: Seq<char>,
    pushed_json: JsonView,
    message: Seq<char>,
    delivery: JsonView,
    sender: Seq<char>,
    envelope: Seq<char>,
    unlock: Seq<char>,
    plain: Seq<char>,
    api_url: Seq<char>,
    agent_id: Seq<char>,
    seen: Seq<u64>,
)
    requires
        json::json_value(data) == Ok::<JsonView, Seq<char>>(pushed_json),
        pushed_json.text("type"@) == Some("hive"@),
        pushed_json.text("sender"@) == Some(sender),
        pushed_json.text("text"@) == Some(message),
        json::json_value(message) == Ok::<JsonView, Seq<char>>(delivery),
        delivery.truth("timelock_delivery"@) == Some(true),
        delivery.text("content"@) == Some(envelope),
        delivery.text("unlock_key"@) == Some(unlock),
        hive_integration::timelock_decrypted(envelope, unlock) == Ok::<Seq<char>, Seq<char>>(plain),
        !seen.contains(fingerprint_of(sender, message)),
    ensures
        pushed("hive"@, data, api_url, agent_id, seen) == (PullActionView::Timelock {
            sender,
            text: plain,
        }),
        pushed_seen(seen, "hive"@, data).contains(fingerprint_of(sender, message)),
{
    reveal_strlit("transcription");
    reveal_strlit("hive");
    assert("transcription"@.len() == 13 && "hive"@.len() == 4);
    assert(event_of("hive"@, pushed_json) == Some(AgentEventView::Hive { sender, text: message }));
    assert(remembered(seen, fingerprint_of(sender, message)).last() == fingerprint_of(sender, message));
}

/// What a server pushes is acted on as it says: each part of an event comes out under
/// its own name.
pub proof fn law_pushed_acted_on(
    kind: Seq<char>,
    data: Seq<char>,
    j: JsonView,
    api_url: Seq<char>,
    agent_id: Seq<char>,
    seen: Seq<u64>,
)
    requires
        json::json_value(data) == Ok::<JsonView, Seq<char>>(j),
        j.text("type"@) == Some(kind),
    ensures
        forall|text: Seq<char>|
            kind == "transcription"@ && #[trigger] j.is("text"@, text) ==> pushed(
                kind,
                data,
                api_url,
                agent_id,
                seen,
            ) == (PullActionView::Transcription { text }),
        forall|sender: Seq<char>, text: Seq<char>|
            kind == "hive"@ && #[trigger] j.is("sender"@, sender) && #[trigger] j.is(
                "text"@,
                text,
            ) && json::json_value(text) is Err && !seen.contains(fingerprint_of(sender, text))
                ==> pushed(kind, data, api_url, agent_id, seen) == (PullActionView::Dm {
                sender,
                text,
            }),
        forall|sender: Seq<char>, room_id: Seq<char>, room_topic: Seq<char>, text: Seq<char>|
            kind == "hive_room"@ && #[trigger] j.is("sender"@, sender)
                && #[trigger] j.is("room_id"@, room_id) && #[trigger] j.is(
                "room_topic"@,
                room_topic,
            ) && #[trigger] j.is("text"@, text) ==> pushed(
                kind,
                data,
                api_url,
                agent_id,
                seen,
            ) == (PullActionView::Room { sender, room_id, room_topic, text }),
        forall|input: Seq<char>|
            kind == "pty_input"@ && #[trigger] j.is("data"@, input) && input != "\x1b[I"@
                && input != "\x1b[O"@ ==> pushed(kind, data, api_url, agent_id, seen)
                == PullActionView::Inject(vstd::utf8::encode_utf8(input)),
        kind == "pty_resize"@ && j.uint("rows"@) is Some && j.uint("cols"@) is Some && j.uint(
            "rows"@,
        ).unwrap() <= 0xffff && j.uint("cols"@).unwrap() <= 0xffff ==> pushed(
            kind,
            data,
            api_url,
            agent_id,
            seen,
        ) == (PullActionView::Resize {
            rows: j.uint("rows"@).unwrap() as u16,
            cols: j.uint("cols"@).unwrap() as u16,
        }),
        forall|version: Seq<char>, url: Seq<char>, sha256: Seq<char>|
            kind == "update_available"@ && #[trigger] j.is("version"@, version)
                && #[trigger] j.is("url"@, url) && #[trigger] j.is("sha256"@, sha256)
                ==> pushed(kind, data, api_url, agent_id, seen) == (PullActionView::Update {
                version,
                url,
                sha256,
            }),
        forall|session_id: Seq<char>, sdp: Seq<char>|
            kind == "webrtc_offer"@ && #[trigger] j.is("session_id"@, session_id)
                && #[trigger] j.is("sdp"@, sdp) && j.is("target"@, "daemon"@) && j.text(
                "origin_url"@,
            ) is None ==> pushed(kind, data, api_url, agent_id, seen) == (PullActionView::Offer {
                session_id,
                sdp,
                browser_session_id: j.uint("browser_session_id"@),
                answer_url: api_url + "/api/agents/"@ + agent_id + "/webrtc/answer"@,
            }),
        forall|session_id: Seq<char>, candidate: Seq<char>, mid: Seq<char>|
            kind == "webrtc_ice"@ && #[trigger] j.is("session_id"@, session_id)
                && #[trigger] j.is("candidate"@, candidate) && #[trigger] j.is(
                "mid"@,
                mid,
            ) && j.is("target"@, "daemon"@) ==> pushed(kind, data, api_url, agent_id, seen)
                == (PullActionView::Ice { session_id, candidate, mid }),
{
    reveal_strlit("transcription");
    reveal_strlit("hive");
    reveal_strlit("hive_room");
    reveal_strlit("pty_input");
    reveal_strlit("pty_resize");
    reveal_strlit("update_available");
    reveal_strlit("webrtc_offer");
    reveal_strlit("webrtc_ice");
    assert("transcription"@.len() == 13 && "hive"@.len() == 4 && "hive_room"@.len() == 9 && "pty_input"@.len() == 9 && "pty_resize"@.len() == 10 && "update_available"@.len() == 16 && "webrtc_offer"@.len() == 12 && "webrtc_ice"@.len() == 10);
    assert("hive_room"@[0] != "pty_input"@[0]);
    assert("pty_resize"@[0] != "webrtc_ice"@[0]);
    reveal_strlit("");
    reveal_strlit("daemon");
}

/// A direct message that one server pushed is ignored when another pushes it too.
pub proof fn law_pushed_once(
    kind: Seq<char>,
    data: Seq<char>,
    api_url: Seq<char>,
    agent_id: Seq<char>,
    seen: Seq<u64>,
)
    requires
        pushed(kind, data, api_url, agent_id, seen) is Dm || pushed(
            kind,
            data,
            api_url,
            agent_id,
            seen,
        ) is Timelock,
    ensures
        pushed(kind, data, api_url, agent_id, pushed_seen(seen, kind, data)) is Ignore,
{
    let e = event_of(kind, json::json_value(data)->Ok_0)->Some_0;
    let mark = fingerprint_of(e->Hive_sender, e->Hive_text);
    let after = remembered(seen, mark);
    assert(!seen.contains(mark));
    assert(after.last() == mark);
}

// ── Delivery ────────────────────────────────────────────────────────

/// A message on one line: each line break is written out.
pub open spec fn one_line(s: Seq<char>) -> Seq<char> {
    text::replaced(s, "\n"@, "\\n"@)
}

/// A message on one line: each line break is written out.
pub fn sanitize(s: &str) -> (r: String)
    ensures
        r@ == one_line(s@),
{
    proof {
        reveal_strlit("\n");
    }
    text::replace(s, "\n", "\\n")
}

/// A new identifier for a message: sixteen hexadecimal digits.
pub fn new_message_id() -> (r: String)
    ensures
        exists|b: Seq<u8>| b.len() == 8 && r@ == #[trigger] text::hex_bytes(b),
{
    let b = crypto::random_bytes(8);
    text::to_hex_bytes(b.as_slice())
}

/// What the assistant and the browsers are told of a direct message.
pub fn deliver_dm(sender: &str, decrypted: &str, message_id: &str) -> (r: (ChannelEvent, AgentEvent))
    ensures
        r.0@ == (ChannelEventView::HiveDm {
            sender: sender@,
            text: one_line(decrypted@),
            message_id: message_id@,
        }),
        r.1@ == (AgentEventView::Hive { sender: sender@, text: one_line(decrypted@) }),
{
    let line = sanitize(decrypted);
    (
        ChannelEvent::HiveDm {
            sender: sender.to_owned(),
            text: line.clone(),
            message_id: message_id.to_owned(),
        },
        AgentEvent::Hive { sender: sender.to_owned(), text: line },
    )
}

/// What the assistant and the browsers are told of a message to a room.
pub fn deliver_room(
    sender: &str,
    room_id: &str,
    room_topic: &str,
    decrypted: &str,
    message_id: &str,
) -> (r: (ChannelEvent, AgentEvent))
    ensures
        r.0@ == (ChannelEventView::HiveRoom {
            sender: sender@,
            room_id: room_id@,
            room_topic: room_topic@,
            text: one_line(decrypted@),
            message_id: message_id@,
        }),
        r.1@ == (AgentEventView::HiveRoom {
            sender: sender@,
            room_id: room_id@,
            room_topic: room_topic@,
            text: one_line(decrypted@),
        }),
{
    let line = sanitize(decrypted);
    (
        ChannelEvent::HiveRoom {
            sender: sender.to_owned(),
            room_id: room_id.to_owned(),
            room_topic: room_topic.to_owned(),
            text: line.clone(),
            message_id: message_id.to_owned(),
        },
        AgentEvent::HiveRoom {
            sender: sender.to_owned(),
            room_id: room_id.to_owned(),
            room_topic: room_topic.to_owned(),
            text: line,
        },
    )
}

/// The text of a direct message: what it decrypts to, or, where that fails, the
/// message as it came.
pub fn readable(decrypted: Result<String, String>, raw: &str) -> (r: String)
    ensures
        r@ == (match decrypted {
            Ok(s) => s@,
            Err(_) => raw@,
        }),
{
    match decrypted {
        Ok(s) => s,
        Err(_) => raw.to_owned(),
    }
}

// ── Rooms ───────────────────────────────────────────────────────────

/// What to do with a message to a room.
#[derive(Debug)]
pub enum RoomAction {
    Ignore,
    /// Refuse a key that is not from the room's creator.
    Reject { creator: String },
    /// Decrypt and store the room's key, and note its members.
    TakeKey { wrapped: Json, expires_at: Option<String>, members: Vec<String> },
    /// Forget the room's key, tell the server, and pass on the notice.
    Destroy { by: String, ack_url: String, notice: String },
    /// Decrypt and deliver the message.
    Message,
}

/// The mathematical value of a [`RoomAction`].
#[verifier::ext_equal]
pub enum RoomActionView {
    Ignore,
    Reject { creator: Seq<char> },
    TakeKey { wrapped: JsonView, expires_at: Option<Seq<char>>, members: Seq<Seq<char>> },
    Destroy { by: Seq<char>, ack_url: Seq<char>, notice: Seq<char> },
    Message,
}

impl View for RoomAction {
    type V = RoomActionView;

    open spec fn view(&self) -> RoomActionView {
        match self {
            RoomAction::Ignore => RoomActionView::Ignore,
            RoomAction::Reject { creator } => RoomActionView::Reject {
                creator: creator@,
            },
            RoomAction::TakeKey { wrapped, expires_at, members } => RoomActionView::TakeKey {
                wrapped: wrapped@,
                expires_at: crate::config::opt_string(*expires_at),
                members: crate::text::views(members@),
            },
            RoomAction::Destroy { by, ack_url, notice } => RoomActionView::Destroy {
                by: by@,
                ack_url: ack_url@,
                notice: notice@,
            },
            RoomAction::Message => RoomActionView::Message,
        }
    }
}

/// The first entry at or after `i` whose key, in lower case, is the given name.
pub open spec fn named_entry(
    entries: Seq<(Seq<char>, JsonView)>,
    name: Seq<char>,
    i: int,
) -> Option<JsonView>
    decreases entries.len() - i,
{
    if i >= entries.len() {
        None
    } else if text::lowercase(entries[i].0) == name {
        Some(entries[i].1)
    } else {
        named_entry(entries, name, i + 1)
    }
}

/// The copy of a room key that is meant for the given name: that of exactly this
/// name, or else of one that differs in case alone.
pub open spec fn key_for(entries: Seq<(Seq<char>, JsonView)>, name: Seq<char>) -> Option<JsonView> {
    match json::lookup(entries, name, 0) {
        Some(v) => Some(v),
        None => named_entry(entries, name, 0),
    }
}

/// The keys of the entries.
pub open spec fn entry_names(entries: Seq<(Seq<char>, JsonView)>) -> Seq<Seq<char>> {
    entries.map_values(|e: (Seq<char>, JsonView)| e.0)
}

/// What to do with a message that hands out a room key. The first sender of a key is
/// the room's creator, and no other may send one.
pub open spec fn distribution_action(
    sender: Seq<char>,
    creator: Option<Seq<char>>,
    my_name: Seq<char>,
    j: JsonView,
) -> RoomActionView {
    if creator is Some && creator != Some(sender) {
        RoomActionView::Reject { creator: creator.unwrap() }
    } else {
        match j.field("keys"@) {
            Some(JsonView::Object(entries)) => match key_for(entries, my_name) {
                Some(wrapped) => RoomActionView::TakeKey {
                    wrapped,
                    expires_at: j.text("expires_at"@),
                    members: entry_names(entries),
                },
                None => RoomActionView::Ignore,
            },
            _ => RoomActionView::Ignore,
        }
    }
}

/// What to do with a message to a room, whose text is JSON.
pub open spec fn room_json_action(
    sender: Seq<char>,
    room_id: Seq<char>,
    creator: Option<Seq<char>>,
    my_name: Seq<char>,
    api_url: Seq<char>,
    j: JsonView,
) -> RoomActionView {
    if j.is("msg_type"@, "key_distribution"@) {
        distribution_action(sender, creator, my_name, j)
    } else if j.is("msg_type"@, "key_destroy"@) {
        let by = j.text_or("destroyed_by"@, sender);
        RoomActionView::Destroy {
            by,
            ack_url: api_url + "/api/hive/rooms/"@ + room_id + "/destroy-key"@,
            notice: "Key destroyed by "@ + by + ". Room is now unreadable."@,
        }
    } else {
        RoomActionView::Message
    }
}

/// The creator that a room's stored data name.
pub open spec fn stored_creator(meta: Option<Seq<char>>) -> Option<Seq<char>> {
    match hive_integration::stored_meta(meta) {
        Some(m) => Some(m.creator),
        None => None,
    }
}

/// What to do with a message to a room.
pub open spec fn room_action(
    sender: Seq<char>,
    room_id: Seq<char>,
    message: Seq<char>,
    meta: Option<Seq<char>>,
    my_name: Seq<char>,
    api_url: Seq<char>,
) -> RoomActionView {
    match json::json_value(message) {
        Err(_) => RoomActionView::Message,
        Ok(j) => room_json_action(sender, room_id, stored_creator(meta), my_name, api_url, j),
    }
}

/// The copy of a room key that is meant for the given name, and all the names.
fn find_key(entries: &Vec<(String, Json)>, name: &str) -> (r: (Option<Json>, Vec<String>))
    ensures
        json::opt_view(r.0) == key_for(json::json_view(Json::Object(*entries))->Object_0, name@),
        text::views(r.1@) == entry_names(json::json_view(Json::Object(*entries))->Object_0),
{
    let ghost all = json::json_view(Json::Object(*entries))->Object_0;
    let mut names: Vec<String> = Vec::new();
    let mut exact: Option<usize> = None;
    let mut close: Option<usize> = None;
    let mut i: usize = 0;
    assert(text::views(names@) =~= entry_names(all.take(0)));
    while i < entries.len()
        invariant
            i <= entries.len(),
            all.len() == entries@.len(),
            forall|k: int|
                0 <= k < entries@.len() ==> #[trigger] all[k] == (
                    entries@[k].0@,
                    entries@[k].1@,
                ),
            text::views(names@) == entry_names(all.take(i as int)),
            match exact {
                Some(k) => k < i && json::lookup(all, name@, 0) == Some(entries@[k as int].1@),
                None => json::lookup(all, name@, 0) == json::lookup(all, name@, i as int),
            },
            match close {
                Some(k) => k < i && named_entry(all, name@, 0) == Some(entries@[k as int].1@),
                None => named_entry(all, name@, 0) == named_entry(all, name@, i as int),
            },
        decreases entries.len() - i,
    {
        assert(all[i as int].0 == entries@[i as int].0@);
        if exact.is_none() && text::same(entries[i].0.as_str(), name) {
            exact = Some(i);
        }
        let lower = text::to_lowercase(entries[i].0.as_str());
        if close.is_none() && text::same(lower.as_str(), name) {
            close = Some(i);
        }
        let ghost before = text::views(names@);
        names.push(entries[i].0.clone());
        assert(text::views(names@) =~= before.push(all[i as int].0));
        assert(all.take(i + 1) =~= all.take(i as int).push(all[i as int]));
        assert(entry_names(all.take(i + 1)) =~= entry_names(all.take(i as int)).push(
            all[i as int].0,
        ));
        assert(text::views(names@) =~= entry_names(all.take(i + 1)));
        i = i + 1;
    }
    assert(all.take(i as int) =~= all);
    let found = match exact {
        Some(k) => Some(entries[k].1.copy()),
        None => match close {
            Some(k) => Some(entries[k].1.copy()),
            None => None,
        },
    };
    (found, names)
}

/// What to do with a message to a room, whose text is JSON.
pub fn on_room_json(
    sender: &str,
    room_id: &str,
    creator: Option<String>,
    my_name: &str,
    api_url: &str,
    j: &Json,
) -> (r: RoomAction)
    ensures
        r@ == room_json_action(
            sender@,
            room_id@,
            config::opt_string(creator),
            my_name@,
            api_url@,
            j@,
        ),
{
    if j.is("msg_type", "key_distribution") {
        match creator {
            Some(c) => {
                if !text::same(c.as_str(), sender) {
                    return RoomAction::Reject { creator: c };
                }
            },
            None => {},
        }
        match j.get("keys") {
            Some(Json::Object(entries)) => {
                let (found, members) = find_key(entries, my_name);
                match found {
                    Some(wrapped) => RoomAction::TakeKey {
                        wrapped,
                        expires_at: j.text("expires_at"),
                        members,
                    },
                    None => RoomAction::Ignore,
                }
            },
            _ => RoomAction::Ignore,
        }
    } else if j.is("msg_type", "key_destroy") {
        let by = j.text_or("destroyed_by", sender);
        let ack_url = text::cat4(api_url, "/api/hive/rooms/", room_id, "/destroy-key");
        let notice = text::cat3("Key destroyed by ", by.as_str(), ". Room is now unreadable.");
        RoomAction::Destroy { by, ack_url, notice }
    } else {
        RoomAction::Message
    }
}

/// What to do with a message to a room; `meta` is what is stored of the room.
pub fn on_room_message(
    sender: &str,
    room_id: &str,
    message: &str,
    meta: Option<&str>,
    my_name: &str,
    api_url: &str,
) -> (r: RoomAction)
    ensures
        r@ == room_action(sender@, room_id@, message@, config::opt(meta), my_name@, api_url@),
{
    match json::parse(message) {
        Err(_) => RoomAction::Message,
        Ok(j) => {
            let creator = hive_integration::load_room_meta(meta);
            on_room_json(sender, room_id, creator, my_name, api_url, &j)
        },
    }
}

/// Once a room's creator is known, no one else can hand out a key for it.
pub proof fn law_only_creator_keys(
    sender: Seq<char>,
    room_id: Seq<char>,
    message: Seq<char>,
    meta: Option<Seq<char>>,
    my_name: Seq<char>,
    api_url: Seq<char>,
)
    requires
        stored_creator(meta) is Some,
        stored_creator(meta) != Some(sender),
    ensures
        !(room_action(sender, room_id, message, meta, my_name, api_url) is TakeKey),
{
}

proof fn lemma_copy_listed(
    members: Seq<Seq<char>>,
    keys: Seq<EncryptedRoomKey>,
    n: int,
    i: int,
)
    requires
        0 <= i < n <= members.len(),
        members.len() == keys.len(),
        forall|j: int|
            i < j < members.len() ==> text::lowercase(#[trigger] members[j]) != text::lowercase(
                members[i],
            ),
    ensures
        hive_integration::keys_json(members, keys, n) is Object,
        hive_integration::keys_json(members, keys, n).field(text::lowercase(members[i])) == Some(
            hive_integration::room_key_json(keys[i]),
        ),
    decreases n,
{
    let before = hive_integration::keys_json(members, keys, n - 1);
    let name = text::lowercase(members[n - 1]);
    let copy = hive_integration::room_key_json(keys[n - 1]);
    json::law_put_get(before, name, copy, text::lowercase(members[i]));
    assert(before.put(name, copy) is Object) by {
        reveal(JsonView::put);
    }
    if i < n - 1 {
        lemma_copy_listed(members, keys, n - 1, i);
    }
}

/// Every member takes its own copy of a room key from the message that hands the key
/// out, whatever the case in which its name is written there. Of several members whose
/// names differ in case alone it is the last.
pub proof fn law_member_takes_key(
    sender: Seq<char>,
    room_id: Seq<char>,
    creator: Option<Seq<char>>,
    api_url: Seq<char>,
    members: Seq<Seq<char>>,
    keys: Seq<EncryptedRoomKey>,
    expires_at: Option<Seq<char>>,
    i: int,
)
    requires
        members.len() == keys.len(),
        0 <= i < members.len(),
        forall|j: int|
            i < j < members.len() ==> text::lowercase(#[trigger] members[j]) != text::lowercase(
                members[i],
            ),
        creator is None || creator == Some(sender),
    ensures
        room_json_action(
            sender,
            room_id,
            creator,
            text::lowercase(members[i]),
            api_url,
            hive_integration::distribution_json(room_id, members, keys, expires_at),
        ) matches RoomActionView::TakeKey { wrapped, expires_at: e, members: _ } && wrapped
            == hive_integration::room_key_json(keys[i]) && e == expires_at,
{
    reveal_strlit("msg_type");
    reveal_strlit("room_id");
    reveal_strlit("keys");
    reveal_strlit("expires_at");
    assert("msg_type"@.len() == 8 && "room_id"@.len() == 7);
    assert("keys"@.len() == 4 && "expires_at"@.len() == 10);
    let n = members.len() as int;
    lemma_copy_listed(members, keys, n, i);
    let kind = JsonView::Text("key_distribution"@);
    let copies = hive_integration::keys_json(members, keys, n);
    let a = JsonView::object().put("msg_type"@, kind);
    let b = a.put("room_id"@, JsonView::Text(room_id));
    let c = b.put("keys"@, copies);
    json::law_put_get(JsonView::object(), "msg_type"@, kind, "expires_at"@);
    json::law_put_get(a, "room_id"@, JsonView::Text(room_id), "msg_type"@);
    json::law_put_get(a, "room_id"@, JsonView::Text(room_id), "expires_at"@);
    json::law_put_get(b, "keys"@, copies, "msg_type"@);
    json::law_put_get(b, "keys"@, copies, "expires_at"@);
    match expires_at {
        Some(e) => {
            json::law_put_get(c, "expires_at"@, JsonView::Text(e), "msg_type"@);
            json::law_put_get(c, "expires_at"@, JsonView::Text(e), "keys"@);
        },
        None => {},
    }
}

// ── Polling ─────────────────────────────────────────────────────────

/// The number of a message.
pub open spec fn message_number(msg: JsonView) -> i64 {
    match msg.field("id"@) {
        Some(v) => match v.as_int() {
            Some(n) => n,
            None => 0,
        },
        None => 0,
    }
}

/// The number of a message.
fn number_of(msg: &Json) -> (r: i64)
    ensures
        r == message_number(msg@),
{
    match msg.get("id") {
        Some(v) => match v.as_i64() {
            Some(n) => n,
            None => 0,
        },
        None => 0,
    }
}

/// The number of the newest message in the first answer, from which polling starts.
pub fn poll_seed(body: &Json) -> (r: i64)
    ensures
        r == (if body@.items("messages"@).len() > 0 {
            message_number(body@.items("messages"@)[0])
        } else {
            0
        }),
{
    let msgs = body.items("messages");
    let ghost all = json::json_views(msgs@);
    if msgs.len() > 0 {
        assert(all[0] == msgs@[0]@);
        number_of(&msgs[0])
    } else {
        0
    }
}

/// Whether a message from the answer to a poll is to be looked at: it is newer than
/// the last, for the agent, and not empty.
pub open spec fn poll_candidate(msg: JsonView, last: i64, my_name: Seq<char>) -> bool {
    let to = msg.text_or("to_agent"@, ""@);
    &&& message_number(msg) > last
    &&& (to.len() == 0 || to == my_name)
    &&& msg.text_or("content"@, ""@).len() > 0
}

/// The fingerprint of a message from the answer to a poll.
pub open spec fn poll_mark(msg: JsonView) -> u64 {
    fingerprint_of(msg.text_or("from_agent"@, "unknown"@), msg.text_or("content"@, ""@))
}

/// What to deliver, as sender and content, of a message from the answer to a poll:
/// what is to be looked at and was not seen yet. The number of the last message
/// only grows.
pub fn poll_step(msg: &Json, last_seen_id: &mut i64, my_name: &str, dedup: &mut HiveDedup) -> (r:
    Option<(String, String)>)
    ensures
        *final(last_seen_id) == (if message_number(msg@) > *old(last_seen_id) {
            message_number(msg@)
        } else {
            *old(last_seen_id)
        }),
        final(dedup)@ == (if poll_candidate(msg@, *old(last_seen_id), my_name@) {
            remembered(old(dedup)@, poll_mark(msg@))
        } else {
            old(dedup)@
        }),
        match r {
            Some((from, content)) => poll_candidate(msg@, *old(last_seen_id), my_name@) && !old(
                dedup,
            )@.contains(poll_mark(msg@)) && from@ == msg@.text_or("from_agent"@, "unknown"@)
                && content@ == msg@.text_or("content"@, ""@),
            None => !poll_candidate(msg@, *old(last_seen_id), my_name@) || old(dedup)@.contains(
                poll_mark(msg@),
            ),
        },
{
    let n: i64 = number_of(msg);
    if n <= *last_seen_id {
        return None;
    }
    *last_seen_id = n;
    let to = msg.text_or("to_agent", "");
    if !to.as_str().is_empty() && !text::same(to.as_str(), my_name) {
        return None;
    }
    let from = msg.text_or("from_agent", "unknown");
    let content = msg.text_or("content", "");
    if content.as_str().is_empty() {
        return None;
    }
    if dedup.check_and_mark(from.as_str(), content.as_str()) {
        return None;
    }
    Some((from, content))
}

/// A direct message that was pushed is not delivered again when it is polled for:
/// its fingerprint is remembered by then.
pub proof fn law_pushed_not_polled(
    seen: Seq<u64>,
    sender: Seq<char>,
    content: Seq<char>,
    msg: JsonView,
    data: Seq<char>,
    j: JsonView,
)
    requires
        seen.len() <= MAX_SEEN,
        json::json_value(data) == Ok::<JsonView, Seq<char>>(j),
        event_of("hive"@, j) == Some((AgentEventView::Hive { sender, text: content })),
        msg.text("from_agent"@) == Some(sender),
        msg.text("content"@) == Some(content),
    ensures
        pushed_seen(seen, "hive"@, data).contains(poll_mark(msg)),
{
    let mark = fingerprint_of(sender, content);
    assert(poll_mark(msg) == mark);
    let after = remembered(seen, mark);
    if !seen.contains(mark) {
        assert(after.last() == mark);
    }
}

// ── Updates ─────────────────────────────────────────────────────────

/// The path of the file that says that an update waits for a restart.
pub fn update_ready_path(dir: &str) -> (r: String)
    ensures
        r@ == paths::joined(dir@, "update-ready.json"@),
{
    paths::join(dir, "update-ready.json")
}

/// Whether a version is worth fetching: it is another than the running one.
pub fn update_wanted(version: &str, current: &str) -> (r: bool)
    ensures
        r == (version@ != current@),
{
    !text::same(version, current)
}

/// Whether a file is the one expected, by what the checksum tool printed of it;
/// without an expected checksum any file is.
pub fn verify_checksum(expected: &str, printed: &str) -> (r: Result<(), String>)
    ensures
        if expected@.len() == 0 || expected@ == text::first_word_spec(printed@) {
            r is Ok
        } else {
            r matches Err(e) && e@ == "Checksum mismatch: expected "@ + expected@ + ", got "@
                + text::first_word_spec(printed@)
        },
{
    if expected.is_empty() {
        return Ok(());
    }
    let actual = text::first_word(printed);
    if text::same(actual.as_str(), expected) {
        Ok(())
    } else {
        Err(text::cat4("Checksum mismatch: expected ", expected, ", got ", actual.as_str()))
    }
}

/// The note that an update waits for a restart.
pub open spec fn update_marker_json(version: Seq<char>, updated_at: u64) -> JsonView {
    JsonView::object().put_text("version"@, version).put_bool("ready"@, true).put_uint(
        "updated_at"@,
        updated_at,
    )
}

/// What to write to say that an update waits for a restart.
pub fn update_marker(version: &str, updated_at: u64) -> (r: String)
    ensures
        r@ == json::json_pretty_text(json::written(update_marker_json(version@, updated_at))),
{
    Json::object().put_text("version", version).put_bool("ready", true).put_uint(
        "updated_at",
        updated_at,
    ).to_pretty_text()
}

/// What the server is told of the answer to an offer.
pub fn answer_body(session_id: &str, sdp: &str) -> (r: Json)
    ensures
        r@ == JsonView::object().put_text("session_id"@, session_id@).put_text("sdp"@, sdp@),
{
    Json::object().put_text("session_id", session_id).put_text("sdp", sdp)
}

// ── Laws ────────────────────────────────────────────────────────────

/// A room's message is shown, unless it hands out a key or destroys one; a destroyed key
/// names who did it, and is acknowledged for that room.
pub proof fn law_room_messages(
    sender: Seq<char>,
    room_id: Seq<char>,
    message: Seq<char>,
    j: JsonView,
    meta: Option<Seq<char>>,
    my_name: Seq<char>,
    api_url: Seq<char>,
    by: Seq<char>,
)
    requires
        json::json_value(message) == Ok::<JsonView, Seq<char>>(j),
    ensures
        j.text("msg_type"@) is None ==> room_action(
            sender,
            room_id,
            message,
            meta,
            my_name,
            api_url,
        ) is Message,
        j.is("msg_type"@, "key_destroy"@) && j.is("destroyed_by"@, by) ==> (room_action(
            sender,
            room_id,
            message,
            meta,
            my_name,
            api_url,
        ) matches RoomActionView::Destroy { by: who, ack_url, notice } && who == by && ack_url
            == api_url + "/api/hive/rooms/"@ + room_id + "/destroy-key"@),
{
    reveal_strlit("key_destroy");
    reveal_strlit("key_distribution");
    assert("key_destroy"@.len() == 11 && "key_distribution"@.len() == 16);
}

/// A message is polled once, where it is for this agent or for all.
pub proof fn law_polled(msg: JsonView, last: i64, my_name: Seq<char>, content: Seq<char>)
    requires
        msg.text("content"@) == Some(content),
        content.len() > 0,
    ensures
        msg.is("to_agent"@, my_name) && message_number(msg) > last ==> poll_candidate(
            msg,
            last,
            my_name,
        ),
        msg.text("to_agent"@) is None && message_number(msg) > last ==> poll_candidate(
            msg,
            last,
            my_name,
        ),
        !poll_candidate(msg, message_number(msg), my_name),
        forall|other: Seq<char>|
            other != my_name && other.len() > 0 && #[trigger] msg.is("to_agent"@, other)
                ==> !poll_candidate(msg, last, my_name),
{
    reveal_strlit("");
}

/// An agent without the right to connect gives up; any other failure is tried again.
pub proof fn law_refusals(status: u16)
    ensures
        200 <= status < 300 ==> refusal(status) is None,
        status == 401 || status == 403 ==> refusal(status) == Some(
            SseResultView::PermanentFailure(status),
        ),
        refusal(status) matches Some(SseResultView::PermanentFailure(s)) ==> s == status && (status
            == 401 || status == 403),
        refusal(status) is None ==> 200 <= status < 300,
{
}

/// The mark of an update names its version.
pub proof fn law_update_marked(version: Seq<char>, updated_at: u64)
    ensures
        update_marker_json(version, updated_at).text("version"@) == Some(version),
        update_marker_json(version, updated_at).truth("ready"@) == Some(true),
        update_marker_json(version, updated_at).uint("updated_at"@) == Some(updated_at),
{
    broadcast use json::lemma_put_field;
    broadcast use json::lemma_object_field;

    reveal_strlit("version");
    reveal_strlit("ready");
    reveal_strlit("updated_at");
    assert("version"@.len() == 7 && "ready"@.len() == 5 && "updated_at"@.len() == 10);
}

/// Each failure doubles the wait, up to the longest.
pub proof fn law_waits_double(b: BackoffView)
    ensures
        2 * b.next <= b.max ==> b.doubled() == 2 * b.next,
        2 * b.next > b.max ==> b.doubled() == b.max,
        b.next <= b.max ==> b.next <= b.doubled() <= b.max,
        b.failures < u32::MAX ==> b.failed() == b.failures + 1,
{
}

/// A message is put on one line: a line break is written out, and nothing else changes.
pub proof fn law_one_line(a: Seq<char>, b: Seq<char>)
    requires
        text::lacks(a, '\n'),
    ensures
        one_line(a) == a,
        one_line(a + seq!['\n'] + b) == a + seq!['\\', 'n'] + one_line(b),
{
    reveal_strlit("\n");
    reveal_strlit("\\n");
    assert("\n"@ =~= seq!['\n']);
    assert("\\n"@ =~= seq!['\\', 'n']);
    text::law_replaced_none(a, "\n"@, "\\n"@);
    text::law_replaced_first(a, "\n"@, "\\n"@, b);
}

} // verus!
