//! Speech that the daemon has made by a GPU.

use vstd::prelude::*;

use crate::config;
use crate::json;
use crate::json::{Json, JsonView};
use crate::text;

verus! {

// ── Backends ────────────────────────────────────────────────────────

/// Where speech is made.
#[derive(Debug)]
pub struct GpuConfig {
    pub local_url: Option<String>,
    pub local_token: String,
    pub runpod_url: Option<String>,
    pub runpod_token: String,
}

/// The mathematical value of a [`GpuConfig`].
#[verifier::ext_equal]
pub struct GpuConfigView {
    pub local_url: Option<Seq<char>>,
    pub local_token: Seq<char>,
    pub runpod_url: Option<Seq<char>>,
    pub runpod_token: Seq<char>,
}

impl View for GpuConfig {
    type V = GpuConfigView;

    open spec fn view(&self) -> GpuConfigView {
        GpuConfigView {
            local_url: crate::config::opt_string(self.local_url),
            local_token: self.local_token@,
            runpod_url: crate::config::opt_string(self.runpod_url),
            runpod_token: self.runpod_token@,
        }
    }
}

/// A value that is set to something.
pub open spec fn filled(v: Option<Seq<char>>) -> Option<Seq<char>> {
    match v {
        Some(s) => if s.len() > 0 {
            Some(s)
        } else {
            None
        },
        None => None,
    }
}

/// A value, or nothing in its place.
pub open spec fn or_empty(v: Option<Seq<char>>) -> Seq<char> {
    match v {
        Some(s) => s,
        None => ""@,
    }
}

fn fill(v: Option<&str>) -> (r: Option<String>)
    ensures
        config::opt_string(r) == filled(config::opt(v)),
{
    match v {
        Some(s) => if s.is_empty() {
            None
        } else {
            Some(s.to_owned())
        },
        None => None,
    }
}

fn text_of(v: Option<&str>) -> (r: String)
    ensures
        r@ == or_empty(config::opt(v)),
{
    match v {
        Some(s) => s.to_owned(),
        None => "".to_owned(),
    }
}

impl GpuConfig {
    /// Where speech is made, by the variables `LOCAL_GPU_URL`, `LOCAL_GPU_TOKEN`,
    /// `RUNPOD_GPU_ID` and `RUNPOD_API_KEY`.
    pub fn from_env(
        local_url: Option<&str>,
        local_token: Option<&str>,
        gpu_id: Option<&str>,
        api_key: Option<&str>,
    ) -> (r: Self)
        ensures
            r@ == (GpuConfigView {
                local_url: filled(config::opt(local_url)),
                local_token: or_empty(config::opt(local_token)),
                runpod_url: (match filled(config::opt(gpu_id)) {
                    Some(id) => Some("https://api.runpod.ai/v2/"@ + id),
                    None => None,
                }),
                runpod_token: or_empty(config::opt(api_key)),
            }),
    {
        let runpod_url = match fill(gpu_id) {
            Some(id) => Some(text::cat2("https://api.runpod.ai/v2/", id.as_str())),
            None => None,
        };
        GpuConfig {
            local_url: fill(local_url),
            local_token: text_of(local_token),
            runpod_url,
            runpod_token: text_of(api_key),
        }
    }
}

/// The header that shows a token, where there is one.
pub open spec fn bearer(token: Seq<char>) -> Option<Seq<char>> {
    if token.len() > 0 {
        Some("Bearer "@ + token)
    } else {
        None
    }
}

fn bearer_of(token: &str) -> (r: Option<String>)
    ensures
        config::opt_string(r) == bearer(token@),
{
    if token.is_empty() {
        None
    } else {
        Some(text::cat2("Bearer ", token))
    }
}

// ── Handing in a job ────────────────────────────────────────────────

/// What to do to hand in a job.
#[derive(Debug)]
pub enum Submit {
    /// Post it to the local GPU.
    TryLocal { url: String, auth: Option<String> },
    /// Post it to the cloud.
    TryRunpod { url: String, auth: Option<String> },
    Submitted { job_id: String, base_url: String },
    Fail(String),
}

/// The mathematical value of a [`Submit`].
#[verifier::ext_equal]
pub enum SubmitView {
    TryLocal { url: Seq<char>, auth: Option<Seq<char>> },
    TryRunpod { url: Seq<char>, auth: Option<Seq<char>> },
    Submitted { job_id: Seq<char>, base_url: Seq<char> },
    Fail(Seq<char>),
}

impl View for Submit {
    type V = SubmitView;

    open spec fn view(&self) -> SubmitView {
        match self {
            Submit::TryLocal { url, auth } => SubmitView::TryLocal {
                url: url@,
                auth: crate::config::opt_string(*auth),
            },
            Submit::TryRunpod { url, auth } => SubmitView::TryRunpod {
                url: url@,
                auth: crate::config::opt_string(*auth),
            },
            Submit::Submitted { job_id, base_url } => SubmitView::Submitted {
                job_id: job_id@,
                base_url: base_url@,
            },
            Submit::Fail(a) => SubmitView::Fail(a@),
        }
    }
}

/// What became of a request.
#[derive(Debug)]
pub enum Answer {
    Unreached(String),
    /// The server answered: the status as a number and as it is shown, and the body.
    Status { success: bool, code: u16, shown: String, body: String },
}

/// The mathematical value of an [`Answer`].
#[verifier::ext_equal]
pub enum AnswerView {
    Unreached(Seq<char>),
    Status { success: bool, code: u16, shown: Seq<char>, body: Seq<char> },
}

impl View for Answer {
    type V = AnswerView;

    open spec fn view(&self) -> AnswerView {
        match self {
            Answer::Unreached(a) => AnswerView::Unreached(a@),
            Answer::Status { success, code, shown, body } => AnswerView::Status {
                success: *success,
                code: *code,
                shown: shown@,
                body: body@,
            },
        }
    }
}

/// What is said of an answer that is no JSON.
pub const NO_JSON: &'static str = "error decoding response body";

/// The body of a job.
pub fn job_body(input: Json) -> (r: Json)
    ensures
        r@ == JsonView::object().put("input"@, input@),
{
    Json::object().put("input", input)
}

/// How a job goes to the cloud.
pub open spec fn to_runpod(c: GpuConfigView) -> SubmitView {
    match c.runpod_url {
        Some(u) => SubmitView::TryRunpod { url: u + "/run"@, auth: bearer(c.runpod_token) },
        None => SubmitView::Fail("No GPU backend available (no local GPU, no RUNPOD_GPU_ID)"@),
    }
}

/// How a job is handed in at first: to the local GPU, where there is one.
pub open spec fn submit_first(c: GpuConfigView) -> SubmitView {
    match c.local_url {
        Some(u) => SubmitView::TryLocal { url: u + "/run"@, auth: bearer(c.local_token) },
        None => to_runpod(c),
    }
}

fn go_to_runpod(c: &GpuConfig) -> (r: Submit)
    ensures
        r@ == to_runpod(c@),
{
    match &c.runpod_url {
        Some(u) => Submit::TryRunpod {
            url: text::cat2(u.as_str(), "/run"),
            auth: bearer_of(c.runpod_token.as_str()),
        },
        None => Submit::Fail(
            "No GPU backend available (no local GPU, no RUNPOD_GPU_ID)".to_owned(),
        ),
    }
}

/// How a job is handed in at first: to the local GPU, where there is one.
pub fn submit_job(c: &GpuConfig) -> (r: Submit)
    ensures
        r@ == submit_first(c@),
{
    match &c.local_url {
        Some(u) => Submit::TryLocal {
            url: text::cat2(u.as_str(), "/run"),
            auth: bearer_of(c.local_token.as_str()),
        },
        None => go_to_runpod(c),
    }
}

/// What follows the local GPU's answer: a job that it took is handed in, an answer that
/// is no JSON is an error, and on any other the job goes to the cloud.
pub open spec fn local_next(c: GpuConfigView, a: AnswerView) -> SubmitView {
    match a {
        AnswerView::Unreached(_) => to_runpod(c),
        AnswerView::Status { success, code, shown, body } => if !success {
            to_runpod(c)
        } else {
            match json::json_value(body) {
                Err(_) => SubmitView::Fail(NO_JSON@),
                Ok(j) => match j.text("id"@) {
                    Some(id) => SubmitView::Submitted {
                        job_id: id,
                        base_url: or_empty(c.local_url),
                    },
                    None => to_runpod(c),
                },
            }
        },
    }
}

/// What follows the local GPU's answer.
pub fn after_local(c: &GpuConfig, a: &Answer) -> (r: Submit)
    ensures
        r@ == local_next(c@, a@),
{
    match a {
        Answer::Unreached(_) => go_to_runpod(c),
        Answer::Status { success, code, shown, body } => if !*success {
            go_to_runpod(c)
        } else {
            match json::parse(body.as_str()) {
                Err(_) => Submit::Fail(NO_JSON.to_owned()),
                Ok(j) => match j.text("id") {
                    Some(id) => {
                        let base_url = match &c.local_url {
                            Some(u) => u.clone(),
                            None => "".to_owned(),
                        };
                        Submit::Submitted { job_id: id, base_url }
                    },
                    None => go_to_runpod(c),
                },
            }
        },
    }
}

/// What follows the cloud's answer.
pub open spec fn runpod_next(c: GpuConfigView, a: AnswerView) -> SubmitView {
    match a {
        AnswerView::Unreached(e) => SubmitView::Fail(e),
        AnswerView::Status { success, code, shown, body } => if !success {
            SubmitView::Fail("RunPod /run failed: HTTP "@ + shown + " — "@ + body)
        } else {
            match json::json_value(body) {
                Err(_) => SubmitView::Fail(NO_JSON@),
                Ok(j) => match j.text("id"@) {
                    Some(id) => SubmitView::Submitted {
                        job_id: id,
                        base_url: or_empty(c.runpod_url),
                    },
                    None => SubmitView::Fail("RunPod /run response missing 'id'"@),
                },
            }
        },
    }
}

/// What follows the cloud's answer.
pub fn after_runpod(c: &GpuConfig, a: &Answer) -> (r: Submit)
    ensures
        r@ == runpod_next(c@, a@),
{
    match a {
        Answer::Unreached(e) => Submit::Fail(e.clone()),
        Answer::Status { success, code, shown, body } => if !*success {
            Submit::Fail(
                text::cat4("RunPod /run failed: HTTP ", shown.as_str(), " — ", body.as_str()),
            )
        } else {
            match json::parse(body.as_str()) {
                Err(_) => Submit::Fail(NO_JSON.to_owned()),
                Ok(j) => match j.text("id") {
                    Some(id) => {
                        let base_url = match &c.runpod_url {
                            Some(u) => u.clone(),
                            None => "".to_owned(),
                        };
                        Submit::Submitted { job_id: id, base_url }
                    },
                    None => Submit::Fail("RunPod /run response missing 'id'".to_owned()),
                },
            }
        },
    }
}

/// A job goes to the local GPU first: to the cloud at first only where there is none.
pub proof fn law_local_first(c: GpuConfigView)
    ensures
        c.local_url is Some ==> submit_first(c) is TryLocal,
        submit_first(c) is TryRunpod ==> c.local_url is None,
{
}

// ── Collecting the audio ────────────────────────────────────────────

/// The header for the requests about a job, by where it runs.
pub open spec fn stream_auth(c: GpuConfigView, base_url: Seq<char>) -> Option<Seq<char>> {
    if text::contains_spec(base_url, "runpod.ai"@) {
        bearer(c.runpod_token)
    } else {
        bearer(c.local_token)
    }
}

/// The URLs of a job's audio and of its state, and the header for them.
pub fn stream_access(c: &GpuConfig, base_url: &str, job_id: &str) -> (r: (
    String,
    String,
    Option<String>,
))
    ensures
        r.0@ == base_url@ + "/stream/"@ + job_id@,
        r.1@ == base_url@ + "/status/"@ + job_id@,
        config::opt_string(r.2) == stream_auth(c@, base_url@),
{
    let auth = if text::contains(base_url, "runpod.ai") {
        bearer_of(c.runpod_token.as_str())
    } else {
        bearer_of(c.local_token.as_str())
    };
    (text::cat3(base_url, "/stream/", job_id), text::cat3(base_url, "/status/", job_id), auth)
}

/// How long the audio of a job is waited for, in seconds.
pub const MAX_POLL_SECS: u64 = 300;

/// What is known of a job.
#[derive(Debug)]
pub struct PollState {
    /// The parts of the audio by their numbers.
    pub chunks: Vec<Option<Vec<u8>>>,
    /// How many answers in a row held no audio.
    pub consecutive_empty: u32,
    pub done: bool,
}

/// The view of a part.
pub open spec fn part_view(p: Option<Vec<u8>>) -> Option<Seq<u8>> {
    match p {
        Some(b) => Some(b@),
        None => None,
    }
}

/// The views of the parts.
pub open spec fn part_views(v: Seq<Option<Vec<u8>>>) -> Seq<Option<Seq<u8>>> {
    v.map_values(|p: Option<Vec<u8>>| part_view(p))
}

/// The parts with one put at its number; what is missing before it stays missing.
pub open spec fn with_part(s: Seq<Option<Seq<u8>>>, i: int, b: Seq<u8>) -> Seq<Option<Seq<u8>>> {
    Seq::new(
        if s.len() <= i {
            (i + 1) as nat
        } else {
            s.len()
        },
        |k: int|
            if k == i {
                Some(b)
            } else if k < s.len() {
                s[k]
            } else {
                None
            },
    )
}

/// The parts after the first `n` of an answer were put at their numbers.
pub open spec fn with_parts(
    s: Seq<Option<Seq<u8>>>,
    parts: Seq<(usize, Vec<u8>)>,
    n: int,
) -> Seq<Option<Seq<u8>>>
    decreases n,
{
    if n <= 0 {
        s
    } else {
        with_part(with_parts(s, parts, n - 1), parts[n - 1].0 as int, parts[n - 1].1@)
    }
}

/// The parts that are there, in their order.
pub open spec fn present(s: Seq<Option<Seq<u8>>>) -> Seq<Seq<u8>>
    decreases s.len(),
{
    if s.len() == 0 {
        Seq::empty()
    } else {
        match s.last() {
            Some(b) => present(s.drop_last()).push(b),
            None => present(s.drop_last()),
        }
    }
}

/// The views of byte strings.
pub open spec fn byte_views(v: Seq<Vec<u8>>) -> Seq<Seq<u8>> {
    v.map_values(|b: Vec<u8>| b@)
}

impl PollState {
    /// At the start.
    pub fn new() -> (r: Self)
        ensures
            part_views(r.chunks@) == Seq::<Option<Seq<u8>>>::empty(),
            r.consecutive_empty == 0,
            !r.done,
    {
        let r = PollState { chunks: Vec::new(), consecutive_empty: 0, done: false };
        assert(part_views(r.chunks@) =~= Seq::empty());
        r
    }

    /// Puts one part at its number.
    fn put(&mut self, i: usize, b: Vec<u8>)
        requires
            i < usize::MAX,
        ensures
            part_views(final(self).chunks@) == with_part(
                part_views(old(self).chunks@),
                i as int,
                b@,
            ),
            final(self).consecutive_empty == old(self).consecutive_empty,
            final(self).done == old(self).done,
    {
        let ghost before = part_views(self.chunks@);
        while self.chunks.len() <= i
            invariant
                i < usize::MAX,
                before.len() <= self.chunks@.len(),
                self.chunks@.len() <= i + 1 || self.chunks@.len() == before.len(),
                forall|k: int|
                    0 <= k < self.chunks@.len() ==> part_view(#[trigger] self.chunks@[k]) == (if k
                        < before.len() {
                        before[k]
                    } else {
                        None
                    }),
                self.consecutive_empty == old(self).consecutive_empty,
                self.done == old(self).done,
            decreases i + 1 - self.chunks.len(),
        {
            self.chunks.push(None);
        }
        self.chunks.set(i, Some(b));
        assert(part_views(self.chunks@) =~= with_part(before, i as int, b@));
    }

    /// Takes an answer with parts of the audio; with none it counts as empty.
    pub fn on_parts(&mut self, parts: Vec<(usize, Vec<u8>)>, done: bool)
        requires
            old(self).consecutive_empty < u32::MAX,
            forall|i: int| 0 <= i < parts@.len() ==> (#[trigger] parts@[i]).0 < usize::MAX,
        ensures
            part_views(final(self).chunks@) == with_parts(
                part_views(old(self).chunks@),
                parts@,
                parts@.len() as int,
            ),
            final(self).consecutive_empty == (if parts@.len() > 0 {
                0
            } else {
                old(self).consecutive_empty + 1
            }),
            final(self).done == (old(self).done || done),
    {
        if parts.len() == 0 {
            self.consecutive_empty = self.consecutive_empty + 1;
        } else {
            self.consecutive_empty = 0;
        }
        let ghost before = part_views(self.chunks@);
        let ghost empty = self.consecutive_empty;
        let mut i: usize = 0;
        while i < parts.len()
            invariant
                i <= parts@.len(),
                forall|i: int| 0 <= i < parts@.len() ==> (#[trigger] parts@[i]).0 < usize::MAX,
                part_views(self.chunks@) == with_parts(before, parts@, i as int),
                self.consecutive_empty == empty,
                self.done == old(self).done,
            decreases parts.len() - i,
        {
            let b = crate::bytes::copy_bytes(parts[i].1.as_slice());
            let n: usize = parts[i].0;
            self.put(n, b);
            i = i + 1;
        }
        if done {
            self.done = true;
        }
    }

    /// Takes an answer without audio, or none.
    pub fn on_nothing(&mut self)
        requires
            old(self).consecutive_empty < u32::MAX,
        ensures
            final(self).consecutive_empty == old(self).consecutive_empty + 1,
            final(self).chunks == old(self).chunks,
            final(self).done == old(self).done,
    {
        self.consecutive_empty = self.consecutive_empty + 1;
    }

    /// Whether to ask for the state of the job: after every ten empty answers.
    pub fn asks_status(&self) -> (r: bool)
        ensures
            r == (self.consecutive_empty >= 10 && self.consecutive_empty % 10 == 0),
    {
        self.consecutive_empty >= 10 && self.consecutive_empty % 10 == 0
    }

    /// Takes the state of the job: one that ended gives no more audio.
    pub fn on_status(&mut self, body: &Json)
        ensures
            final(self).done == (old(self).done || body@.is("status"@, "COMPLETED"@) || body@.is(
                "status"@,
                "FAILED"@,
            ) || body@.is("status"@, "CANCELLED"@)),
            final(self).chunks == old(self).chunks,
            final(self).consecutive_empty == old(self).consecutive_empty,
    {
        if body.is("status", "COMPLETED") || body.is("status", "FAILED") || body.is(
            "status",
            "CANCELLED",
        ) {
            self.done = true;
        }
    }

    /// The audio, in the order of its parts: where the job ended with some.
    pub fn finish(self) -> (r: Result<Vec<Vec<u8>>, String>)
        ensures
            if !self.done {
                r matches Err(e) && e@ == "TTS generation timed out after 300s"@
            } else if present(part_views(self.chunks@)).len() == 0 {
                r matches Err(e) && e@ == "No audio chunks received"@
            } else {
                r matches Ok(v) && byte_views(v@) == present(part_views(self.chunks@))
            },
    {
        if !self.done {
            return Err("TTS generation timed out after 300s".to_owned());
        }
        let ghost all = part_views(self.chunks@);
        let mut out: Vec<Vec<u8>> = Vec::new();
        let mut i: usize = 0;
        assert(byte_views(out@) =~= present(all.take(0)));
        while i < self.chunks.len()
            invariant
                i <= self.chunks@.len(),
                all == part_views(self.chunks@),
                byte_views(out@) == present(all.take(i as int)),
            decreases self.chunks.len() - i,
        {
            assert(all.take(i + 1).drop_last() =~= all.take(i as int));
            assert(all[i as int] == part_view(self.chunks@[i as int]));
            let ghost before = byte_views(out@);
            match &self.chunks[i] {
                Some(b) => {
                    out.push(crate::bytes::copy_bytes(b.as_slice()));
                    assert(byte_views(out@) =~= before.push(b@));
                },
                None => {},
            }
            i = i + 1;
        }
        assert(all.take(i as int) =~= all);
        if out.len() == 0 {
            Err("No audio chunks received".to_owned())
        } else {
            Ok(out)
        }
    }
}

/// How much of the audio is sound: all but the 44 bytes that head each part.
pub open spec fn sound_bytes(v: Seq<Seq<u8>>) -> nat
    decreases v.len(),
{
    if v.len() == 0 {
        0
    } else {
        sound_bytes(v.drop_last()) + (if v.last().len() > 44 {
            (v.last().len() - 44) as nat
        } else {
            0
        })
    }
}

/// How much of the audio is sound; nothing where that is too much to count.
pub fn pcm_bytes(chunks: &[Vec<u8>]) -> (r: Option<u64>)
    ensures
        match r {
            Some(n) => n == sound_bytes(byte_views(chunks@)),
            None => sound_bytes(byte_views(chunks@)) > u64::MAX,
        },
{
    let ghost all = byte_views(chunks@);
    let mut n: u64 = 0;
    let mut i: usize = 0;
    while i < chunks.len()
        invariant
            i <= chunks@.len(),
            all == byte_views(chunks@),
            n == sound_bytes(all.take(i as int)),
        decreases chunks.len() - i,
    {
        assert(all.take(i + 1).drop_last() =~= all.take(i as int));
        assert(all[i as int] == chunks@[i as int]@);
        let len: usize = chunks[i].len();
        let add: u64 = if len > 44 {
            (len - 44) as u64
        } else {
            0
        };
        if n > u64::MAX - add {
            proof {
                lemma_sound_grows(all, i + 1);
            }
            return None;
        }
        n = n + add;
        i = i + 1;
    }
    assert(all.take(i as int) =~= all);
    Some(n)
}

proof fn lemma_sound_grows(v: Seq<Seq<u8>>, n: int)
    requires
        0 <= n <= v.len(),
    ensures
        sound_bytes(v.take(n)) <= sound_bytes(v),
    decreases v.len() - n,
{
    if n < v.len() {
        lemma_sound_grows(v, n + 1);
        assert(v.take(n + 1).drop_last() =~= v.take(n));
    } else {
        assert(v.take(n) =~= v);
    }
}

// ── Voices ──────────────────────────────────────────────────────────

/// How long the data of a voice are kept, in milliseconds.
pub const CACHE_TTL_MS: u64 = 300_000;

/// The data of voices that were fetched lately.
#[derive(Debug)]
pub struct VoiceCache {
    entries: Vec<(String, String, u64)>,
}

/// The views of what is kept: voice, data, and when they were fetched.
pub open spec fn voice_views(v: Seq<(String, String, u64)>) -> Seq<(Seq<char>, Seq<char>, u64)> {
    v.map_values(|e: (String, String, u64)| (e.0@, e.1@, e.2))
}

/// The data of a voice at or after `i`, and when they were fetched.
pub open spec fn voice_at(s: Seq<(Seq<char>, Seq<char>, u64)>, voice: Seq<char>, i: int) -> Option<
    (Seq<char>, u64),
>
    decreases s.len() - i,
{
    if i >= s.len() {
        None
    } else if s[i].0 == voice {
        Some((s[i].1, s[i].2))
    } else {
        voice_at(s, voice, i + 1)
    }
}

/// The data of a voice that are not too old.
pub open spec fn fresh(e: Option<(Seq<char>, u64)>, now: u64) -> Option<Seq<char>> {
    match e {
        Some((data, at)) => if now - at < CACHE_TTL_MS {
            Some(data)
        } else {
            None
        },
        None => None,
    }
}

impl VoiceCache {
    /// What is kept of a voice.
    pub closed spec fn entry(self, voice: Seq<char>) -> Option<(Seq<char>, u64)> {
        voice_at(voice_views(self.entries@), voice, 0)
    }

    /// With no voices.
    pub fn new() -> (r: Self)
        ensures
            forall|v: Seq<char>| r.entry(v) is None,
    {
        VoiceCache { entries: Vec::new() }
    }

    /// The place of a voice.
    fn find(&self, voice: &str) -> (r: Option<usize>)
        ensures
            match r {
                Some(i) => i < self.entries@.len() && self.entries@[i as int].0@ == voice@
                    && self.entry(voice@) == Some(
                    (self.entries@[i as int].1@, self.entries@[i as int].2),
                ) && forall|k: int| 0 <= k < i ==> (#[trigger] self.entries@[k]).0@ != voice@,
                None => self.entry(voice@) is None && forall|k: int|
                    0 <= k < self.entries@.len() ==> (#[trigger] self.entries@[k]).0@ != voice@,
            },
    {
        let ghost all = voice_views(self.entries@);
        let mut i: usize = 0;
        while i < self.entries.len()
            invariant
                i <= self.entries@.len(),
                all == voice_views(self.entries@),
                voice_at(all, voice@, 0) == voice_at(all, voice@, i as int),
                forall|k: int| 0 <= k < i ==> (#[trigger] self.entries@[k]).0@ != voice@,
            decreases self.entries.len() - i,
        {
            assert(all[i as int].0 == self.entries@[i as int].0@);
            if text::same(self.entries[i].0.as_str(), voice) {
                return Some(i);
            }
            i = i + 1;
        }
        None
    }

    /// The data of a voice, where they were fetched lately.
    pub fn get_cached_conditionals(&self, voice: &str, now: u64) -> (r: Option<String>)
        ensures
            config::opt_string(r) == fresh(self.entry(voice@), now),
    {
        match self.find(voice) {
            Some(i) => {
                let at: u64 = self.entries[i].2;
                if now < at || now - at < CACHE_TTL_MS {
                    Some(self.entries[i].1.clone())
                } else {
                    None
                }
            },
            None => None,
        }
    }

    /// Keeps the data of a voice, unless they are empty.
    pub fn keep(&mut self, voice: &str, data: &str, now: u64)
        ensures
            forall|v: Seq<char>| #[trigger]
                final(self).entry(v) == (if v == voice@ && data@.len() > 0 {
                    Some((data@, now))
                } else {
                    old(self).entry(v)
                }),
    {
        if data.is_empty() {
            return ;
        }
        let ghost before = voice_views(self.entries@);
        match self.find(voice) {
            Some(i) => {
                self.entries.set(i, (voice.to_owned(), data.to_owned(), now));
                let ghost after = voice_views(self.entries@);
                proof {
                    assert(after =~= before.update(i as int, (voice@, data@, now)));
                    assert(before[i as int].0 == voice@);
                    assert(forall|k: int| 0 <= k < i ==> (#[trigger] before[k]).0 != voice@);
                    assert forall|v: Seq<char>| voice_at(after, v, 0) == (if v == voice@ {
                        Some((data@, now))
                    } else {
                        voice_at(before, v, 0)
                    }) by {
                        lemma_voice_update(before, i as int, voice@, data@, now, v, 0);
                    }
                }
            },
            None => {
                self.entries.push((voice.to_owned(), data.to_owned(), now));
                let ghost after = voice_views(self.entries@);
                proof {
                    assert(after =~= before.push((voice@, data@, now)));
                    assert(forall|k: int|
                        0 <= k < before.len() ==> (#[trigger] before[k]).0 != voice@);
                    assert forall|v: Seq<char>| voice_at(after, v, 0) == (if v == voice@ {
                        Some((data@, now))
                    } else {
                        voice_at(before, v, 0)
                    }) by {
                        lemma_voice_push(before, voice@, data@, now, v, 0);
                    }
                }
            },
        }
    }
}

proof fn lemma_voice_update(
    s: Seq<(Seq<char>, Seq<char>, u64)>,
    i: int,
    voice: Seq<char>,
    data: Seq<char>,
    now: u64,
    v: Seq<char>,
    k: int,
)
    requires
        0 <= k <= s.len(),
        0 <= i < s.len(),
        s[i].0 == voice,
        forall|j: int| 0 <= j < i ==> (#[trigger] s[j]).0 != voice,
    ensures
        voice_at(s.update(i, (voice, data, now)), v, k) == (if v == voice && k <= i {
            Some((data, now))
        } else {
            voice_at(s, v, k)
        }),
    decreases s.len() - k,
{
    if k < s.len() {
        lemma_voice_update(s, i, voice, data, now, v, k + 1);
    }
}

proof fn lemma_voice_push(
    s: Seq<(Seq<char>, Seq<char>, u64)>,
    voice: Seq<char>,
    data: Seq<char>,
    now: u64,
    v: Seq<char>,
    k: int,
)
    requires
        0 <= k <= s.len(),
        forall|j: int| 0 <= j < s.len() ==> (#[trigger] s[j]).0 != voice,
    ensures
        voice_at(s.push((voice, data, now)), v, k) == (if v == voice {
            Some((data, now))
        } else {
            voice_at(s, v, k)
        }),
    decreases s.len() - k,
{
    if k < s.len() {
        lemma_voice_push(s, voice, data, now, v, k + 1);
    } else {
        reveal_with_fuel(voice_at, 2);
    }
}

/// The URLs at which the data of a voice may be: of those for all, and of the
/// user's own.
pub fn voice_urls(api_url: &str, agent_id: &str, voice: &str) -> (r: (String, String))
    ensures
        r.0@ == api_url@ + "/api/default-voices/"@ + voice@,
        r.1@ == api_url@ + "/api/agents/"@ + agent_id@ + "/user-voices/"@ + voice@,
{
    (
        text::cat3(api_url, "/api/default-voices/", voice),
        text::cat5(api_url, "/api/agents/", agent_id, "/user-voices/", voice),
    )
}

/// The data of a voice in an answer, where there are some.
pub open spec fn conditionals_in(a: AnswerView) -> Option<Seq<char>> {
    match a {
        AnswerView::Unreached(_) => None,
        AnswerView::Status { success, code, shown, body } => if !success {
            None
        } else {
            match json::json_value(body) {
                Err(_) => None,
                Ok(j) => filled(j.text("conditionals_b64"@)),
            }
        },
    }
}

/// The data of a voice in an answer, where there are some.
pub fn conditionals_of(a: &Answer) -> (r: Option<String>)
    ensures
        config::opt_string(r) == conditionals_in(a@),
{
    match a {
        Answer::Unreached(_) => None,
        Answer::Status { success, code, shown, body } => if !*success {
            None
        } else {
            match json::parse(body.as_str()) {
                Err(_) => None,
                Ok(j) => match j.text("conditionals_b64") {
                    Some(s) => if s.as_str().is_empty() {
                        None
                    } else {
                        Some(s)
                    },
                    None => None,
                },
            }
        },
    }
}

// ── Laws ────────────────────────────────────────────────────────────

/// A job goes to the local GPU where there is one, else to the cloud; each is asked at its
/// own address with its own token.
pub proof fn law_job_addressed(c: GpuConfigView, u: Seq<char>, token: Seq<char>)
    requires
        token.len() > 0,
    ensures
        c.local_url == Some(u) && c.local_token == token ==> submit_first(c) == (
        SubmitView::TryLocal { url: u + "/run"@, auth: Some("Bearer "@ + token) }),
        c.local_url is None && c.runpod_url == Some(u) && c.runpod_token == token ==> submit_first(
            c,
        ) == (SubmitView::TryRunpod { url: u + "/run"@, auth: Some("Bearer "@ + token) }),
        c.local_url is None && c.runpod_url is None ==> submit_first(c) is Fail,
{
}

/// A job that was taken is looked for where it was handed in, under the number that it was
/// given there; one that the local GPU did not take goes to the cloud.
pub proof fn law_job_found_again(
    c: GpuConfigView,
    u: Seq<char>,
    code: u16,
    shown: Seq<char>,
    body: Seq<char>,
    j: JsonView,
    id: Seq<char>,
    why: Seq<char>,
)
    requires
        json::json_value(body) == Ok::<JsonView, Seq<char>>(j),
        j.text("id"@) == Some(id),
    ensures
        c.local_url == Some(u) ==> local_next(
            c,
            AnswerView::Status { success: true, code, shown, body },
        ) == (SubmitView::Submitted { job_id: id, base_url: u }),
        c.runpod_url == Some(u) ==> runpod_next(
            c,
            AnswerView::Status { success: true, code, shown, body },
        ) == (SubmitView::Submitted { job_id: id, base_url: u }),
        c.runpod_url is Some ==> local_next(c, AnswerView::Unreached(why)) is TryRunpod,
        c.runpod_url is Some ==> local_next(
            c,
            AnswerView::Status { success: false, code, shown, body },
        ) is TryRunpod,
        runpod_next(c, AnswerView::Status { success: false, code, shown, body }) is Fail,
{
}

/// A part of the audio stands where its number says, and the others stay.
pub proof fn law_part_placed(s: Seq<Option<Seq<u8>>>, i: int, b: Seq<u8>)
    requires
        0 <= i,
    ensures
        with_part(s, i, b)[i] == Some(b),
        with_part(s, i, b).len() >= s.len(),
        forall|k: int| 0 <= k < s.len() && k != i ==> #[trigger] with_part(s, i, b)[k] == s[k],
{
}

/// Parts of the audio may come in any order.
pub proof fn law_parts_in_any_order(
    s: Seq<Option<Seq<u8>>>,
    i: int,
    b: Seq<u8>,
    j: int,
    c: Seq<u8>,
)
    requires
        0 <= i,
        0 <= j,
        i != j,
    ensures
        with_part(with_part(s, i, b), j, c) == with_part(with_part(s, j, c), i, b),
{
    assert(with_part(with_part(s, i, b), j, c) =~= with_part(with_part(s, j, c), i, b));
}

/// The parts that came are joined in the order of their numbers, and none is left out.
pub proof fn law_parts_joined(s: Seq<Option<Seq<u8>>>, t: Seq<Option<Seq<u8>>>)
    ensures
        present(s + t) == present(s) + present(t),
        t.len() == 1 && t[0] is Some ==> present(t) == seq![t[0].unwrap()],
        t.len() == 1 && t[0] is None ==> present(t).len() == 0,
    decreases t.len(),
{
    if t.len() == 0 {
        assert(s + t =~= s);
        assert(present(s) + present(t) =~= present(s));
    } else {
        law_parts_joined(s, t.drop_last());
        assert((s + t).drop_last() =~= s + t.drop_last());
        assert((s + t).last() == t.last());
        assert(present(s + t) =~= present(s) + present(t));
        if t.len() == 1 {
            assert(t.drop_last() =~= Seq::empty());
            assert(present(t.drop_last()) =~= Seq::empty());
            assert(t[0] is Some ==> present(t) =~= seq![t[0].unwrap()]);
        }
    }
}

/// What a part sounds is all of it but its header.
pub proof fn law_sound_counted(v: Seq<Seq<u8>>, header: Seq<u8>, sound: Seq<u8>)
    requires
        header.len() == 44,
    ensures
        sound_bytes(v.push(header + sound)) == sound_bytes(v) + sound.len(),
{
    assert(v.push(header + sound).drop_last() =~= v);
}

/// A voice that was looked up is used for five minutes.
pub proof fn law_voice_kept(data: Seq<char>, at: u64, now: u64)
    ensures
        at <= now && now - at < 300_000 ==> fresh(Some((data, at)), now) == Some(data),
        now - at >= 300_000 ==> fresh(Some((data, at)), now) is None,
{
}

} // verus!
