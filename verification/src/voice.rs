//! Speech to and from the browsers.

use vstd::prelude::*;

use crate::archives::{TtsEntry, TtsEntryView};
use crate::config;
use crate::crypto;
use crate::events::{AgentEvent, AgentEventView};
use crate::files::{Reply, ReplyView};
use crate::gpu_client;
use crate::gpu_client::{Answer, AnswerView};
use crate::ids::IdMap;
use crate::json;
use crate::json::{Json, JsonView};
use crate::speech;
use crate::terminal;
use crate::terminal::Browsers;
use crate::text;

verus! {

// ── The ledger of voice jobs ────────────────────────────────────────

/// A report to the ledger of voice jobs.
#[derive(Debug)]
pub struct JobReport {
    /// Whether the job is new, and posted; that of another is patched.
    pub new_job: bool,
    pub url: String,
    pub body: Json,
}

/// The mathematical value of a [`JobReport`].
#[verifier::ext_equal]
pub struct JobReportView {
    pub new_job: bool,
    pub url: Seq<char>,
    pub body: JsonView,
}

impl View for JobReport {
    type V = JobReportView;

    open spec fn view(&self) -> JobReportView {
        JobReportView {
            new_job: self.new_job,
            url: self.url@,
            body: self.body@,
        }
    }
}

/// An object with the first `n` members of another put into it.
pub open spec fn merged(j: JsonView, e: Seq<(Seq<char>, JsonView)>, n: int) -> JsonView
    decreases n,
{
    if n <= 0 {
        j
    } else {
        merged(j, e, n - 1).put(e[n - 1].0, e[n - 1].1)
    }
}

/// An object with what is added to it, where that is an object.
pub open spec fn with_extra(j: JsonView, extra: Option<JsonView>) -> JsonView {
    match extra {
        Some(JsonView::Object(e)) => merged(j, e, e.len() as int),
        _ => j,
    }
}

/// An object with what is added to it, where that is an object.
pub fn merge(j: Json, extra: Option<Json>) -> (r: Json)
    requires
        j@ is Object,
    ensures
        r@ == with_extra(j@, json::opt_view(extra)),
{
    match extra {
        Some(Json::Object(v)) => {
            let ghost all = json::json_view(Json::Object(v))->Object_0;
            let ghost base = j@;
            let mut out = j;
            let mut i: usize = 0;
            while i < v.len()
                invariant
                    i <= v@.len(),
                    all.len() == v@.len(),
                    forall|k: int| 0 <= k < v@.len() ==> #[trigger] all[k] == (v@[k].0@, v@[k].1@),
                    out@ == merged(base, all, i as int),
                    out@ is Object,
                decreases v.len() - i,
            {
                let value = v[i].1.copy();
                assert(all[i as int] == (v@[i as int].0@, v@[i as int].1@));
                out = out.put(v[i].0.as_str(), value);
                proof {
                    lemma_put_object(merged(base, all, i as int), all[i as int].0, all[i as int].1);
                }
                i = i + 1;
            }
            out
        },
        _ => j,
    }
}

proof fn lemma_put_object(j: JsonView, k: Seq<char>, v: JsonView)
    ensures
        j is Object ==> j.put(k, v) is Object,
{
    reveal(JsonView::put);
}

/// The report that a voice job reached a state. What is added may replace what
/// stands there.
pub open spec fn job_report(
    api_url: Seq<char>,
    job_id: Seq<char>,
    status: Seq<char>,
    version: Seq<char>,
    extra: Option<JsonView>,
) -> Option<JobReportView> {
    if job_id.len() == 0 || api_url.len() == 0 {
        None
    } else {
        Some(
            JobReportView {
                new_job: false,
                url: api_url + "/api/voice-jobs/"@ + job_id,
                body: with_extra(
                    JsonView::object().put_text("status"@, status).put_text(
                        "reporter_version"@,
                        "daemon:"@ + version,
                    ),
                    extra,
                ),
            },
        )
    }
}

/// The view of a report that may be missing.
pub open spec fn opt_report(r: Option<JobReport>) -> Option<JobReportView> {
    match r {
        Some(x) => Some(x@),
        None => None,
    }
}

/// The report that a voice job reached a state; none without a job or a server.
pub fn report_voice_job(
    api_url: &str,
    job_id: &str,
    status: &str,
    version: &str,
    extra: Option<Json>,
) -> (r: Option<JobReport>)
    ensures
        opt_report(r) == job_report(api_url@, job_id@, status@, version@, json::opt_view(extra)),
{
    if job_id.is_empty() || api_url.is_empty() {
        return None;
    }
    let reporter = text::cat2("daemon:", version);
    let base = Json::object().put_text("status", status).put_text(
        "reporter_version",
        reporter.as_str(),
    );
    proof {
        lemma_put_object(JsonView::object(), "status"@, JsonView::Text(status@));
        lemma_put_object(
            JsonView::object().put_text("status"@, status@),
            "reporter_version"@,
            JsonView::Text(reporter@),
        );
    }
    Some(
        JobReport {
            new_job: false,
            url: text::cat3(api_url, "/api/voice-jobs/", job_id),
            body: merge(base, extra),
        },
    )
}

/// What the ledger is told of a new voice job.
pub open spec fn job_base(
    job_id: Seq<char>,
    agent_id: Seq<char>,
    job_type: Seq<char>,
    version: Seq<char>,
) -> JsonView {
    JsonView::object().put_text("id"@, job_id).put_text("agent_id"@, agent_id).put_text(
        "job_type"@,
        job_type,
    ).put_text("reporter_version"@, "daemon:"@ + version)
}

/// The report of a new voice job; none without a job or a server.
pub fn register_voice_job(
    api_url: &str,
    job_id: &str,
    agent_id: &str,
    job_type: &str,
    version: &str,
    extra: Option<Json>,
) -> (r: Option<JobReport>)
    ensures
        opt_report(r) == (if job_id@.len() == 0 || api_url@.len() == 0 {
            None
        } else {
            Some(
                JobReportView {
                    new_job: true,
                    url: api_url@ + "/api/voice-jobs"@,
                    body: with_extra(
                        job_base(job_id@, agent_id@, job_type@, version@),
                        json::opt_view(extra),
                    ),
                },
            )
        }),
{
    if job_id.is_empty() || api_url.is_empty() {
        return None;
    }
    let reporter = text::cat2("daemon:", version);
    let base = Json::object().put_text("id", job_id).put_text("agent_id", agent_id).put_text(
        "job_type",
        job_type,
    ).put_text("reporter_version", reporter.as_str());
    proof {
        let a = JsonView::object();
        lemma_put_object(a, "id"@, JsonView::Text(job_id@));
        let b = a.put_text("id"@, job_id@);
        lemma_put_object(b, "agent_id"@, JsonView::Text(agent_id@));
        let c = b.put_text("agent_id"@, agent_id@);
        lemma_put_object(c, "job_type"@, JsonView::Text(job_type@));
        lemma_put_object(
            c.put_text("job_type"@, job_type@),
            "reporter_version"@,
            JsonView::Text(reporter@),
        );
    }
    Some(
        JobReport {
            new_job: true,
            url: text::cat2(api_url, "/api/voice-jobs"),
            body: merge(base, extra),
        },
    )
}

// ── Recognised speech ───────────────────────────────────────────────

/// What was said, by the callback of the recogniser: its text, without white space
/// around it, and its job.
pub fn transcription_callback(body: &Json) -> (r: (String, String))
    ensures
        r.0@ == text::trim_spec(body@.text_or("text"@, ""@)),
        r.1@ == body@.text_or("voice_job_id"@, ""@),
{
    let t = body.text_or("text", "");
    (text::trim(t.as_str()), body.text_or("voice_job_id", ""))
}

/// The report and the answer after a callback: with text it was passed on, and
/// without it was not.
pub fn transcription_outcome(said: &str, job_id: &str, api_url: &str, version: &str) -> (r: (
    Option<JobReport>,
    Json,
))
    ensures
        r.1@ == JsonView::object().put_bool("injected"@, said@.len() > 0),
        opt_report(r.0) == (if said@.len() > 0 {
            job_report(api_url@, job_id@, "injected"@, version@, None)
        } else {
            job_report(
                api_url@,
                job_id@,
                "failed"@,
                version@,
                Some(
                    JsonView::object().put_text("error"@, "empty_text"@).put_text(
                        "error_stage"@,
                        "daemon_injection"@,
                    ),
                ),
            )
        }),
{
    if said.is_empty() {
        let extra = Json::object().put_text("error", "empty_text").put_text(
            "error_stage",
            "daemon_injection",
        );
        (
            report_voice_job(api_url, job_id, "failed", version, Some(extra)),
            Json::object().put_bool("injected", false),
        )
    } else {
        (
            report_voice_job(api_url, job_id, "injected", version, None),
            Json::object().put_bool("injected", true),
        )
    }
}

/// The audio that a GPU made, as browsers get it.
pub open spec fn audio_event(
    body: JsonView,
    duration_sec: Seq<char>,
    generation_sec: Seq<char>,
) -> Option<AgentEventView> {
    match body.text("audio_b64"@) {
        Some(audio_b64) => if body.text("error"@) is Some {
            None
        } else {
            Some(
                AgentEventView::TtsAudioData {
                    msg_id: body.text_or("msg_id"@, ""@),
                    chunk: body.uint_or("chunk"@, 0),
                    total: body.uint_or("total"@, 1),
                    audio_b64,
                    duration_sec,
                    generation_sec,
                },
            )
        },
        None => None,
    }
}

/// The audio that a GPU made, as browsers get it; none where it reports an error or
/// sends no audio. `duration_sec` and `generation_sec` are its numbers as JSON text.
pub fn tts_audio_callback(body: &Json, duration_sec: String, generation_sec: String) -> (r: Option<
    AgentEvent,
>)
    ensures
        match r {
            Some(e) => audio_event(body@, duration_sec@, generation_sec@) == Some(e@),
            None => audio_event(body@, duration_sec@, generation_sec@) is None,
        },
{
    if body.text("error").is_some() {
        return None;
    }
    match body.text("audio_b64") {
        None => None,
        Some(audio_b64) => Some(
            AgentEvent::TtsAudioData {
                msg_id: body.text_or("msg_id", ""),
                chunk: body.uint_or("chunk", 0),
                total: body.uint_or("total", 1),
                audio_b64,
                duration_sec,
                generation_sec,
            },
        ),
    }
}

/// Where speech is recognised.
#[derive(Debug)]
pub struct SttBackends {
    /// The local GPU.
    pub local_url: Option<String>,
    pub local_token: String,
    /// The GPU in the cloud.
    pub runpod_url: Option<String>,
    pub runpod_key: String,
    /// The server that is used without a GPU.
    pub whisper_url: String,
}

/// The mathematical value of a [`SttBackends`].
#[verifier::ext_equal]
pub struct SttBackendsView {
    pub local_url: Option<Seq<char>>,
    pub local_token: Seq<char>,
    pub runpod_url: Option<Seq<char>>,
    pub runpod_key: Seq<char>,
    pub whisper_url: Seq<char>,
}

impl View for SttBackends {
    type V = SttBackendsView;

    open spec fn view(&self) -> SttBackendsView {
        SttBackendsView {
            local_url: crate::config::opt_string(self.local_url),
            local_token: self.local_token@,
            runpod_url: crate::config::opt_string(self.runpod_url),
            runpod_key: self.runpod_key@,
            whisper_url: self.whisper_url@,
        }
    }
}

/// What to do to have speech recognised.
#[derive(Debug)]
pub enum SttStep {
    TryLocal { url: String, auth: String },
    TryRunpod { url: String, auth: String },
    TryWhisper { url: String },
    /// The answer of a GPU.
    Done(Json),
    /// The status with which the upload is answered.
    Fail(u16),
}

/// The mathematical value of a [`SttStep`].
#[verifier::ext_equal]
pub enum SttStepView {
    TryLocal { url: Seq<char>, auth: Seq<char> },
    TryRunpod { url: Seq<char>, auth: Seq<char> },
    TryWhisper { url: Seq<char> },
    Done(JsonView),
    Fail(u16),
}

impl View for SttStep {
    type V = SttStepView;

    open spec fn view(&self) -> SttStepView {
        match self {
            SttStep::TryLocal { url, auth } => SttStepView::TryLocal {
                url: url@,
                auth: auth@,
            },
            SttStep::TryRunpod { url, auth } => SttStepView::TryRunpod {
                url: url@,
                auth: auth@,
            },
            SttStep::TryWhisper { url } => SttStepView::TryWhisper {
                url: url@,
            },
            SttStep::Done(a) => SttStepView::Done(a@),
            SttStep::Fail(a) => SttStepView::Fail(*a),
        }
    }
}

impl SttBackends {
    /// Where speech is recognised, by the variables `LOCAL_GPU_URL`,
    /// `LOCAL_GPU_TOKEN`, `RUNPOD_GPU_ID`, `RUNPOD_API_KEY` and `WHISPER_URL`. The
    /// cloud needs both its variables.
    pub fn from_env(
        local_url: Option<&str>,
        local_token: Option<&str>,
        gpu_id: Option<&str>,
        api_key: Option<&str>,
        whisper_url: Option<&str>,
    ) -> (r: Self)
        ensures
            r@ == (SttBackendsView {
                local_url: (match gpu_client::filled(config::opt(local_url)) {
                    Some(u) => Some(text::strip_end(u, '/') + "/runsync"@),
                    None => None,
                }),
                local_token: gpu_client::or_empty(config::opt(local_token)),
                runpod_url: (match (
                    gpu_client::filled(config::opt(gpu_id)),
                    gpu_client::filled(config::opt(api_key)),
                ) {
                    (Some(id), Some(_)) => Some(runsync_url(id)),
                    _ => None,
                }),
                runpod_key: gpu_client::or_empty(config::opt(api_key)),
                whisper_url: (match whisper_url {
                    Some(u) => u@,
                    None => "http://localhost:5124/transcribe"@,
                }),
            }),
    {
        let local = match local_url {
            Some(u) => if u.is_empty() {
                None
            } else {
                let base = text::trim_end_matches(u, '/');
                Some(text::cat2(base.as_str(), "/runsync"))
            },
            None => None,
        };
        let runpod_url = match (gpu_id, api_key) {
            (Some(id), Some(key)) => if id.is_empty() || key.is_empty() {
                None
            } else {
                Some(text::cat3("https://api.runpod.ai/v2/", id, "/runsync"))
            },
            _ => None,
        };
        SttBackends {
            local_url: local,
            local_token: match local_token {
                Some(t) => t.to_owned(),
                None => "".to_owned(),
            },
            runpod_url,
            runpod_key: match api_key {
                Some(k) => k.to_owned(),
                None => "".to_owned(),
            },
            whisper_url: match whisper_url {
                Some(u) => u.to_owned(),
                None => "http://localhost:5124/transcribe".to_owned(),
            },
        }
    }
}

/// The URL at which the cloud runs a job and answers at once.
pub open spec fn runsync_url(gpu_id: Seq<char>) -> Seq<char> {
    "https://api.runpod.ai/v2/"@ + gpu_id + "/runsync"@
}

/// The status of an upload that is not taken: without audio.
pub fn audio_refusal(len: Option<usize>) -> (r: Option<u16>)
    ensures
        r == (match len {
            Some(n) => if n == 0 {
                Some(400u16)
            } else {
                None
            },
            None => Some(400u16),
        }),
{
    match len {
        Some(n) => if n == 0 {
            Some(400)
        } else {
            None
        },
        None => Some(400),
    }
}

/// The job of recognising speech.
pub fn transcribe_payload(audio: &[u8], agent_id: &str) -> (r: Json)
    ensures
        r@ == JsonView::object().put(
            "input"@,
            JsonView::object().put_text("action"@, "transcribe"@).put_text(
                "audio_b64"@,
                crypto::b64(audio@),
            ).put_text("language"@, "en"@).put_text("agent_id"@, agent_id@),
        ),
{
    let data = crypto::b64_encode(audio);
    let input = Json::object().put_text("action", "transcribe").put_text(
        "audio_b64",
        data.as_str(),
    ).put_text("language", "en").put_text("agent_id", agent_id);
    Json::object().put("input", input)
}

/// How speech goes to the cloud.
pub open spec fn stt_cloud(b: SttBackendsView) -> SttStepView {
    match b.runpod_url {
        Some(url) => SttStepView::TryRunpod { url, auth: b.runpod_key },
        None => SttStepView::Fail(502),
    }
}

/// How speech is recognised at first: by the local GPU, else in the cloud, else by
/// the server that is used without a GPU.
pub open spec fn stt_begin(b: SttBackendsView) -> SttStepView {
    match b.local_url {
        Some(url) => SttStepView::TryLocal { url, auth: "Bearer "@ + b.local_token },
        None => match b.runpod_url {
            Some(_) => stt_cloud(b),
            None => SttStepView::TryWhisper { url: b.whisper_url },
        },
    }
}

fn to_cloud(b: &SttBackends) -> (r: SttStep)
    ensures
        r@ == stt_cloud(b@),
{
    match &b.runpod_url {
        Some(url) => SttStep::TryRunpod { url: url.clone(), auth: b.runpod_key.clone() },
        None => SttStep::Fail(502),
    }
}

/// How speech is recognised at first.
pub fn stt_first(b: &SttBackends) -> (r: SttStep)
    ensures
        r@ == stt_begin(b@),
{
    match &b.local_url {
        Some(url) => SttStep::TryLocal {
            url: url.clone(),
            auth: text::cat2("Bearer ", b.local_token.as_str()),
        },
        None => match &b.runpod_url {
            Some(_) => to_cloud(b),
            None => SttStep::TryWhisper { url: b.whisper_url.clone() },
        },
    }
}

/// What a GPU recognised, where its answer is one without an error.
pub open spec fn stt_answer(a: AnswerView) -> Option<JsonView> {
    match a {
        AnswerView::Unreached(_) => None,
        AnswerView::Status { success, code, shown, body } => if !success {
            None
        } else {
            match json::json_value(body) {
                Err(_) => None,
                Ok(j) => if j.text("error"@) is Some {
                    None
                } else {
                    Some(j)
                },
            }
        },
    }
}

/// What a GPU recognised, where its answer is one without an error.
pub fn stt_read(a: &Answer) -> (r: Option<Json>)
    ensures
        json::opt_view(r) == stt_answer(a@),
{
    match a {
        Answer::Unreached(_) => None,
        Answer::Status { success, code, shown, body } => if !*success {
            None
        } else {
            match json::parse(body.as_str()) {
                Err(_) => None,
                Ok(j) => if j.text("error").is_some() {
                    None
                } else {
                    Some(j)
                },
            }
        },
    }
}

/// What follows the local GPU: what it recognised, else the cloud.
pub fn stt_after_local(b: &SttBackends, a: &Answer) -> (r: SttStep)
    ensures
        r@ == (match stt_answer(a@) {
            Some(j) => SttStepView::Done(j),
            None => stt_cloud(b@),
        }),
{
    match stt_read(a) {
        Some(j) => SttStep::Done(j),
        None => to_cloud(b),
    }
}

/// What follows the cloud: what it recognised, else nothing more.
pub fn stt_after_runpod(a: &Answer) -> (r: SttStep)
    ensures
        r@ == (match stt_answer(a@) {
            Some(j) => SttStepView::Done(j),
            None => SttStepView::Fail(502),
        }),
{
    match stt_read(a) {
        Some(j) => SttStep::Done(j),
        None => SttStep::Fail(502),
    }
}

/// How alike the two recognised texts are.
#[derive(Debug, Clone, Copy, PartialEq, Eq, Structural)]
pub enum Similarity {
    /// It is not known.
    Unknown,
    /// At least 0.85.
    High,
    /// At least 0.60.
    Medium,
    /// Less.
    Low,
}

/// How far recognised speech is trusted.
#[derive(Debug, Clone, Copy, PartialEq, Eq, Structural)]
pub enum Tier {
    High,
    Medium,
    Noise,
}

/// How far recognised speech is trusted.
pub open spec fn tier_of(sim: Similarity, medium: Seq<char>, wx: Seq<char>) -> Tier {
    match sim {
        Similarity::High => Tier::High,
        Similarity::Medium => Tier::Medium,
        Similarity::Low => Tier::Noise,
        Similarity::Unknown => if medium.len() > 0 || wx.len() > 0 {
            Tier::Medium
        } else {
            Tier::Noise
        },
    }
}

/// How far recognised speech is trusted.
pub fn confidence(sim: Similarity, medium: &str, wx: &str) -> (r: Tier)
    ensures
        r == tier_of(sim, medium@, wx@),
{
    match sim {
        Similarity::High => Tier::High,
        Similarity::Medium => Tier::Medium,
        Similarity::Low => Tier::Noise,
        Similarity::Unknown => if !medium.is_empty() || !wx.is_empty() {
            Tier::Medium
        } else {
            Tier::Noise
        },
    }
}

/// The two texts that a GPU recognised.
pub open spec fn recognised(rp: JsonView) -> (Seq<char>, Seq<char>) {
    let output = match rp.field("output"@) {
        Some(o) => o,
        None => rp,
    };
    (
        text::trim_spec(output.text_or("text"@, ""@)),
        text::trim_spec(output.text_or("whisperx_text"@, ""@)),
    )
}

/// The two texts that a GPU recognised.
pub fn both_texts(rp: &Json) -> (r: (String, String))
    ensures
        (r.0@, r.1@) == recognised(rp@),
{
    let output = match rp.get("output") {
        Some(o) => o,
        None => rp,
    };
    let a = output.text_or("text", "");
    let b = output.text_or("whisperx_text", "");
    (text::trim(a.as_str()), text::trim(b.as_str()))
}

/// How recognised speech is put to the assistant. The times and the likeness are
/// given as they are shown.
pub open spec fn injection_of(
    medium: Seq<char>,
    wx: Seq<char>,
    medium_secs: Seq<char>,
    wx_secs: Seq<char>,
    likeness: Seq<char>,
) -> Seq<char> {
    if wx.len() == 0 {
        "[text model: "@ + medium_secs + "s] "@ + medium + " [self-similarity: "@ + likeness + "]"@
    } else {
        "[text model: "@ + medium_secs + "s] "@ + (if medium.len() == 0 {
            "(empty)"@
        } else {
            medium
        }) + " [voices model: "@ + wx_secs + "s] "@ + wx + " [self-similarity: "@ + likeness + "]"@
    }
}

/// How recognised speech is put to the assistant.
pub fn injection(medium: &str, wx: &str, medium_secs: &str, wx_secs: &str, likeness: &str) -> (r:
    String)
    ensures
        r@ == injection_of(medium@, wx@, medium_secs@, wx_secs@, likeness@),
{
    if wx.is_empty() {
        text::cat7(
            "[text model: ",
            medium_secs,
            "s] ",
            medium,
            " [self-similarity: ",
            likeness,
            "]",
        )
    } else {
        let m = if medium.is_empty() {
            "(empty)"
        } else {
            medium
        };
        let head = text::cat6("[text model: ", medium_secs, "s] ", m, " [voices model: ", wx_secs);
        text::cat6(head.as_str(), "s] ", wx, " [self-similarity: ", likeness, "]")
    }
}

/// The answer to an upload that a GPU recognised; noise is not passed on.
/// `likeness` is what the GPU said of it.
pub open spec fn stt_reply(tier: Tier, medium: Seq<char>, wx: Seq<char>, likeness: JsonView) -> JsonView {
    match tier {
        Tier::Noise => JsonView::object().put_text("filtered"@, "noise"@).put(
            "embedding_similarity"@,
            likeness,
        ).put_text("medium_text"@, medium).put_text("whisperx_text"@, wx).put_bool(
            "injected"@,
            false,
        ),
        _ => JsonView::object().put_text("transcription"@, medium).put_text(
            "whisperx"@,
            wx,
        ).put_text(
            "confidence"@,
            if tier == Tier::High {
                "high"@
            } else {
                "medium"@
            },
        ).put("embedding_similarity"@, likeness).put_bool("injected"@, medium.len() > 0),
    }
}

/// The answer to an upload that a GPU recognised, and what is put to the assistant;
/// nothing for noise.
pub fn audio_upload(
    rp: &Json,
    sim: Similarity,
    likeness: Json,
    medium_secs: &str,
    wx_secs: &str,
    percent: &str,
) -> (r: (Option<String>, Json))
    ensures
        ({
            let (medium, wx) = recognised(rp@);
            let tier = tier_of(sim, medium, wx);
            &&& r.1@ == stt_reply(tier, medium, wx, likeness@)
            &&& config::opt_string(r.0) == (if tier == Tier::Noise {
                None
            } else {
                Some(injection_of(medium, wx, medium_secs@, wx_secs@, percent@))
            })
        }),
{
    let (medium, wx) = both_texts(rp);
    match confidence(sim, medium.as_str(), wx.as_str()) {
        Tier::Noise => {
            let reply = Json::object().put_text("filtered", "noise").put(
                "embedding_similarity",
                likeness,
            ).put_text("medium_text", medium.as_str()).put_text(
                "whisperx_text",
                wx.as_str(),
            ).put_bool("injected", false);
            (None, reply)
        },
        tier => {
            let shown = if tier == Tier::High {
                "high"
            } else {
                "medium"
            };
            let line = injection(medium.as_str(), wx.as_str(), medium_secs, wx_secs, percent);
            let any: bool = !medium.as_str().is_empty();
            let reply = Json::object().put_text("transcription", medium.as_str()).put_text(
                "whisperx",
                wx.as_str(),
            ).put_text("confidence", shown).put("embedding_similarity", likeness).put_bool(
                "injected",
                any,
            );
            (Some(line), reply)
        },
    }
}

/// What the server that is used without a GPU recognised: its text, or nothing in
/// its place.
pub open spec fn whisper_text_of(body: JsonView) -> Seq<char> {
    let v = match body.field("text"@) {
        Some(t) => Some(t),
        None => body.field("transcription"@),
    };
    text::trim_spec(
        match v {
            Some(t) => match t.as_text() {
                Some(s) => s,
                None => ""@,
            },
            None => ""@,
        },
    )
}

/// What the server that is used without a GPU recognised.
pub fn whisper_text(body: &Json) -> (r: String)
    ensures
        r@ == whisper_text_of(body@),
{
    let v = match body.get("text") {
        Some(t) => Some(t),
        None => body.get("transcription"),
    };
    let s: &str = match v {
        Some(t) => match t.as_str() {
            Some(s) => s,
            None => "",
        },
        None => "",
    };
    text::trim(s)
}

/// The answer to an upload that the server without a GPU recognised.
pub open spec fn whisper_answer(said: Seq<char>) -> JsonView {
    JsonView::object().put_text("transcription"@, said).put_bool("injected"@, said.len() > 0)
}

/// The answer to an upload that the server without a GPU recognised.
pub fn whisper_reply(said: &str) -> (r: Json)
    ensures
        r@ == whisper_answer(said@),
{
    Json::object().put_text("transcription", said).put_bool("injected", !said.is_empty())
}

/// The answer where speech cannot be recognised.
pub open spec fn unavailable_answer(whisper_url: Seq<char>) -> JsonView {
    JsonView::object().put_text("error"@, "stt_unavailable"@).put_text(
        "message"@,
        "Speech-to-text unavailable. Local Whisper at "@ + whisper_url
            + " is not reachable. Set RUNPOD_API_KEY and RUNPOD_GPU_ID for cloud transcription, or start a local Whisper server."@,
    ).put_text("diagnostics_url"@, "/api/diagnostics"@)
}

/// The answer where speech cannot be recognised.
pub fn stt_unavailable(whisper_url: &str) -> (r: Json)
    ensures
        r@ == unavailable_answer(whisper_url@),
{
    let m = text::cat3(
        "Speech-to-text unavailable. Local Whisper at ",
        whisper_url,
        " is not reachable. Set RUNPOD_API_KEY and RUNPOD_GPU_ID for cloud transcription, or start a local Whisper server.",
    );
    Json::object().put_text("error", "stt_unavailable").put_text("message", m.as_str()).put_text(
        "diagnostics_url",
        "/api/diagnostics",
    )
}

/// What became of an upload of speech.
#[derive(Debug)]
pub enum Heard {
    /// The answer to it, and what was said, where the agent is to hear it.
    Said { notice: Option<String>, reply: Json },
    /// It is answered with the status alone.
    Refused(u16),
}

/// The mathematical value of a [`Heard`].
#[verifier::ext_equal]
pub enum HeardView {
    Said { notice: Option<Seq<char>>, reply: JsonView },
    Refused(u16),
}

impl View for Heard {
    type V = HeardView;

    open spec fn view(&self) -> HeardView {
        match self {
            Heard::Said { notice, reply } => HeardView::Said {
                notice: crate::config::opt_string(*notice),
                reply: reply@,
            },
            Heard::Refused(code) => HeardView::Refused(*code),
        }
    }
}

/// What follows the answer of the server at `url` that is used without a GPU: what it
/// recognised is heard unless it is empty, and that it was not reached is said.
pub open spec fn whisper_heard(url: Seq<char>, a: AnswerView) -> HeardView {
    match a {
        AnswerView::Unreached(_) => HeardView::Said {
            notice: None,
            reply: unavailable_answer(url),
        },
        AnswerView::Status { success, code, shown, body } => if !success {
            HeardView::Refused(502)
        } else {
            match json::json_value(body) {
                Err(_) => HeardView::Refused(502),
                Ok(j) => HeardView::Said {
                    notice: if whisper_text_of(j).len() > 0 {
                        Some(whisper_text_of(j))
                    } else {
                        None
                    },
                    reply: whisper_answer(whisper_text_of(j)),
                },
            }
        },
    }
}

/// What follows the answer of the server at `url` that is used without a GPU.
pub fn stt_after_whisper(url: &str, a: &Answer) -> (r: Heard)
    ensures
        r@ == whisper_heard(url@, a@),
{
    match a {
        Answer::Unreached(_) => Heard::Said { notice: None, reply: stt_unavailable(url) },
        Answer::Status { success, code, shown, body } => if !*success {
            Heard::Refused(502)
        } else {
            match json::parse(body.as_str()) {
                Err(_) => Heard::Refused(502),
                Ok(j) => {
                    let said = whisper_text(&j);
                    let reply = whisper_reply(said.as_str());
                    let notice = if said.as_str().is_empty() {
                        None
                    } else {
                        Some(said)
                    };
                    Heard::Said { notice, reply }
                },
            }
        },
    }
}

// ── Settings ────────────────────────────────────────────────────────

/// Whether words in capitals are put in lower case, by the agent's settings: yes,
/// unless they say otherwise.
pub open spec fn lowercase_setting(a: AnswerView) -> bool {
    match a {
        AnswerView::Unreached(_) => true,
        AnswerView::Status { success, code, shown, body } => if !success {
            true
        } else {
            match json::json_value(body) {
                Err(_) => true,
                Ok(j) => j.truth_or("force_lowercase"@, true),
            }
        },
    }
}

/// Whether words in capitals are put in lower case, by the agent's settings.
pub fn fetch_force_lowercase(a: &Answer) -> (r: bool)
    ensures
        r == lowercase_setting(a@),
{
    match a {
        Answer::Unreached(_) => true,
        Answer::Status { success, code, shown, body } => if !*success {
            true
        } else {
            match json::parse(body.as_str()) {
                Err(_) => true,
                Ok(j) => j.truth_or("force_lowercase", true),
            }
        },
    }
}

/// The voice that the agent's settings name.
pub open spec fn preferred_voice(a: AnswerView) -> Option<Seq<char>> {
    match a {
        AnswerView::Unreached(_) => None,
        AnswerView::Status { success, code, shown, body } => if !success {
            None
        } else {
            match json::json_value(body) {
                Err(_) => None,
                Ok(j) => gpu_client::filled(j.text("voice"@)),
            }
        },
    }
}

/// The voice that the agent's settings name.
pub fn resolve_agent_voice(a: &Answer) -> (r: Option<String>)
    ensures
        config::opt_string(r) == preferred_voice(a@),
{
    match a {
        Answer::Unreached(_) => None,
        Answer::Status { success, code, shown, body } => if !*success {
            None
        } else {
            match json::parse(body.as_str()) {
                Err(_) => None,
                Ok(j) => match j.text("voice") {
                    Some(v) => if v.as_str().is_empty() {
                        None
                    } else {
                        Some(v)
                    },
                    None => None,
                },
            }
        },
    }
}

/// Whether a voice has to be looked up in the agent's settings.
pub fn is_default_voice(voice: &str) -> (r: bool)
    ensures
        r == (voice@.len() == 0 || voice@ == "default"@),
{
    voice.is_empty() || text::same(voice, "default")
}

/// The voice to speak with: the one asked for, else the agent's, else that of all.
pub open spec fn voice_used(voice: Seq<char>, preferred: Option<Seq<char>>) -> Seq<char> {
    if voice.len() == 0 || voice == "default"@ {
        match preferred {
            Some(v) => v,
            None => "arabella"@,
        }
    } else {
        voice
    }
}

/// The voice to speak with: the one asked for, else the agent's, else that of all.
pub fn effective_voice(voice: &str, preferred: Option<String>) -> (r: String)
    ensures
        r@ == voice_used(voice@, config::opt_string(preferred)),
{
    if is_default_voice(voice) {
        match preferred {
            Some(v) => v,
            None => "arabella".to_owned(),
        }
    } else {
        voice.to_owned()
    }
}

// ── Speaking ────────────────────────────────────────────────────────

/// What is to be spoken.
#[derive(Debug)]
pub struct TtsRequest {
    pub text: String,
    pub msg_id: String,
    pub voice: String,
    pub emotion: String,
    pub replying_to: String,
}

/// The mathematical value of a [`TtsRequest`].
#[verifier::ext_equal]
pub struct TtsRequestView {
    pub text: Seq<char>,
    pub msg_id: Seq<char>,
    pub voice: Seq<char>,
    pub emotion: Seq<char>,
    pub replying_to: Seq<char>,
}

impl View for TtsRequest {
    type V = TtsRequestView;

    open spec fn view(&self) -> TtsRequestView {
        TtsRequestView {
            text: self.text@,
            msg_id: self.msg_id@,
            voice: self.voice@,
            emotion: self.emotion@,
            replying_to: self.replying_to@,
        }
    }
}

/// What is to be spoken.
pub open spec fn requested(body: JsonView) -> TtsRequestView {
    TtsRequestView {
        text: body.text_or("text"@, ""@),
        msg_id: body.text_or("msg_id"@, ""@),
        voice: body.text_or("voice"@, "default"@),
        emotion: body.text_or("emotion"@, ""@),
        replying_to: body.text_or("replying_to"@, ""@),
    }
}

/// What is to be spoken; an answer in its place where there is no text.
pub fn tts_request(body: &Json) -> (r: Result<TtsRequest, Reply>)
    ensures
        if requested(body@).text.len() == 0 {
            r matches Err(e) && e@ == ReplyView::error(400, "text is required"@)
        } else {
            r matches Ok(t) && t@ == requested(body@)
        },
{
    let said = body.text_or("text", "");
    if said.as_str().is_empty() {
        return Err(Reply::error(400, "text is required"));
    }
    Ok(
        TtsRequest {
            text: said,
            msg_id: body.text_or("msg_id", ""),
            voice: body.text_or("voice", "default"),
            emotion: body.text_or("emotion", ""),
            replying_to: body.text_or("replying_to", ""),
        },
    )
}

/// What is known of a browser. `silent` says for how long each has been, in
/// milliseconds.
pub open spec fn profile_json(
    b: Browsers,
    silent: Map<u64, u64>,
    id: u64,
    version: Seq<char>,
) -> JsonView {
    let rows = if b.sizes@.dom().contains(id) {
        b.sizes@[id].0
    } else {
        0
    };
    let cols = if b.sizes@.dom().contains(id) {
        b.sizes@[id].1
    } else {
        0
    };
    JsonView::object().put_uint("session_id"@, id).put_text("version"@, version).put_uint(
        "last_seen_ms"@,
        if silent.dom().contains(id) {
            silent[id]
        } else {
            0
        },
    ).put_text(
        "user_agent"@,
        if b.user_agents@.dom().contains(id) {
            b.user_agents@[id]@
        } else {
            ""@
        },
    ).put_uint(
        "volume"@,
        if b.volumes@.dom().contains(id) {
            b.volumes@[id] as u64
        } else {
            100
        },
    ).put_bool("audio_context"@, plays(b, id)).put_uint("rows"@, rows as u64).put_uint(
        "cols"@,
        cols as u64,
    )
}

/// Whether a browser can play audio.
pub open spec fn plays(b: Browsers, id: u64) -> bool {
    b.audio_contexts@.dom().contains(id) && b.audio_contexts@[id]
}

/// Whether a browser can play audio.
fn can_play(b: &Browsers, id: u64) -> (r: bool)
    ensures
        r == plays(*b, id),
{
    match b.audio_contexts.get(id) {
        Some(a) => *a,
        None => false,
    }
}

/// What is known of a browser.
pub fn profile(b: &Browsers, silent: &IdMap<u64>, id: u64, version: &str) -> (r: Json)
    ensures
        r@ == profile_json(*b, silent@, id, version@),
{
    let (rows, cols): (u16, u16) = match b.sizes.get(id) {
        Some(s) => (s.0, s.1),
        None => (0, 0),
    };
    let ago: u64 = match silent.get(id) {
        Some(t) => *t,
        None => 0,
    };
    let ua: &str = match b.user_agents.get(id) {
        Some(u) => u.as_str(),
        None => "",
    };
    let vol: u64 = match b.volumes.get(id) {
        Some(v) => *v as u64,
        None => 100,
    };
    Json::object().put_uint("session_id", id).put_text("version", version).put_uint(
        "last_seen_ms",
        ago,
    ).put_text("user_agent", ua).put_uint("volume", vol).put_bool(
        "audio_context",
        can_play(b, id),
    ).put_uint("rows", rows as u64).put_uint("cols", cols as u64)
}

/// What is known of each browser; terminals, which tell no version, are none.
pub open spec fn profiles_json(b: Browsers, silent: Map<u64, u64>) -> Seq<JsonView> {
    Seq::new(
        b.versions.listed().len(),
        |i: int|
            profile_json(b, silent, b.versions.listed()[i].0, b.versions.listed()[i].1@),
    )
}

/// How many of the first `n` browsers can play audio.
pub open spec fn playing(b: Browsers, n: int) -> nat
    decreases n,
{
    if n <= 0 {
        0
    } else {
        playing(b, n - 1) + (if plays(b, b.versions.listed()[n - 1].0) {
            1nat
        } else {
            0nat
        })
    }
}

/// What is known of each browser, and how many of them can play audio.
pub fn browser_profiles(b: &Browsers, silent: &IdMap<u64>) -> (r: (Vec<Json>, u64))
    ensures
        json::json_views(r.0@) == profiles_json(*b, silent@),
        r.1 == playing(*b, b.versions.listed().len() as int),
        r.1 <= r.0@.len(),
{
    let n: usize = b.versions.len();
    let mut out: Vec<Json> = Vec::new();
    let mut live: u64 = 0;
    let mut i: usize = 0;
    while i < n
        invariant
            i <= n,
            n == b.versions.listed().len(),
            out@.len() == i,
            live <= i,
            live == playing(*b, i as int),
            forall|k: int|
                0 <= k < i ==> (#[trigger] out@[k])@ == profiles_json(*b, silent@)[k],
        decreases n - i,
    {
        let (id, version) = b.versions.at(i);
        out.push(profile(b, silent, id, version.as_str()));
        if can_play(b, id) {
            live = live + 1;
        }
        i = i + 1;
    }
    assert(json::json_views(out@) =~= profiles_json(*b, silent@));
    (out, live)
}

/// What the browsers are told first when something is to be spoken: that speech is
/// on its way.
pub fn tts_generating(t: &TtsRequest) -> (r: AgentEvent)
    ensures
        r@ == (AgentEventView::TtsGenerating { msg_id: t@.msg_id, chunk: 0, total: 1 }),
{
    AgentEvent::TtsGenerating { msg_id: t.msg_id.clone(), chunk: 0, total: 1 }
}

/// What the browsers are to speak. `conditionals_b64` are the data of the voice.
pub open spec fn stream_event(
    t: TtsRequestView,
    cleaned: Seq<char>,
    conditionals_b64: Seq<char>,
) -> AgentEventView {
    AgentEventView::TtsStream {
        msg_id: t.msg_id,
        text: cleaned,
        original_text: t.text,
        voice: t.voice,
        emotion: t.emotion,
        replying_to: t.replying_to,
        split_chars: ".!?"@,
        min_chunk_chars: 80,
        conditionals_b64,
    }
}

/// What the browsers are to speak. `conditionals_b64` are the data of the voice.
pub fn tts_stream(t: &TtsRequest, cleaned: &str, conditionals_b64: &str) -> (r: AgentEvent)
    ensures
        r@ == stream_event(t@, cleaned@, conditionals_b64@),
{
    AgentEvent::TtsStream {
        msg_id: t.msg_id.clone(),
        text: cleaned.to_owned(),
        original_text: t.text.clone(),
        voice: t.voice.clone(),
        emotion: t.emotion.clone(),
        replying_to: t.replying_to.clone(),
        split_chars: ".!?".to_owned(),
        min_chunk_chars: 80,
        conditionals_b64: conditionals_b64.to_owned(),
    }
}

/// The text that is spoken for a request.
pub fn spoken_text(t: &TtsRequest, force_lowercase: bool) -> (r: String)
    ensures
        r@ == speech::cleaned(t@.text, force_lowercase),
{
    speech::clean_for_tts(t.text.as_str(), force_lowercase)
}

/// The first eighty characters.
pub open spec fn preview(s: Seq<char>) -> Seq<char> {
    if s.len() >= 80 {
        s.take(80)
    } else {
        s
    }
}

/// The report of a new job of speaking.
pub open spec fn tts_report(
    t: TtsRequestView,
    cleaned: Seq<char>,
    api_url: Seq<char>,
    agent_id: Seq<char>,
    version: Seq<char>,
) -> Option<JobReportView> {
    if t.msg_id.len() == 0 || api_url.len() == 0 {
        None
    } else {
        Some(
            JobReportView {
                new_job: true,
                url: api_url + "/api/voice-jobs"@,
                body: with_extra(
                    job_base(t.msg_id, agent_id, "tts"@, version),
                    Some(
                        JsonView::object().put_text("msg_id"@, t.msg_id).put_text(
                            "text_preview"@,
                            preview(cleaned),
                        ).put_text("voice"@, t.voice),
                    ),
                ),
            },
        )
    }
}

/// The report of a new job of speaking.
pub fn tts_job(t: &TtsRequest, cleaned: &str, api_url: &str, agent_id: &str, version: &str) -> (r:
    Option<JobReport>)
    ensures
        opt_report(r) == tts_report(t@, cleaned@, api_url@, agent_id@, version@),
{
    let shown = text::take(cleaned, 80);
    let extra = Json::object().put_text("msg_id", t.msg_id.as_str()).put_text(
        "text_preview",
        shown.as_str(),
    ).put_text("voice", t.voice.as_str());
    register_voice_job(api_url, t.msg_id.as_str(), agent_id, "tts", version, Some(extra))
}

/// The answer when speech is on its way.
pub open spec fn streaming(msg_id: Seq<char>, live: u64, browsers: Seq<JsonView>) -> JsonView {
    JsonView::object().put_text("status"@, "streaming"@).put_text("msg_id"@, msg_id).put_uint(
        "clients"@,
        live,
    ).put("browsers"@, JsonView::Array(browsers)).put("credits_remaining"@, JsonView::Null)
}

/// The answer when speech is on its way.
pub fn tts_reply(msg_id: &str, live_clients: u64, browsers: Vec<Json>) -> (r: Json)
    ensures
        r@ == streaming(msg_id@, live_clients, json::json_views(browsers@)),
{
    Json::object().put_text("status", "streaming").put_text("msg_id", msg_id).put_uint(
        "clients",
        live_clients,
    ).put("browsers", Json::array(browsers)).put("credits_remaining", Json::Null)
}

/// Who makes the speech: the daemon, where no browser can, and else a browser, on
/// which the daemon keeps watch.
#[derive(Debug, Clone, Copy, PartialEq, Eq, Structural)]
pub enum Maker {
    Daemon,
    Watched,
}

/// Who makes the speech.
pub fn maker(live_clients: u64) -> (r: Maker)
    ensures
        r == (if live_clients == 0 {
            Maker::Daemon
        } else {
            Maker::Watched
        }),
{
    if live_clients == 0 {
        Maker::Daemon
    } else {
        Maker::Watched
    }
}

/// How a request to speak is met, but for the data of the voice.
#[derive(Debug)]
pub struct TtsPlan {
    pub request: TtsRequest,
    /// The text that is spoken.
    pub cleaned: String,
    /// What the ledger of voice jobs is told.
    pub job: Option<JobReport>,
    /// What the browsers are told first.
    pub generating: AgentEvent,
    pub maker: Maker,
    pub reply: Json,
}

/// How a request to speak is met: the text is cleaned, the job reported, and the
/// browsers told; who speaks depends on how many browsers can play audio. A request
/// without text is refused.
pub fn tts(
    body: &Json,
    b: &Browsers,
    silent: &IdMap<u64>,
    force_lowercase: bool,
    api_url: &str,
    agent_id: &str,
    version: &str,
) -> (r: Result<TtsPlan, Reply>)
    ensures
        ({
            let t = requested(body@);
            let cleaned = speech::cleaned(t.text, force_lowercase);
            let live = playing(*b, b.versions.listed().len() as int) as u64;
            if t.text.len() == 0 {
                r matches Err(e) && e@ == ReplyView::error(400, "text is required"@)
            } else {
                r matches Ok(p) && {
                    &&& p.request@ == t
                    &&& p.cleaned@ == cleaned
                    &&& opt_report(p.job) == tts_report(t, cleaned, api_url@, agent_id@, version@)
                    &&& p.generating@ == (AgentEventView::TtsGenerating {
                        msg_id: t.msg_id,
                        chunk: 0,
                        total: 1,
                    })
                    &&& p.maker == (if live == 0 {
                        Maker::Daemon
                    } else {
                        Maker::Watched
                    })
                    &&& p.reply@ == streaming(t.msg_id, live, profiles_json(*b, silent@))
                }
            }
        }),
{
    match tts_request(body) {
        Err(e) => Err(e),
        Ok(request) => {
            let (profiles, live) = browser_profiles(b, silent);
            let cleaned = spoken_text(&request, force_lowercase);
            let job = tts_job(&request, cleaned.as_str(), api_url, agent_id, version);
            let generating = tts_generating(&request);
            let reply = tts_reply(request.msg_id.as_str(), live, profiles);
            Ok(TtsPlan { request, cleaned, job, generating, maker: maker(live), reply })
        },
    }
}

/// What the watch over a browser does next.
#[derive(Debug, Clone, Copy, PartialEq, Eq, Structural)]
pub enum Watch {
    /// The speech is kept: nothing more.
    Finished,
    /// The browser is at work: look again later.
    Wait,
    /// The browser stopped: the daemon makes the speech.
    Generate,
}

/// How long a browser may be silent before the daemon takes over, in milliseconds.
pub const WATCH_MS: u64 = 30_000;

/// What the watch over a browser does next.
pub open spec fn watch_next(archived: bool, silent_ms: Option<u64>) -> Watch {
    if archived {
        Watch::Finished
    } else {
        match silent_ms {
            Some(t) => if t < WATCH_MS {
                Watch::Wait
            } else {
                Watch::Generate
            },
            None => Watch::Generate,
        }
    }
}

/// What the watch over a browser does next. `silent_ms` says how long ago the
/// browser reported on the message last.
pub fn watchdog(archived: bool, silent_ms: Option<u64>) -> (r: Watch)
    ensures
        r == watch_next(archived, silent_ms),
{
    if archived {
        return Watch::Finished;
    }
    match silent_ms {
        Some(t) => if t < WATCH_MS {
            Watch::Wait
        } else {
            Watch::Generate
        },
        None => Watch::Generate,
    }
}

/// The first two hundred characters of an error.
pub open spec fn brief(s: Seq<char>) -> Seq<char> {
    if s.len() >= 200 {
        s.take(200)
    } else {
        s
    }
}

/// The report on speech that the daemon made, or failed to make.
pub fn generated_report(
    api_url: &str,
    msg_id: &str,
    origin: &str,
    version: &str,
    error: Option<&str>,
) -> (r: Option<JobReport>)
    ensures
        opt_report(r) == (match error {
            None => job_report(
                api_url@,
                msg_id@,
                "done"@,
                version@,
                Some(
                    JsonView::object().put_text("audio_output"@, "daemon_archive"@).put_text(
                        "origin"@,
                        origin@,
                    ),
                ),
            ),
            Some(e) => job_report(
                api_url@,
                msg_id@,
                "failed"@,
                version@,
                Some(
                    JsonView::object().put_text("error"@, brief(e@)).put_text(
                        "error_stage"@,
                        "daemon_tts_generation"@,
                    ).put_text("origin"@, origin@),
                ),
            ),
        }),
{
    match error {
        None => {
            let extra = Json::object().put_text("audio_output", "daemon_archive").put_text(
                "origin",
                origin,
            );
            report_voice_job(api_url, msg_id, "done", version, Some(extra))
        },
        Some(e) => {
            let shown = text::take(e, 200);
            let extra = Json::object().put_text("error", shown.as_str()).put_text(
                "error_stage",
                "daemon_tts_generation",
            ).put_text("origin", origin);
            report_voice_job(api_url, msg_id, "failed", version, Some(extra))
        },
    }
}

/// What is kept of speech that the daemon made.
pub fn daemon_entry(
    msg_id: &str,
    said: &str,
    voice: &str,
    emotion: &str,
    timestamp: u64,
    duration_sec: &str,
    size_bytes: u64,
) -> (r: TtsEntry)
    ensures
        r@ == (TtsEntryView {
            msg_id: msg_id@,
            text: said@,
            original_text: ""@,
            voice: voice@,
            emotion: emotion@,
            replying_to: ""@,
            timestamp,
            duration_sec: duration_sec@,
            size_bytes,
        }),
{
    TtsEntry {
        msg_id: msg_id.to_owned(),
        text: said.to_owned(),
        original_text: "".to_owned(),
        voice: voice.to_owned(),
        emotion: emotion.to_owned(),
        replying_to: "".to_owned(),
        timestamp,
        duration_sec: duration_sec.to_owned(),
        size_bytes,
    }
}

// ── Reports from the browsers ───────────────────────────────────────

/// Whether an event says that a browser plays a message, or is at it.
pub fn voice_event(body: &Json) -> (r: Option<String>)
    ensures
        config::opt_string(r) == ({
            let event = body@.text_or("event"@, ""@);
            let msg_id = body@.text_or("msg_id"@, ""@);
            if (event == "delivered"@ || event == "started"@ || event == "finished"@)
                && msg_id.len() > 0 {
                Some(msg_id)
            } else {
                None
            }
        }),
{
    let event = body.text_or("event", "");
    let msg_id = body.text_or("msg_id", "");
    let e = event.as_str();
    if (text::same(e, "delivered") || text::same(e, "started") || text::same(e, "finished"))
        && !msg_id.as_str().is_empty() {
        Some(msg_id)
    } else {
        None
    }
}

/// What a report calls its browser: the text or the number that it gives.
pub open spec fn report_session(body: JsonView) -> Seq<char> {
    match body.field("session_id"@) {
        Some(v) => match v.as_text() {
            Some(s) => s,
            None => match v.as_uint() {
                Some(n) => text::decimal(n as nat),
                None => ""@,
            },
        },
        None => ""@,
    }
}

/// A piece of a report, where there is something to say.
pub open spec fn piece(label: Seq<char>, value: Option<Seq<char>>) -> Seq<char> {
    match value {
        Some(v) => label + v,
        None => ""@,
    }
}

/// The line that tells the assistant of a report.
pub open spec fn report_line(body: JsonView) -> Seq<char> {
    let session = report_session(body);
    "[voice-report] msg="@ + body.text_or("msg_id"@, "unknown"@) + " status="@ + body.text_or(
        "status"@,
        "unknown"@,
    ) + (match (body.uint("chunks_played"@), body.uint("chunks_scheduled"@)) {
        (Some(p), Some(s)) => " chunks="@ + text::decimal(p as nat) + "/"@ + text::decimal(
            s as nat,
        ),
        _ => ""@,
    }) + piece(" stage="@, body.text("stage"@)) + piece(" error="@, body.text("error"@)) + (
    if session.len() > 0 {
        " session="@ + session
    } else {
        ""@
    }) + (match body.uint("volume"@) {
        Some(v) => " vol="@ + text::decimal(v as nat) + "%"@,
        None => ""@,
    })
}

fn labelled(label: &str, value: Option<String>) -> (r: String)
    ensures
        r@ == piece(label@, config::opt_string(value)),
{
    match value {
        Some(v) => text::cat2(label, v.as_str()),
        None => "".to_owned(),
    }
}

/// What a report calls its browser.
fn session_of(body: &Json) -> (r: String)
    ensures
        r@ == report_session(body@),
{
    match body.get("session_id") {
        Some(v) => match v.as_str() {
            Some(s) => s.to_owned(),
            None => match v.as_u64() {
                Some(n) => text::to_decimal(n),
                None => "".to_owned(),
            },
        },
        None => "".to_owned(),
    }
}

/// The message that a report says was played.
pub open spec fn played_message(body: JsonView) -> Option<Seq<char>> {
    let status = body.text_or("status"@, "unknown"@);
    if status == "delivered"@ || status == "finished"@ || status == "played"@ || status
        == "complete"@ {
        Some(body.text_or("msg_id"@, "unknown"@))
    } else {
        None
    }
}

/// A browser's report on a message: the message, where it was played, and the line
/// that tells the assistant, unless the browser asks not to.
pub fn voice_report(body: &Json) -> (r: (Option<String>, Option<String>))
    ensures
        config::opt_string(r.0) == played_message(body@),
        config::opt_string(r.1) == (if body@.truth_or("inject"@, true) {
            Some(report_line(body@))
        } else {
            None
        }),
{
    let msg_id = body.text_or("msg_id", "unknown");
    let status = body.text_or("status", "unknown");
    let s = status.as_str();
    let played = if text::same(s, "delivered") || text::same(s, "finished") || text::same(
        s,
        "played",
    ) || text::same(s, "complete") {
        Some(msg_id.clone())
    } else {
        None
    };
    if !body.truth_or("inject", true) {
        return (played, None);
    }
    let chunks = match (body.uint("chunks_played"), body.uint("chunks_scheduled")) {
        (Some(p), Some(q)) => {
            let a = text::to_decimal(p);
            let b = text::to_decimal(q);
            text::cat4(" chunks=", a.as_str(), "/", b.as_str())
        },
        _ => "".to_owned(),
    };
    let stage = labelled(" stage=", body.text("stage"));
    let error = labelled(" error=", body.text("error"));
    let session = session_of(body);
    let session_info = if session.as_str().is_empty() {
        "".to_owned()
    } else {
        text::cat2(" session=", session.as_str())
    };
    let volume = match body.uint("volume") {
        Some(v) => {
            let n = text::to_decimal(v);
            text::cat3(" vol=", n.as_str(), "%")
        },
        None => "".to_owned(),
    };
    let head = text::cat4("[voice-report] msg=", msg_id.as_str(), " status=", s);
    let line = text::cat6(
        head.as_str(),
        chunks.as_str(),
        stage.as_str(),
        error.as_str(),
        session_info.as_str(),
        volume.as_str(),
    );
    (played, Some(line))
}

// ── Speech that browsers made ───────────────────────────────────────

/// Speech that a browser made and sends to be kept.
#[derive(Debug)]
pub struct TtsUpload {
    pub audio: Vec<u8>,
    pub msg_id: String,
    pub text: String,
    pub original_text: String,
    pub voice: String,
    pub emotion: String,
    pub replying_to: String,
    /// How long it lasts, as JSON text.
    pub duration_sec: String,
    pub voice_job_id: String,
}

/// The mathematical value of a [`TtsUpload`].
#[verifier::ext_equal]
pub struct TtsUploadView {
    pub audio: Seq<u8>,
    pub msg_id: Seq<char>,
    pub text: Seq<char>,
    pub original_text: Seq<char>,
    pub voice: Seq<char>,
    pub emotion: Seq<char>,
    pub replying_to: Seq<char>,
    pub duration_sec: Seq<char>,
    pub voice_job_id: Seq<char>,
}

impl View for TtsUpload {
    type V = TtsUploadView;

    open spec fn view(&self) -> TtsUploadView {
        TtsUploadView {
            audio: self.audio@,
            msg_id: self.msg_id@,
            text: self.text@,
            original_text: self.original_text@,
            voice: self.voice@,
            emotion: self.emotion@,
            replying_to: self.replying_to@,
            duration_sec: self.duration_sec@,
            voice_job_id: self.voice_job_id@,
        }
    }
}

impl TtsUpload {
    /// An upload before its fields are read.
    pub fn blank() -> (r: Self)
        ensures
            r@ == (TtsUploadView {
                audio: Seq::empty(),
                msg_id: ""@,
                text: ""@,
                original_text: ""@,
                voice: ""@,
                emotion: ""@,
                replying_to: ""@,
                duration_sec: "0.0"@,
                voice_job_id: ""@,
            }),
    {
        TtsUpload {
            audio: Vec::new(),
            msg_id: "".to_owned(),
            text: "".to_owned(),
            original_text: "".to_owned(),
            voice: "".to_owned(),
            emotion: "".to_owned(),
            replying_to: "".to_owned(),
            duration_sec: "0.0".to_owned(),
            voice_job_id: "".to_owned(),
        }
    }
}

/// The speech in a JSON upload, with its audio decoded.
pub open spec fn uploaded(v: JsonView, audio: Seq<u8>, duration_sec: Seq<char>) -> TtsUploadView {
    TtsUploadView {
        audio,
        msg_id: v.text_or("msg_id"@, ""@),
        text: v.text_or("text"@, ""@),
        original_text: v.text_or("original_text"@, ""@),
        voice: v.text_or("voice"@, ""@),
        emotion: v.text_or("emotion"@, ""@),
        replying_to: v.text_or("replying_to"@, ""@),
        duration_sec,
        voice_job_id: v.text_or("voice_job_id"@, ""@),
    }
}

/// The speech in a JSON upload. `duration_sec` is its duration as JSON text.
pub fn tts_upload_json(v: &Json, duration_sec: String) -> (r: Result<TtsUpload, Reply>)
    ensures
        ({
            let b64 = v@.text_or("audio_b64"@, ""@);
            if b64.len() == 0 {
                r matches Err(e) && e@ == ReplyView::error(400, "audio_b64 is required"@)
            } else {
                match crypto::b64_decoded(b64) {
                    Err(m) => r matches Err(e) && e@ == ReplyView::error(
                        400,
                        "invalid base64: "@ + m,
                    ),
                    Ok(audio) => r matches Ok(u) && u@ == uploaded(v@, audio, duration_sec@),
                }
            }
        }),
{
    let b64 = v.text_or("audio_b64", "");
    if b64.as_str().is_empty() {
        return Err(Reply::error(400, "audio_b64 is required"));
    }
    match crypto::b64_decode(b64.as_str()) {
        Err(m) => {
            let e = text::cat2("invalid base64: ", m.as_str());
            Err(Reply::error(400, e.as_str()))
        },
        Ok(audio) => Ok(
            TtsUpload {
                audio,
                msg_id: v.text_or("msg_id", ""),
                text: v.text_or("text", ""),
                original_text: v.text_or("original_text", ""),
                voice: v.text_or("voice", ""),
                emotion: v.text_or("emotion", ""),
                replying_to: v.text_or("replying_to", ""),
                duration_sec,
                voice_job_id: v.text_or("voice_job_id", ""),
            },
        ),
    }
}

/// An upload with the field of a form put into it; fields with other names are left out.
pub open spec fn with_form_field(
    u: TtsUploadView,
    name: Seq<char>,
    value: Seq<char>,
) -> TtsUploadView {
    if name == "msg_id"@ {
        TtsUploadView { msg_id: value, ..u }
    } else if name == "text"@ {
        TtsUploadView { text: value, ..u }
    } else if name == "voice"@ {
        TtsUploadView { voice: value, ..u }
    } else if name == "emotion"@ {
        TtsUploadView { emotion: value, ..u }
    } else if name == "replying_to"@ {
        TtsUploadView { replying_to: value, ..u }
    } else if name == "voice_job_id"@ {
        TtsUploadView { voice_job_id: value, ..u }
    } else {
        u
    }
}

/// Puts the field of a form into an upload; fields with other names are left out.
pub fn tts_form_field(u: TtsUpload, name: &str, value: String) -> (r: TtsUpload)
    ensures
        r@ == with_form_field(u@, name@, value@),
{
    let mut u = u;
    if text::same(name, "msg_id") {
        u.msg_id = value;
    } else if text::same(name, "text") {
        u.text = value;
    } else if text::same(name, "voice") {
        u.voice = value;
    } else if text::same(name, "emotion") {
        u.emotion = value;
    } else if text::same(name, "replying_to") {
        u.replying_to = value;
    } else if text::same(name, "voice_job_id") {
        u.voice_job_id = value;
    }
    u
}

/// Why an upload is not kept: it lacks audio or a message, or the message is kept
/// already.
pub open spec fn upload_answer(u: TtsUploadView, archived: bool) -> Option<ReplyView> {
    if u.audio.len() == 0 {
        Some(ReplyView::error(400, "audio is required"@))
    } else if u.msg_id.len() == 0 {
        Some(ReplyView::error(400, "msg_id is required"@))
    } else if archived {
        Some(
            ReplyView {
                status: 200,
                body: JsonView::object().put_text("status"@, "already_archived"@).put_text(
                    "msg_id"@,
                    u.msg_id,
                ),
            },
        )
    } else {
        None
    }
}

/// What is kept of an upload.
pub open spec fn kept_entry(u: TtsUploadView, timestamp: u64) -> TtsEntryView {
    TtsEntryView {
        msg_id: u.msg_id,
        text: u.text,
        original_text: u.original_text,
        voice: u.voice,
        emotion: u.emotion,
        replying_to: u.replying_to,
        timestamp,
        duration_sec: u.duration_sec,
        size_bytes: u.audio.len() as u64,
    }
}

/// What is kept of an upload, or the answer where nothing is. `archived` says
/// whether the message is kept already.
pub fn tts_upload(u: &TtsUpload, archived: bool, timestamp: u64) -> (r: Result<TtsEntry, Reply>)
    ensures
        match upload_answer(u@, archived) {
            Some(x) => r matches Err(e) && e@ == x,
            None => r matches Ok(t) && t@ == kept_entry(u@, timestamp),
        },
{
    if u.audio.len() == 0 {
        return Err(Reply::error(400, "audio is required"));
    }
    if u.msg_id.as_str().is_empty() {
        return Err(Reply::error(400, "msg_id is required"));
    }
    if archived {
        return Err(
            Reply {
                status: 200,
                body: Json::object().put_text("status", "already_archived").put_text(
                    "msg_id",
                    u.msg_id.as_str(),
                ),
            },
        );
    }
    Ok(
        TtsEntry {
            msg_id: u.msg_id.clone(),
            text: u.text.clone(),
            original_text: u.original_text.clone(),
            voice: u.voice.clone(),
            emotion: u.emotion.clone(),
            replying_to: u.replying_to.clone(),
            timestamp,
            duration_sec: u.duration_sec.clone(),
            size_bytes: u.audio.len() as u64,
        },
    )
}

/// The report and the answer after an upload was stored, or was not.
pub fn tts_stored(u: &TtsUpload, api_url: &str, version: &str, error: Option<&str>) -> (r: (
    Option<JobReport>,
    Reply,
))
    ensures
        match error {
            None => opt_report(r.0) == job_report(
                api_url@,
                u@.voice_job_id,
                "archived"@,
                version@,
                Some(JsonView::object().put_text("audio_output"@, "browser_archive"@)),
            ) && r.1@ == (ReplyView {
                status: 200,
                body: JsonView::object().put_text("status"@, "archived"@).put_text(
                    "msg_id"@,
                    u@.msg_id,
                ),
            }),
            Some(e) => opt_report(r.0) == job_report(
                api_url@,
                u@.voice_job_id,
                "failed"@,
                version@,
                Some(
                    JsonView::object().put_text("error"@, brief(e@)).put_text(
                        "error_stage"@,
                        "daemon_archive"@,
                    ),
                ),
            ) && r.1@ == ReplyView::error(500, e@),
        },
{
    match error {
        None => {
            let extra = Json::object().put_text("audio_output", "browser_archive");
            (
                report_voice_job(
                    api_url,
                    u.voice_job_id.as_str(),
                    "archived",
                    version,
                    Some(extra),
                ),
                Reply {
                    status: 200,
                    body: Json::object().put_text("status", "archived").put_text(
                        "msg_id",
                        u.msg_id.as_str(),
                    ),
                },
            )
        },
        Some(e) => {
            let shown = text::take(e, 200);
            let extra = Json::object().put_text("error", shown.as_str()).put_text(
                "error_stage",
                "daemon_archive",
            );
            (
                report_voice_job(api_url, u.voice_job_id.as_str(), "failed", version, Some(extra)),
                Reply::error(500, e),
            )
        },
    }
}

// ── Laws ────────────────────────────────────────────────────────────

/// What is added to an object stands in it, and what it does not name stays. Of two
/// members with one name the later counts.
pub proof fn law_extra_added(j: JsonView, e: Seq<(Seq<char>, JsonView)>, n: int, key: Seq<char>)
    requires
        0 <= n <= e.len(),
    ensures
        (forall|i: int| 0 <= i < n ==> (#[trigger] e[i]).0 != key) ==> merged(j, e, n).field(key)
            == j.field(key),
        forall|i: int|
            0 <= i < n && (#[trigger] e[i]).0 == key && (forall|k: int|
                i < k < n ==> (#[trigger] e[k]).0 != key) ==> merged(j, e, n).field(key) == Some(
                e[i].1,
            ),
    decreases n,
{
    if n > 0 {
        law_extra_added(j, e, n - 1, key);
        json::lemma_put_field(merged(j, e, n - 1), e[n - 1].0, e[n - 1].1, key);
        assert forall|i: int|
            0 <= i < n && (#[trigger] e[i]).0 == key && (forall|k: int|
                i < k < n ==> (#[trigger] e[k]).0 != key) implies merged(j, e, n).field(key)
            == Some(e[i].1) by {
            if i < n - 1 {
                assert(e[n - 1].0 != key);
            }
        }
    }
}

/// A report says of which job it is, the state that the job reached, and who reports.
/// Without a job or a server there is none.
pub proof fn law_job_reported(
    api_url: Seq<char>,
    job_id: Seq<char>,
    status: Seq<char>,
    version: Seq<char>,
)
    ensures
        job_id.len() > 0 && api_url.len() > 0 ==> {
            let r = job_report(api_url, job_id, status, version, None);
            &&& r is Some
            &&& !r.unwrap().new_job
            &&& r.unwrap().url == api_url + "/api/voice-jobs/"@ + job_id
            &&& r.unwrap().body.text("status"@) == Some(status)
            &&& r.unwrap().body.text("reporter_version"@) == Some("daemon:"@ + version)
        },
        job_id.len() == 0 || api_url.len() == 0 ==> job_report(
            api_url,
            job_id,
            status,
            version,
            None,
        ) is None,
{
    broadcast use json::lemma_put_field;
    broadcast use json::lemma_object_field;

    reveal_strlit("status");
    reveal_strlit("reporter_version");
    assert("status"@.len() == 6 && "reporter_version"@.len() == 16);
}

/// Speech is recognised by the local GPU where there is one, else in the cloud, else by
/// the server that needs no GPU, each with its own key.
pub proof fn law_recognisers_in_order(b: SttBackendsView)
    ensures
        b.local_url is Some ==> stt_begin(b) == (SttStepView::TryLocal {
            url: b.local_url.unwrap(),
            auth: "Bearer "@ + b.local_token,
        }),
        b.local_url is None && b.runpod_url is Some ==> stt_begin(b) == (SttStepView::TryRunpod {
            url: b.runpod_url.unwrap(),
            auth: b.runpod_key,
        }),
        b.local_url is None && b.runpod_url is None ==> stt_begin(b) == (SttStepView::TryWhisper {
            url: b.whisper_url,
        }),
        b.runpod_url is Some ==> stt_cloud(b) is TryRunpod,
        b.runpod_url is None ==> stt_cloud(b) == SttStepView::Fail(502),
{
}

/// An answer that reports an error, or is none, recognises nothing; another is what was
/// recognised.
pub proof fn law_recognised_without_error(
    code: u16,
    shown: Seq<char>,
    body: Seq<char>,
    j: JsonView,
)
    requires
        json::json_value(body) == Ok::<JsonView, Seq<char>>(j),
    ensures
        j.text("error"@) is None ==> stt_answer(
            AnswerView::Status { success: true, code, shown, body },
        ) == Some(j),
        j.text("error"@) is Some ==> stt_answer(
            AnswerView::Status { success: true, code, shown, body },
        ) is None,
        stt_answer(AnswerView::Status { success: false, code, shown, body }) is None,
{
}

/// Two texts that are alike are trusted; ones that differ are noise, and so is silence.
pub proof fn law_trust(medium: Seq<char>, wx: Seq<char>)
    ensures
        tier_of(Similarity::High, medium, wx) == Tier::High,
        tier_of(Similarity::Medium, medium, wx) == Tier::Medium,
        tier_of(Similarity::Low, medium, wx) == Tier::Noise,
        tier_of(Similarity::Unknown, medium, wx) == Tier::Noise <==> medium.len() == 0 && wx.len()
            == 0,
        tier_of(Similarity::Unknown, medium, wx) != Tier::High,
{
}

/// A browser is told what was recognised and whether the assistant heard it; noise it
/// did not hear.
pub proof fn law_recognition_told(tier: Tier, medium: Seq<char>, wx: Seq<char>, likeness: JsonView)
    ensures
        tier != Tier::Noise ==> {
            let j = stt_reply(tier, medium, wx, likeness);
            &&& j.text("transcription"@) == Some(medium)
            &&& j.text("whisperx"@) == Some(wx)
            &&& j.truth("injected"@) == Some(medium.len() > 0)
            &&& j.field("embedding_similarity"@) == Some(likeness)
            &&& j.is("confidence"@, "high"@) <==> tier == Tier::High
            &&& j.is("confidence"@, "medium"@) <==> tier == Tier::Medium
            &&& j.field("filtered"@) is None
        },
        tier == Tier::Noise ==> {
            let j = stt_reply(tier, medium, wx, likeness);
            &&& j.is("filtered"@, "noise"@)
            &&& j.text("medium_text"@) == Some(medium)
            &&& j.text("whisperx_text"@) == Some(wx)
            &&& j.field("embedding_similarity"@) == Some(likeness)
            &&& j.truth("injected"@) == Some(false)
        },
{
    broadcast use json::lemma_put_field;
    broadcast use json::lemma_object_field;

    reveal_strlit("transcription");
    reveal_strlit("whisperx");
    reveal_strlit("injected");
    reveal_strlit("embedding_similarity");
    reveal_strlit("confidence");
    reveal_strlit("filtered");
    reveal_strlit("medium_text");
    reveal_strlit("whisperx_text");
    reveal_strlit("high");
    reveal_strlit("medium");
    assert("transcription"@.len() == 13 && "whisperx"@.len() == 8 && "injected"@.len() == 8 && "embedding_similarity"@.len() == 20 && "confidence"@.len() == 10 && "filtered"@.len() == 8 && "medium_text"@.len() == 11 && "whisperx_text"@.len() == 13 && "high"@.len() == 4 && "medium"@.len() == 6);
    assert("transcription"@[0] != "whisperx_text"@[0]);
    assert("whisperx"@[0] != "injected"@[0]);
    assert("whisperx"@[0] != "filtered"@[0]);
    assert("injected"@[0] != "filtered"@[0]);
}

/// Whether a text stands in another.
pub open spec fn stands_in(part: Seq<char>, s: Seq<char>) -> bool {
    exists|a: Seq<char>, b: Seq<char>| s == #[trigger] speech::joined(a, part, b)
}

/// The assistant hears both texts that were recognised.
pub proof fn law_both_heard(
    medium: Seq<char>,
    wx: Seq<char>,
    medium_secs: Seq<char>,
    wx_secs: Seq<char>,
    likeness: Seq<char>,
)
    ensures
        stands_in(medium, injection_of(medium, wx, medium_secs, wx_secs, likeness)),
        stands_in(wx, injection_of(medium, wx, medium_secs, wx_secs, likeness)),
{
    let s = injection_of(medium, wx, medium_secs, wx_secs, likeness);
    let head = "[text model: "@ + medium_secs + "s] "@;
    if wx.len() == 0 {
        let tail = " [self-similarity: "@ + likeness + "]"@;
        assert(s =~= speech::joined(head, medium, tail));
        assert(s =~= speech::joined(s, wx, Seq::empty()));
    } else {
        let mid = " [voices model: "@ + wx_secs + "s] "@;
        let end = " [self-similarity: "@ + likeness + "]"@;
        if medium.len() == 0 {
            assert(s =~= speech::joined(head + "(empty)"@ + mid, wx, end));
            assert(s =~= speech::joined(s, medium, Seq::empty()));
        } else {
            assert(s =~= speech::joined(head + medium + mid, wx, end));
            assert(s =~= speech::joined(head, medium, mid + wx + end));
        }
    }
}

/// What the server without a GPU recognised is what the assistant hears and what the
/// browser is told, unless it is empty.
pub proof fn law_whisper_heard(
    url: Seq<char>,
    code: u16,
    shown: Seq<char>,
    body: Seq<char>,
    j: JsonView,
    said: Seq<char>,
)
    requires
        json::json_value(body) == Ok::<JsonView, Seq<char>>(j),
        j.text("text"@) == Some(said),
    ensures
        ({
            let h = whisper_heard(url, AnswerView::Status { success: true, code, shown, body });
            &&& h is Said
            &&& text::trim_spec(said).len() > 0 ==> h->notice == Some(text::trim_spec(said))
            &&& text::trim_spec(said).len() == 0 ==> h->notice is None
            &&& h->reply.text("transcription"@) == Some(text::trim_spec(said))
            &&& h->reply.truth("injected"@) == Some(text::trim_spec(said).len() > 0)
        }),
        whisper_heard(url, AnswerView::Status { success: false, code, shown, body })
            == HeardView::Refused(502),
{
    broadcast use json::lemma_put_field;
    broadcast use json::lemma_object_field;

    reveal_strlit("transcription");
    reveal_strlit("injected");
    assert("transcription"@.len() == 13 && "injected"@.len() == 8);
}

/// Words in capitals are put in lower case unless the settings say that they are not.
pub proof fn law_lowercase_setting(code: u16, shown: Seq<char>, body: Seq<char>, j: JsonView)
    requires
        json::json_value(body) == Ok::<JsonView, Seq<char>>(j),
    ensures
        lowercase_setting(AnswerView::Status { success: true, code, shown, body }) <==> j.truth(
            "force_lowercase"@,
        ) != Some(false),
        lowercase_setting(AnswerView::Status { success: false, code, shown, body }),
{
}

/// The agent's own voice is the one that its settings name.
pub proof fn law_voice_setting(
    code: u16,
    shown: Seq<char>,
    body: Seq<char>,
    j: JsonView,
    voice: Seq<char>,
)
    requires
        json::json_value(body) == Ok::<JsonView, Seq<char>>(j),
        j.text("voice"@) == Some(voice),
    ensures
        voice.len() > 0 ==> preferred_voice(
            AnswerView::Status { success: true, code, shown, body },
        ) == Some(voice),
        voice.len() == 0 ==> preferred_voice(
            AnswerView::Status { success: true, code, shown, body },
        ) is None,
        preferred_voice(AnswerView::Status { success: false, code, shown, body }) is None,
{
}

/// A request to speak is read as it was written.
pub proof fn law_request_read(
    body: JsonView,
    said: Seq<char>,
    msg_id: Seq<char>,
    voice: Seq<char>,
    emotion: Seq<char>,
    replying_to: Seq<char>,
)
    requires
        body.text("text"@) == Some(said),
        body.text("msg_id"@) == Some(msg_id),
        body.text("voice"@) == Some(voice),
        body.text("emotion"@) == Some(emotion),
        body.text("replying_to"@) == Some(replying_to),
    ensures
        requested(body) == (TtsRequestView { text: said, msg_id, voice, emotion, replying_to }),
{
}

/// No browser plays where none of them can, and only there.
pub proof fn law_nobody_plays(b: Browsers, n: int)
    requires
        0 <= n <= b.versions.listed().len(),
    ensures
        playing(b, n) == 0 <==> forall|i: int|
            0 <= i < n ==> !plays(b, (#[trigger] b.versions.listed()[i]).0),
        playing(b, n) <= n,
    decreases n,
{
    if n > 0 {
        law_nobody_plays(b, n - 1);
        let last = b.versions.listed()[n - 1];
        if forall|i: int| 0 <= i < n - 1 ==> !plays(b, (#[trigger] b.versions.listed()[i]).0) {
            assert(!plays(b, last.0) ==> forall|i: int|
                0 <= i < n ==> !plays(b, (#[trigger] b.versions.listed()[i]).0));
        }
    }
}

/// What is known of a browser is told under its own number.
pub proof fn law_profile(b: Browsers, silent: Map<u64, u64>, id: u64, version: Seq<char>)
    ensures
        ({
            let j = profile_json(b, silent, id, version);
            &&& j.uint("session_id"@) == Some(id)
            &&& j.text("version"@) == Some(version)
            &&& j.truth("audio_context"@) == Some(plays(b, id))
            &&& silent.dom().contains(id) ==> j.uint("last_seen_ms"@) == Some(silent[id])
            &&& b.user_agents@.dom().contains(id) ==> j.text("user_agent"@) == Some(
                b.user_agents@[id]@,
            )
            &&& b.volumes@.dom().contains(id) ==> j.uint("volume"@) == Some(b.volumes@[id] as u64)
            &&& !b.volumes@.dom().contains(id) ==> j.uint("volume"@) == Some(100u64)
            &&& b.sizes@.dom().contains(id) ==> j.uint("rows"@) == Some(b.sizes@[id].0 as u64)
                && j.uint("cols"@) == Some(b.sizes@[id].1 as u64)
        }),
{
    broadcast use json::lemma_put_field;
    broadcast use json::lemma_object_field;

    reveal_strlit("session_id");
    reveal_strlit("version");
    reveal_strlit("last_seen_ms");
    reveal_strlit("user_agent");
    reveal_strlit("volume");
    reveal_strlit("audio_context");
    reveal_strlit("rows");
    reveal_strlit("cols");
    assert("session_id"@.len() == 10 && "version"@.len() == 7 && "last_seen_ms"@.len() == 12 && "user_agent"@.len() == 10 && "volume"@.len() == 6 && "audio_context"@.len() == 13 && "rows"@.len() == 4 && "cols"@.len() == 4);
    assert("session_id"@[0] != "user_agent"@[0]);
    assert("rows"@[0] != "cols"@[0]);
}

/// The answer to a request to speak names the message and the browsers that can play it.
pub proof fn law_streaming_told(msg_id: Seq<char>, live: u64, browsers: Seq<JsonView>)
    ensures
        streaming(msg_id, live, browsers).is("status"@, "streaming"@),
        streaming(msg_id, live, browsers).text("msg_id"@) == Some(msg_id),
        streaming(msg_id, live, browsers).uint("clients"@) == Some(live),
        streaming(msg_id, live, browsers).field("browsers"@) == Some(JsonView::Array(browsers)),
{
    broadcast use json::lemma_put_field;
    broadcast use json::lemma_object_field;

    reveal_strlit("status");
    reveal_strlit("msg_id");
    reveal_strlit("clients");
    reveal_strlit("browsers");
    reveal_strlit("credits_remaining");
    assert("status"@.len() == 6 && "msg_id"@.len() == 6 && "clients"@.len() == 7 && "browsers"@.len() == 8 && "credits_remaining"@.len() == 17);
    assert("status"@[0] != "msg_id"@[0]);
}

/// What is shown of a long text is its beginning.
pub proof fn law_shown_beginning(s: Seq<char>)
    ensures
        preview(s).len() <= 80 && preview(s) == s.take(preview(s).len() as int),
        s.len() <= 80 ==> preview(s) == s,
        brief(s).len() <= 200 && brief(s) == s.take(brief(s).len() as int),
        s.len() <= 200 ==> brief(s) == s,
{
    assert(s.take(s.len() as int) =~= s);
}

/// The line about a report names its message and its state.
pub proof fn law_report_named(body: JsonView, msg_id: Seq<char>, status: Seq<char>)
    requires
        body.text("msg_id"@) == Some(msg_id),
        body.text("status"@) == Some(status),
    ensures
        ("[voice-report] msg="@ + msg_id + " status="@ + status).is_prefix_of(report_line(body)),
        body.text("error"@) is Some ==> stands_in(
            " error="@ + body.text("error"@).unwrap(),
            report_line(body),
        ),
{
    let session = report_session(body);
    let head = "[voice-report] msg="@ + msg_id + " status="@ + status;
    let chunks = match (body.uint("chunks_played"@), body.uint("chunks_scheduled"@)) {
        (Some(p), Some(s)) => " chunks="@ + text::decimal(p as nat) + "/"@ + text::decimal(
            s as nat,
        ),
        _ => ""@,
    };
    let stage = piece(" stage="@, body.text("stage"@));
    let error = piece(" error="@, body.text("error"@));
    let tail = if session.len() > 0 {
        " session="@ + session
    } else {
        ""@
    };
    let vol = match body.uint("volume"@) {
        Some(v) => " vol="@ + text::decimal(v as nat) + "%"@,
        None => ""@,
    };
    assert(report_line(body) == head + chunks + stage + error + tail + vol);
    lemma_pieces(head, chunks, stage, error, tail, vol);
}

/// The pieces of a line stand in it.
proof fn lemma_pieces(
    a: Seq<char>,
    b: Seq<char>,
    c: Seq<char>,
    d: Seq<char>,
    e: Seq<char>,
    f: Seq<char>,
)
    ensures
        a.is_prefix_of(a + b + c + d + e + f),
        stands_in(d, a + b + c + d + e + f),
{
    let s = a + b + c + d + e + f;
    assert(s.take(a.len() as int) =~= a);
    assert(s =~= speech::joined(a + b + c, d, e + f));
}

/// Speech is kept once: without audio or a message it is refused, and what is kept
/// already is not kept again.
pub proof fn law_kept_once(u: TtsUploadView)
    requires
        u.audio.len() > 0,
        u.msg_id.len() > 0,
    ensures
        upload_answer(u, false) is None,
        upload_answer(u, true) matches Some(r) && r.status == 200 && r.body.text("msg_id"@) == Some(
            u.msg_id,
        ),
        upload_answer((TtsUploadView { audio: Seq::empty(), ..u }), false) matches Some(r)
            && r.status == 400,
        upload_answer((TtsUploadView { msg_id: Seq::empty(), ..u }), false) matches Some(r)
            && r.status == 400,
{
    broadcast use json::lemma_put_field;
    broadcast use json::lemma_object_field;

    reveal_strlit("status");
    reveal_strlit("msg_id");
    assert("status"@.len() == 6 && "msg_id"@.len() == 6);
    assert("status"@[0] != "msg_id"@[0]);
}

/// What is asked to be spoken reaches a browser: the text that is spoken, the text as it
/// was written, and how.
pub proof fn law_speech_reaches_browsers(t: TtsRequestView, cleaned: Seq<char>, data: Seq<char>)
    ensures
        ({
            let m = terminal::event_emission(stream_event(t, cleaned, data), false, Seq::empty());
            let j = terminal::carried(m);
            &&& m is Critical
            &&& j.text("msg_id"@) == Some(t.msg_id)
            &&& j.text("text"@) == Some(cleaned)
            &&& j.text("original_text"@) == Some(t.text)
            &&& j.text("voice"@) == Some(t.voice)
            &&& j.text("emotion"@) == Some(t.emotion)
            &&& j.text("replying_to"@) == Some(t.replying_to)
            &&& j.text("conditionals_b64"@) == Some(data)
        }),
{
    terminal::law_events_told(stream_event(t, cleaned, data), Seq::empty());
}

/// A voice that is asked for is used; else the agent's own; and there is always one.
pub proof fn law_voice_used(voice: Seq<char>, own: Seq<char>, preferred: Option<Seq<char>>)
    ensures
        voice.len() > 0 && voice != "default"@ ==> voice_used(voice, preferred) == voice,
        voice_used("default"@, Some(own)) == own,
        voice_used(Seq::empty(), Some(own)) == own,
        voice_used("default"@, None).len() > 0,
{
    reveal_strlit("arabella");
}

/// A browser is given thirty seconds of silence, and its work is not done twice.
pub proof fn law_watch(silent: Option<u64>, ms: u64)
    ensures
        watch_next(true, silent) == Watch::Finished,
        ms < 30_000 ==> watch_next(false, Some(ms)) == Watch::Wait,
        ms >= 30_000 ==> watch_next(false, Some(ms)) == Watch::Generate,
        watch_next(false, None) == Watch::Generate,
{
}

/// The fields of a form come out under their names, in whatever order they came.
pub proof fn law_form_read(u: TtsUploadView, a: Seq<char>, x: Seq<char>, b: Seq<char>, y: Seq<char>)
    requires
        a != b,
    ensures
        with_form_field(with_form_field(u, a, x), b, y) == with_form_field(
            with_form_field(u, b, y),
            a,
            x,
        ),
        with_form_field(u, "msg_id"@, x) == (TtsUploadView { msg_id: x, ..u }),
        with_form_field(u, "text"@, x) == (TtsUploadView { text: x, ..u }),
        with_form_field(u, "voice"@, x) == (TtsUploadView { voice: x, ..u }),
        with_form_field(u, "emotion"@, x) == (TtsUploadView { emotion: x, ..u }),
        with_form_field(u, "replying_to"@, x) == (TtsUploadView { replying_to: x, ..u }),
        with_form_field(u, "voice_job_id"@, x) == (TtsUploadView { voice_job_id: x, ..u }),
{
    reveal_strlit("msg_id");
    reveal_strlit("text");
    reveal_strlit("voice");
    reveal_strlit("emotion");
    reveal_strlit("replying_to");
    reveal_strlit("voice_job_id");
    assert("msg_id"@.len() == 6 && "text"@.len() == 4 && "voice"@.len() == 5 && "emotion"@.len() == 7 && "replying_to"@.len() == 11 && "voice_job_id"@.len() == 12);
}

/// Speech that a browser sends is kept as it was sent.
pub proof fn law_upload_kept(
    v: JsonView,
    audio: Seq<u8>,
    duration: Seq<char>,
    timestamp: u64,
    msg_id: Seq<char>,
    said: Seq<char>,
    original: Seq<char>,
    voice: Seq<char>,
)
    requires
        v.text("msg_id"@) == Some(msg_id),
        v.text("text"@) == Some(said),
        v.text("original_text"@) == Some(original),
        v.text("voice"@) == Some(voice),
        audio.len() <= u64::MAX,
    ensures
        ({
            let e = kept_entry(uploaded(v, audio, duration), timestamp);
            &&& e.msg_id == msg_id
            &&& e.text == said
            &&& e.original_text == original
            &&& e.voice == voice
            &&& e.timestamp == timestamp
            &&& e.duration_sec == duration
            &&& e.size_bytes == audio.len()
        }),
{
}

/// A message counts as played where the browser says that it was, and not where it
/// failed.
pub proof fn law_played(body: JsonView, msg_id: Seq<char>, status: Seq<char>)
    requires
        body.text("msg_id"@) == Some(msg_id),
        body.text("status"@) == Some(status),
    ensures
        status == "played"@ || status == "finished"@ || status == "delivered"@ || status
            == "complete"@ ==> played_message(body) == Some(msg_id),
        status == "failed"@ ==> played_message(body) is None,
{
    reveal_strlit("played");
    reveal_strlit("finished");
    reveal_strlit("delivered");
    reveal_strlit("complete");
    reveal_strlit("failed");
    assert("played"@.len() == 6 && "finished"@.len() == 8 && "delivered"@.len() == 9 && "complete"@.len() == 8 && "failed"@.len() == 6);
    assert("played"@[0] != "failed"@[0]);
    assert("finished"@[0] != "complete"@[0]);
}

/// Audio that a GPU made reaches the browsers whole, under its message.
pub proof fn law_audio_passed_on(
    body: JsonView,
    audio: Seq<char>,
    msg_id: Seq<char>,
    d: Seq<char>,
    g: Seq<char>,
)
    requires
        body.text("audio_b64"@) == Some(audio),
        body.text("msg_id"@) == Some(msg_id),
    ensures
        body.text("error"@) is None ==> (audio_event(body, d, g) matches Some(e) && e
            is TtsAudioData && e->TtsAudioData_audio_b64 == audio && e->TtsAudioData_msg_id
            == msg_id && e->TtsAudioData_duration_sec == d && e->TtsAudioData_generation_sec == g),
        body.text("error"@) is None && body.uint("chunk"@) is Some && body.uint("total"@) is Some
            ==> (audio_event(body, d, g) matches Some(e) && e->TtsAudioData_chunk == body.uint(
            "chunk"@,
        ).unwrap() && e->TtsAudioData_total == body.uint("total"@).unwrap()),
        body.text("error"@) is Some ==> audio_event(body, d, g) is None,
{
}

} // verus!
