//! The protocol of the speech worker: where each request's audio goes, and
//! what the worker's status lines mean.

use vstd::prelude::*;
use crate::text::{chars_of, string_of, extend_chars, decimal, decimal_chars};

verus! {

/// Where the audio of request `id` is written.
pub open spec fn output_path(id: u64) -> Seq<char> {
    "/tmp/hollowreach_tts/tts_"@ + decimal(id as nat) + ".wav"@
}

/// The audio path of request `id`.
pub fn tts_output_path(id: u64) -> (r: String)
    ensures
        r@ == output_path(id),
{
    let mut v = chars_of("/tmp/hollowreach_tts/tts_");
    extend_chars(&mut v, decimal_chars(id).as_slice());
    extend_chars(&mut v, chars_of(".wav").as_slice());
    string_of(v.as_slice())
}

/// A request as the worker receives it.
#[derive(Debug)]
pub struct TtsJob {
    pub text: String,
    pub voice_profile: String,
    pub output_path: String,
    pub npc_entity: u64,
}

/// Numbers the speech requests; each gets its own audio file.
#[derive(Debug)]
pub struct TtsRequestIds {
    pub next_id: u64,
}

impl TtsRequestIds {
    /// No request made yet.
    pub fn new() -> (r: TtsRequestIds)
        ensures
            r.next_id == 0,
    {
        TtsRequestIds { next_id: 0 }
    }

    /// The job for a new request: its audio goes to the next numbered file.
    pub fn request(&mut self, text: String, voice_profile: String, npc_entity: u64) -> (job: TtsJob)
        requires
            old(self).next_id < u64::MAX,
        ensures
            final(self).next_id == old(self).next_id + 1,
            job.output_path@ == output_path(old(self).next_id),
            job.text == text,
            job.voice_profile == voice_profile,
            job.npc_entity == npc_entity,
    {
        let output_path = tts_output_path(self.next_id);
        self.next_id = self.next_id + 1;
        TtsJob { text, voice_profile, output_path, npc_entity }
    }
}

/// A status line of the worker (its numeric progress is read separately).
#[derive(Debug)]
pub struct WorkerResponse {
    pub status: String,
    pub path: Option<String>,
    pub error: Option<String>,
    pub device: Option<String>,
    pub message: Option<String>,
}

/// What a status line means while the worker starts.
#[derive(Debug)]
pub enum StartupStep {
    /// Still loading, with the message to show.
    Loading { message: String },
    /// Loaded: requests may be sent.
    Ready,
    /// The worker failed to start.
    Failed,
    /// Some other line: keep waiting.
    Waiting,
}

/// The meaning of a status line during start-up.
pub open spec fn startup_step_of(status: Seq<char>, message: Option<String>) -> StartupStepView {
    if status == "loading"@ {
        StartupStepView::Loading(match message {
            Some(m) => m@,
            None => "Loading..."@,
        })
    } else if status == "ready"@ {
        StartupStepView::Ready
    } else if status == "error"@ {
        StartupStepView::Failed
    } else {
        StartupStepView::Waiting
    }
}

pub enum StartupStepView {
    Loading(Seq<char>),
    Ready,
    Failed,
    Waiting,
}

impl View for StartupStep {
    type V = StartupStepView;

    open spec fn view(&self) -> StartupStepView {
        match self {
            StartupStep::Loading { message } => StartupStepView::Loading(message@),
            StartupStep::Ready => StartupStepView::Ready,
            StartupStep::Failed => StartupStepView::Failed,
            StartupStep::Waiting => StartupStepView::Waiting,
        }
    }
}

/// What a status line means during start-up.
pub fn startup_step(resp: &WorkerResponse) -> (r: StartupStep)
    ensures
        r@ == startup_step_of(resp.status@, resp.message),
{
    let status = resp.status.as_str();
    if status.eq("loading") {
        proof {
            reveal_strlit("loading");
        }
        let message = match &resp.message {
            Some(m) => m.clone(),
            None => "Loading...".to_owned(),
        };
        StartupStep::Loading { message }
    } else if status.eq("ready") {
        StartupStep::Ready
    } else if status.eq("error") {
        StartupStep::Failed
    } else {
        StartupStep::Waiting
    }
}

/// What the answer to a request means.
#[derive(Debug)]
pub enum JobOutcome {
    /// The audio is ready at this path.
    Delivered(String),
    /// The worker could not generate the audio.
    GenerationError(Option<String>),
    /// Nothing to do.
    Ignored,
}

/// What the worker's answer to a request means.
pub fn job_outcome(resp: &WorkerResponse) -> (r: JobOutcome)
    ensures
        resp.status@ == "done"@ ==> match resp.path {
            Some(p) => r matches JobOutcome::Delivered(q) && q@ == p@,
            None => r is Ignored,
        },
        resp.status@ == "error"@ ==> (r matches JobOutcome::GenerationError(e) && e == resp.error),
        resp.status@ != "done"@ && resp.status@ != "error"@ ==> r is Ignored,
{
    let status = resp.status.as_str();
    proof {
        reveal_strlit("done");
        reveal_strlit("error");
        assert("done"@.len() != "error"@.len());
    }
    if status.eq("done") {
        match &resp.path {
            Some(p) => JobOutcome::Delivered(p.clone()),
            None => JobOutcome::Ignored,
        }
    } else if status.eq("error") {
        let e = crate::interactions::copy_opt(&resp.error);
        assert(e == resp.error);
        JobOutcome::GenerationError(e)
    } else {
        JobOutcome::Ignored
    }
}

/// Request numbers only grow, so two requests never share an audio file.
pub proof fn lemma_distinct_requests_distinct_files(a: u64, b: u64)
    requires
        a != b,
    ensures
        output_path(a) != output_path(b),
{
    lemma_decimal_injective(a as nat, b as nat);
    let pre = "/tmp/hollowreach_tts/tts_"@;
    let suf = ".wav"@;
    if output_path(a) == output_path(b) {
        let pa = pre + decimal(a as nat) + suf;
        let pb = pre + decimal(b as nat) + suf;
        assert(pa.len() == pb.len());
        assert(decimal(a as nat) =~= pa.subrange(pre.len() as int, pa.len() - suf.len()));
        assert(decimal(b as nat) =~= pb.subrange(pre.len() as int, pb.len() - suf.len()));
    }
}

proof fn lemma_decimal_injective(a: nat, b: nat)
    requires
        a != b,
    ensures
        decimal(a) != decimal(b),
    decreases a + b,
{
    if a < 10 && b < 10 {
        assert(decimal(a)[0] != decimal(b)[0]);
    } else if a < 10 || b < 10 {
        lemma_decimal_long(if a < 10 { b } else { a });
    } else if a / 10 != b / 10 {
        lemma_decimal_injective(a / 10, b / 10);
        if decimal(a) == decimal(b) {
            assert(decimal(a).drop_last() =~= decimal(a / 10));
            assert(decimal(b).drop_last() =~= decimal(b / 10));
        }
    } else {
        assert(a % 10 != b % 10);
        assert(decimal(a).last() != decimal(b).last());
    }
}

proof fn lemma_decimal_long(n: nat)
    requires
        n >= 10,
    ensures
        decimal(n).len() >= 2,
    decreases n,
{
    if n / 10 >= 10 {
        lemma_decimal_long(n / 10);
    } else {
        assert(decimal(n / 10).len() == 1);
    }
    assert(decimal(n).len() == decimal(n / 10).len() + 1);
}

} // verus!
