//! The WaveSpeed client's decisions: where a job is submitted, where its
//! result is polled, what a poll answer means, and how generated clips and
//! fallback music are named. The HTTP exchanges themselves happen in the
//! application.
use vstd::prelude::*;
use crate::text::{owned, push_str, padded, str_eq};
use crate::caption::{push_pad};

verus! {

pub open spec fn base_url() -> Seq<char> {
    "https://api.wavespeed.ai"@
}

/// What a WaveSpeed answer says of a job.
#[derive(Debug, Clone)]
pub struct WavespeedTask {
    pub id: Option<String>,
    pub get_url: Option<String>,
    pub status: Option<String>,
    pub outputs: Vec<String>,
    pub error: Option<String>,
}

/// A client for one API key.
pub struct WavespeedClient {
    api_key: String,
}

impl WavespeedClient {
    pub closed spec fn key(&self) -> Seq<char> {
        self.api_key@
    }

    pub fn new(api_key: String) -> (r: Self)
        ensures
            r.key() == api_key@,
    {
        WavespeedClient { api_key }
    }

    /// The `Authorization` header value: `Bearer <key>`.
    pub fn authorization(&self) -> (r: String)
        ensures
            r@ == "Bearer "@ + self.key(),
    {
        let mut out = owned("Bearer ");
        push_str(&mut out, self.api_key.as_str());
        out
    }
}

/// The endpoint a job for `model` is submitted to.
pub open spec fn submit_endpoint(model: Seq<char>) -> Seq<char> {
    base_url() + "/api/v3/"@ + model
}

pub fn submit_url(model: &str) -> (r: String)
    ensures
        r@ == submit_endpoint(model@),
{
    let mut out = owned("https://api.wavespeed.ai/api/v3/");
    push_str(&mut out, model);
    proof {
        reveal_strlit("https://api.wavespeed.ai/api/v3/");
        reveal_strlit("https://api.wavespeed.ai");
        reveal_strlit("/api/v3/");
    }
    out
}

/// Where a submitted job's result is polled: the URL the answer gives, else
/// the result URL of its id. An answer with neither is refused.
pub open spec fn result_location(get_url: Option<Seq<char>>, id: Option<Seq<char>>) -> Option<Seq<char>> {
    match get_url {
        Some(u) => Some(u),
        None => match id {
            Some(i) => Some(base_url() + "/api/v3/"@ + i + "/result"@),
            None => None,
        },
    }
}

pub open spec fn opt_view(o: Option<String>) -> Option<Seq<char>> {
    match o { Some(s) => Some(s@), None => None }
}

/// The result URL of a submission answer, or `None` when the answer names no
/// prediction.
pub fn result_url(task: &WavespeedTask) -> (r: Option<String>)
    ensures
        opt_view(r) == result_location(opt_view(task.get_url), opt_view(task.id)),
{
    match &task.get_url {
        Some(u) => Some(u.clone()),
        None => match &task.id {
            Some(i) => {
                let mut out = owned("https://api.wavespeed.ai/api/v3/");
                push_str(&mut out, i.as_str());
                push_str(&mut out, "/result");
                proof {
                    reveal_strlit("https://api.wavespeed.ai/api/v3/");
                    reveal_strlit("https://api.wavespeed.ai");
                    reveal_strlit("/api/v3/");
                    assert(out@ =~= base_url() + "/api/v3/"@ + i@ + "/result"@);
                }
                Some(out)
            },
            None => None,
        },
    }
}

/// A text-to-video duration clamped to 3..=10 seconds.
pub open spec fn clamped_duration(d: int) -> int {
    if d < 3 { 3 } else if d > 10 { 10 } else { d }
}

pub fn video_duration(duration_sec: i32) -> (r: i32)
    ensures
        r == clamped_duration(duration_sec as int),
{
    if duration_sec < 3 { 3 } else if duration_sec > 10 { 10 } else { duration_sec }
}

/// What one poll of a prediction tells the caller to do.
pub enum PollStep {
    /// Completed with these output URLs.
    Done(Vec<String>),
    /// Completed without outputs.
    NoOutputs,
    /// Failed, cancelled or timed out, with the job's error text.
    Failed(String),
    /// A status this client does not know.
    Unexpected(String),
    /// Still queued or running: poll again.
    Wait,
}

/// The step a poll answer calls for.
pub open spec fn poll_step_of(status: Option<Seq<char>>, outputs: Seq<Seq<char>>, error: Option<Seq<char>>) -> (int, Seq<Seq<char>>, Seq<char>) {
    match status {
        Some(s) => if s == "completed"@ {
            if outputs.len() == 0 { (1, seq![], seq![]) } else { (0, outputs, seq![]) }
        } else if s == "failed"@ || s == "cancelled"@ || s == "timeout"@ {
            (2, seq![], match error { Some(e) => e, None => "unknown error"@ })
        } else if s != "created"@ && s != "processing"@ {
            (3, seq![], s)
        } else {
            (4, seq![], seq![])
        },
        None => (4, seq![], seq![]),
    }
}

pub open spec fn poll_step_view(p: PollStep) -> (int, Seq<Seq<char>>, Seq<char>) {
    match p {
        PollStep::Done(v) => (0, v@.map_values(|s: String| s@), seq![]),
        PollStep::NoOutputs => (1, seq![], seq![]),
        PollStep::Failed(e) => (2, seq![], e@),
        PollStep::Unexpected(s) => (3, seq![], s@),
        PollStep::Wait => (4, seq![], seq![]),
    }
}

pub fn poll_step(task: &WavespeedTask) -> (r: PollStep)
    ensures
        poll_step_view(r) == poll_step_of(opt_view(task.status), task.outputs@.map_values(|s: String| s@), opt_view(task.error)),
{
    proof {
        reveal_strlit("unknown error");
    }
    match &task.status {
        Some(s) => {
            let st = s.as_str();
            if str_eq(st, "completed") {
                if task.outputs.len() == 0 {
                    PollStep::NoOutputs
                } else {
                    let outs = clone_strings(&task.outputs);
                    PollStep::Done(outs)
                }
            } else if str_eq(st, "failed") || str_eq(st, "cancelled") || str_eq(st, "timeout") {
                match &task.error {
                    Some(e) => PollStep::Failed(e.clone()),
                    None => PollStep::Failed(owned("unknown error")),
                }
            } else if !str_eq(st, "created") && !str_eq(st, "processing") {
                PollStep::Unexpected(s.clone())
            } else {
                PollStep::Wait
            }
        },
        None => PollStep::Wait,
    }
}

fn clone_strings(v: &Vec<String>) -> (r: Vec<String>)
    ensures
        r@.map_values(|s: String| s@) == v@.map_values(|s: String| s@),
{
    let mut out: Vec<String> = Vec::new();
    let mut i: usize = 0;
    while i < v.len()
        invariant
            i <= v.len(),
            out.len() == i,
            forall|k: int| 0 <= k < i ==> #[trigger] out@[k]@ == v@[k]@,
        decreases v.len() - i,
    {
        out.push(v[i].clone());
        i += 1;
    }
    assert(out@.map_values(|s: String| s@) =~= v@.map_values(|s: String| s@));
    out
}

/// The prompt for background music on a topic.
pub open spec fn music_prompt_text(topic: Seq<char>) -> Seq<char> {
    "instrumental cinematic background music inspired by "@ + topic
}

pub fn music_prompt(topic: &str) -> (r: String)
    ensures
        r@ == music_prompt_text(topic@),
{
    let mut out = owned("instrumental cinematic background music inspired by ");
    push_str(&mut out, topic);
    out
}

/// The fallback tracks used when music generation is unavailable.
pub open spec fn fallback_tracks() -> Seq<Seq<char>> {
    seq![
        "https://www.soundhelix.com/examples/mp3/SoundHelix-Song-1.mp3"@,
        "https://www.soundhelix.com/examples/mp3/SoundHelix-Song-2.mp3"@,
        "https://www.soundhelix.com/examples/mp3/SoundHelix-Song-3.mp3"@,
        "https://www.soundhelix.com/examples/mp3/SoundHelix-Song-4.mp3"@,
        "https://www.soundhelix.com/examples/mp3/SoundHelix-Song-5.mp3"@,
    ]
}

/// The fallback track picked by the sub-second nanoseconds of the clock.
pub fn fallback_track(nanos: u32) -> (r: String)
    ensures
        r@ == fallback_tracks()[(nanos % 5) as int],
{
    let k = nanos % 5;
    if k == 0 {
        owned("https://www.soundhelix.com/examples/mp3/SoundHelix-Song-1.mp3")
    } else if k == 1 {
        owned("https://www.soundhelix.com/examples/mp3/SoundHelix-Song-2.mp3")
    } else if k == 2 {
        owned("https://www.soundhelix.com/examples/mp3/SoundHelix-Song-3.mp3")
    } else if k == 3 {
        owned("https://www.soundhelix.com/examples/mp3/SoundHelix-Song-4.mp3")
    } else {
        owned("https://www.soundhelix.com/examples/mp3/SoundHelix-Song-5.mp3")
    }
}

/// The file of the `idx`-th (from 0) generated clip: `ai_clip_NNN.mp4`,
/// numbered from 1.
pub open spec fn clip_file_name(idx: nat) -> Seq<char> {
    "ai_clip_"@ + padded(idx + 1, 3) + ".mp4"@
}

pub fn ai_clip_file(idx: u32) -> (r: String)
    ensures
        r@ == clip_file_name(idx as nat),
{
    let mut out = owned("ai_clip_");
    push_pad(&mut out, idx as u64 + 1, 3);
    push_str(&mut out, ".mp4");
    out
}

/// How many clips are generated at once: the setting when it parses, else 3.
pub open spec fn concurrency_of(setting: Option<Seq<char>>) -> nat {
    match setting {
        Some(v) => match crate::text::parse_unsigned(v, usize::MAX as nat) { Some(n) => n, None => 3 },
        None => 3,
    }
}

pub fn clip_concurrency(setting: Option<&str>) -> (r: usize)
    ensures
        r as nat == concurrency_of(match setting { Some(v) => Some(v@), None => None }),
{
    match setting {
        Some(v) => match crate::text::parse_unsigned_str(v, usize::MAX as u64) {
            Some(n) => n as usize,
            None => 3,
        },
        None => 3,
    }
}

/// Every text-to-video request asks for three to ten seconds.
pub proof fn lemma_duration_in_range(d: int)
    ensures
        3 <= clamped_duration(d) <= 10,
        3 <= d <= 10 ==> clamped_duration(d) == d,
{
}

} // verus!
