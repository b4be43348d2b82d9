//! The MCP (Model Context Protocol) endpoint: which method and tool a request
//! names, and how each tool's arguments become a job, a subtitle burn, a
//! publication or a prompt.
use vstd::prelude::*;
use crate::text::{chars_of, string_of, owned, push_str, str_eq, str_trim, trim, contains, occurs_at, str_replace, replace_all, words, split_words, padded, decimal, split_char, split_on, uppercase, to_upper};
use crate::caption::{push_nat, push_pad, hex_to_ass, ass_color, hex_sliceable, int_decimal, push_int};
use crate::render::{views, push_arg, filter_path, filter_path_string};
use crate::studio::{or_default, nonempty_or, value_or, nonempty_value_or};
use crate::tasks::{video_source_of, video_source_type};
use crate::codec::{parse_uuid, uuid_value};

verus! {

// ---------------------------------------------------------------------------
// Methods and tools
// ---------------------------------------------------------------------------

#[derive(PartialEq, Eq, Structural, Clone, Copy)]
pub enum McpMethod {
    Initialize,
    Initialized,
    ToolsList,
    ToolsCall,
    Unknown,
}

pub open spec fn method_of(m: Seq<char>) -> McpMethod {
    if m == "initialize"@ {
        McpMethod::Initialize
    } else if m == "notifications/initialized"@ {
        McpMethod::Initialized
    } else if m == "tools/list"@ {
        McpMethod::ToolsList
    } else if m == "tools/call"@ {
        McpMethod::ToolsCall
    } else {
        McpMethod::Unknown
    }
}

pub fn mcp_method(m: &str) -> (r: McpMethod)
    ensures
        r == method_of(m@),
{
    if str_eq(m, "initialize") {
        McpMethod::Initialize
    } else if str_eq(m, "notifications/initialized") {
        McpMethod::Initialized
    } else if str_eq(m, "tools/list") {
        McpMethod::ToolsList
    } else if str_eq(m, "tools/call") {
        McpMethod::ToolsCall
    } else {
        McpMethod::Unknown
    }
}

#[derive(PartialEq, Eq, Structural, Clone, Copy)]
pub enum McpTool {
    ProcessVideo,
    GetJobStatus,
    ListClips,
    GetQuota,
    AddSubtitles,
    PublishClip,
    CreateShortsVideo,
    RunAiEdit,
    CancelTask,
    ResumeTask,
    TrimClip,
    DeleteClip,
    GenerateTitles,
    GenerateDescription,
    GenerateThumbnail,
    Unknown,
}

pub open spec fn tool_of(n: Seq<char>) -> McpTool {
    if n == "process_video"@ { McpTool::ProcessVideo }
    else if n == "get_job_status"@ { McpTool::GetJobStatus }
    else if n == "list_clips"@ { McpTool::ListClips }
    else if n == "get_quota"@ { McpTool::GetQuota }
    else if n == "add_subtitles"@ { McpTool::AddSubtitles }
    else if n == "publish_clip"@ { McpTool::PublishClip }
    else if n == "create_shorts_video"@ { McpTool::CreateShortsVideo }
    else if n == "run_ai_edit"@ { McpTool::RunAiEdit }
    else if n == "cancel_task"@ { McpTool::CancelTask }
    else if n == "resume_task"@ { McpTool::ResumeTask }
    else if n == "trim_clip"@ { McpTool::TrimClip }
    else if n == "delete_clip"@ { McpTool::DeleteClip }
    else if n == "generate_titles"@ { McpTool::GenerateTitles }
    else if n == "generate_description"@ { McpTool::GenerateDescription }
    else if n == "generate_thumbnail"@ { McpTool::GenerateThumbnail }
    else { McpTool::Unknown }
}

pub fn mcp_tool(n: &str) -> (r: McpTool)
    ensures
        r == tool_of(n@),
{
    if str_eq(n, "process_video") { McpTool::ProcessVideo }
    else if str_eq(n, "get_job_status") { McpTool::GetJobStatus }
    else if str_eq(n, "list_clips") { McpTool::ListClips }
    else if str_eq(n, "get_quota") { McpTool::GetQuota }
    else if str_eq(n, "add_subtitles") { McpTool::AddSubtitles }
    else if str_eq(n, "publish_clip") { McpTool::PublishClip }
    else if str_eq(n, "create_shorts_video") { McpTool::CreateShortsVideo }
    else if str_eq(n, "run_ai_edit") { McpTool::RunAiEdit }
    else if str_eq(n, "cancel_task") { McpTool::CancelTask }
    else if str_eq(n, "resume_task") { McpTool::ResumeTask }
    else if str_eq(n, "trim_clip") { McpTool::TrimClip }
    else if str_eq(n, "delete_clip") { McpTool::DeleteClip }
    else if str_eq(n, "generate_titles") { McpTool::GenerateTitles }
    else if str_eq(n, "generate_description") { McpTool::GenerateDescription }
    else if str_eq(n, "generate_thumbnail") { McpTool::GenerateThumbnail }
    else { McpTool::Unknown }
}

/// The tools that act on a job and refuse a call without a `job_id`
/// (`run_ai_edit` checks its own arguments).
pub open spec fn job_tool(t: McpTool) -> bool {
    t is GetJobStatus || t is ListClips || t is AddSubtitles || t is PublishClip || t is CancelTask
        || t is ResumeTask || t is TrimClip || t is DeleteClip
}

pub fn needs_job(t: McpTool) -> (r: bool)
    ensures
        r == job_tool(t),
{
    match t {
        McpTool::GetJobStatus | McpTool::ListClips | McpTool::AddSubtitles | McpTool::PublishClip
        | McpTool::CancelTask | McpTool::ResumeTask | McpTool::TrimClip | McpTool::DeleteClip => true,
        _ => false,
    }
}

/// The text of a tool error.
pub open spec fn tool_error_text(message: Seq<char>) -> Seq<char> {
    "Error: "@ + message
}

pub fn tool_error_message(message: &str) -> (r: String)
    ensures
        r@ == tool_error_text(message@),
{
    let mut out = owned("Error: ");
    push_str(&mut out, message);
    out
}

/// A message naming something, like `Unknown tool: x` or `Method not found: x`.
pub fn labelled(prefix: &str, name: &str) -> (r: String)
    ensures
        r@ == prefix@ + name@,
{
    let mut out = owned(prefix);
    push_str(&mut out, name);
    out
}

// ---------------------------------------------------------------------------
// process_video
// ---------------------------------------------------------------------------

pub open spec fn clamp(v: int, lo: int, hi: int) -> int {
    if v < lo { lo } else if v > hi { hi } else { v }
}

fn clamp_i64(v: i64, lo: i64, hi: i64) -> (r: i64)
    requires
        lo <= hi,
    ensures
        r == clamp(v as int, lo as int, hi as int),
{
    if v < lo { lo } else if v > hi { hi } else { v }
}

/// A video job asked for over MCP.
pub struct VideoJob {
    pub url: String,
    pub source_type: String,
    pub num_clips: i32,
    pub aspect_ratio: String,
    pub add_subtitles: bool,
}

/// The aspect ratios an MCP job may ask for; anything else is `9:16`.
pub open spec fn job_aspect(a: Seq<char>) -> Seq<char> {
    if a == "1:1"@ || a == "16:9"@ || a == "original"@ { a } else { "9:16"@ }
}

/// `process_video`: a URL is required; 1–30 clips (5 by default).
pub fn video_job(url: &Option<String>, num_clips: Option<i64>, aspect_ratio: &Option<String>, add_subtitles: Option<bool>) -> (r: Option<VideoJob>)
    ensures
        match r {
            None => or_default(*url, ""@).len() == 0,
            Some(j) => {
                &&& or_default(*url, ""@).len() > 0
                &&& j.url@ == or_default(*url, ""@)
                &&& j.source_type@ == video_source_of(j.url@)
                &&& j.num_clips == clamp(match num_clips { Some(n) => n as int, None => 5 }, 1, 30)
                &&& j.aspect_ratio@ == job_aspect(or_default(*aspect_ratio, "9:16"@))
                &&& j.add_subtitles == (match add_subtitles { Some(b) => b, None => true })
            },
        },
{
    let u = value_or(url, "");
    if u.as_str().is_empty() {
        return None;
    }
    let n = clamp_i64(match num_clips { Some(n) => n, None => 5 }, 1, 30);
    let a = value_or(aspect_ratio, "9:16");
    let ar = if str_eq(a.as_str(), "1:1") || str_eq(a.as_str(), "16:9") || str_eq(a.as_str(), "original") { a } else { owned("9:16") };
    let st = owned(video_source_type(u.as_str()));
    Some(VideoJob { url: u, source_type: st, num_clips: n as i32, aspect_ratio: ar, add_subtitles: match add_subtitles { Some(b) => b, None => true } })
}

/// The message confirming a queued job.
pub open spec fn queued_text(num_clips: int, aspect_ratio: Seq<char>) -> Seq<char> {
    "Task created: "@ + int_decimal(num_clips) + " clips at "@ + aspect_ratio
}

pub fn queued_message(job: &VideoJob) -> (r: String)
    ensures
        r@ == queued_text(job.num_clips as int, job.aspect_ratio@),
{
    let mut out = owned("Task created: ");
    push_int(&mut out, job.num_clips as i64);
    push_str(&mut out, " clips at ");
    push_str(&mut out, job.aspect_ratio.as_str());
    out
}

// ---------------------------------------------------------------------------
// Picking a clip of a job
// ---------------------------------------------------------------------------

/// The clip a tool call names: by `clip_id` when one is given (and not empty),
/// else by its place `clip_index` (0 by default) in the job's clip order.
pub open spec fn picked_clip(ids: Seq<Seq<char>>, clip_id: Option<Seq<char>>, clip_index: Option<i64>) -> Option<int> {
    match clip_id {
        Some(c) if c.len() > 0 => first_id(ids, c, 0),
        _ => {
            let k = (match clip_index { Some(i) => i, None => 0i64 }) as usize;
            if (k as int) < ids.len() { Some(k as int) } else { None }
        },
    }
}

pub open spec fn first_id(ids: Seq<Seq<char>>, c: Seq<char>, i: int) -> Option<int>
    decreases ids.len() - i,
{
    if i < 0 || i >= ids.len() { None } else if ids[i] == c { Some(i) } else { first_id(ids, c, i + 1) }
}

pub fn pick_clip(ids: &Vec<String>, clip_id: &Option<String>, clip_index: Option<i64>) -> (r: Option<usize>)
    ensures
        r matches Some(k) ==> k < ids.len(),
        match r {
            Some(k) => picked_clip(ids@.map_values(|s: String| s@), match *clip_id { Some(c) => Some(c@), None => None }, clip_index) == Some(k as int),
            None => picked_clip(ids@.map_values(|s: String| s@), match *clip_id { Some(c) => Some(c@), None => None }, clip_index) is None,
        },
{
    let ghost iv = ids@.map_values(|s: String| s@);
    match clip_id {
        Some(c) => {
            if !c.as_str().is_empty() {
                let mut i: usize = 0;
                while i < ids.len()
                    invariant
                        i <= ids.len(),
                        iv == ids@.map_values(|s: String| s@),
                        first_id(iv, c@, 0) == first_id(iv, c@, i as int),
                        c@.len() > 0,
                        match *clip_id { Some(cc) => cc@ == c@, None => false },
                    decreases ids.len() - i,
                {
                    if str_eq(ids[i].as_str(), c.as_str()) {
                        proof {
                            assert(first_id(iv, c@, i as int) == Some(i as int));
                        }
                        return Some(i);
                    }
                    i += 1;
                }
                return None;
            }
        }
        None => {}
    }
    let k = (match clip_index { Some(i) => i, None => 0i64 }) as usize;
    if k < ids.len() { Some(k) } else { None }
}

// ---------------------------------------------------------------------------
// add_subtitles
// ---------------------------------------------------------------------------

/// `HH:MM:SS,mmm` of a time in milliseconds (negative times as 0).
/// A subtitle time stamp from its hours, minutes, seconds and milliseconds.
pub open spec fn srt_fields(h: nat, m: nat, sec: nat, f: nat) -> Seq<char> {
    padded(h, 2) + ":"@ + padded(m, 2) + ":"@ + padded(sec, 2) + ","@ + padded(f, 3)
}

pub open spec fn srt_ts(ms: int) -> Seq<char> {
    let t = if ms < 0 { 0 } else { ms };
    padded((t / 3600000) as nat, 2) + ":"@ + padded(((t % 3600000) / 60000) as nat, 2) + ":"@
        + padded(((t % 60000) / 1000) as nat, 2) + ","@ + padded((t % 1000) as nat, 3)
}

/// Every subtitle time stamp `HH:MM:SS,mmm` reads back to the time it was
/// written for (a negative time counts as 0): minutes and seconds below 60,
/// milliseconds below 1000, and together they make up the time.
pub proof fn lemma_srt_ts_reads_back(ms: int)
    ensures
        exists|h: nat, m: nat, sec: nat, f: nat|
            srt_ts(ms) == #[trigger] srt_fields(h, m, sec, f)
            && m < 60 && sec < 60 && f < 1000
            && 3600000 * h + 60000 * m + 1000 * sec + f == (if ms < 0 { 0 } else { ms }),
{
    let t: int = if ms < 0 { 0 } else { ms };
    let h = t / 3600000;
    let r1 = t % 3600000;
    let m = r1 / 60000;
    let r2 = r1 % 60000;
    let sec = r2 / 1000;
    let f = r2 % 1000;
    assert(t == 3600000 * h + r1 && 0 <= r1 < 3600000) by (nonlinear_arith)
        requires t >= 0, h == t / 3600000, r1 == t % 3600000;
    assert(r1 == 60000 * m + r2 && 0 <= r2 < 60000 && m < 60) by (nonlinear_arith)
        requires 0 <= r1 < 3600000, m == r1 / 60000, r2 == r1 % 60000;
    assert(r2 == 1000 * sec + f && 0 <= f < 1000 && sec < 60) by (nonlinear_arith)
        requires 0 <= r2 < 60000, sec == r2 / 1000, f == r2 % 1000;
    assert(t % 60000 == r2) by (nonlinear_arith)
        requires t == 3600000 * h + r1, r1 == 60000 * m + r2, 0 <= r2 < 60000, h >= 0, m >= 0;
    assert(t % 1000 == f) by (nonlinear_arith)
        requires t == 3600000 * h + 60000 * m + 1000 * sec + f, 0 <= f < 1000, h >= 0, m >= 0, sec >= 0;
    assert(srt_ts(ms) == srt_fields(h as nat, m as nat, sec as nat, f as nat));
}

fn push_srt_ts(out: &mut String, ms: i64)
    ensures
        final(out)@ == old(out)@ + srt_ts(ms as int),
{
    let ghost o = out@;
    let t: u64 = if ms < 0 { 0 } else { ms as u64 };
    push_pad(out, t / 3600000, 2);
    push_str(out, ":");
    push_pad(out, (t % 3600000) / 60000, 2);
    push_str(out, ":");
    push_pad(out, (t % 60000) / 1000, 2);
    push_str(out, ",");
    push_pad(out, t % 1000, 3);
    assert(out@ =~= o + srt_ts(ms as int));
}

/// The words joined by spaces.
pub open spec fn space_join(ws: Seq<Seq<char>>) -> Seq<char>
    decreases ws.len(),
{
    if ws.len() == 0 { seq![] } else if ws.len() == 1 { ws[0] } else { space_join(ws.drop_last()) + " "@ + ws.last() }
}

/// The caption lines: the words in runs of `per` (at least one).
pub open spec fn srt_lines(ws: Seq<Seq<char>>, per: nat) -> Seq<Seq<char>>
    decreases ws.len(),
{
    let p = if per == 0 { 1 } else { per };
    if ws.len() == 0 { seq![] } else if ws.len() <= p { seq![space_join(ws)] } else { seq![space_join(ws.take(p as int))] + srt_lines(ws.skip(p as int), per) }
}

/// The span the captions are spread over: from 0.4 s (or a tenth of the clip,
/// if less) to 0.4 s before the end, and at least 0.1 s.
pub open spec fn srt_start(dur: int) -> int {
    if 400 <= dur / 10 { 400 } else { dur / 10 }
}

pub open spec fn srt_end(dur: int) -> int {
    let s = srt_start(dur);
    if dur - 400 >= s + 100 { dur - 400 } else { s + 100 }
}

/// Caption `i` of `n`: its number, its evenly spaced time span (the last one
/// ending at the span's end), and its text.
pub open spec fn srt_entry(i: int, n: int, dur: int, text: Seq<char>) -> Seq<char> {
    let s = srt_start(dur);
    let e = srt_end(dur);
    let t0 = s + i * (e - s) / n;
    let t1 = if i == n - 1 { e } else { s + (i + 1) * (e - s) / n };
    decimal((i + 1) as nat) + "\n"@ + srt_ts(t0) + " --> "@ + srt_ts(t1) + "\n"@ + text + "\n\n"@
}

pub open spec fn srt_entries(lines: Seq<Seq<char>>, k: int, dur: int) -> Seq<char>
    decreases k,
{
    if k <= 0 { seq![] } else { srt_entries(lines, k - 1, dur) + srt_entry(k - 1, lines.len() as int, dur, lines[k - 1]) }
}

/// The subtitle file for a transcript spread evenly over a clip of `dur`
/// milliseconds, `per` words to a caption.
pub open spec fn srt_text(transcript: Seq<char>, dur: int, per: nat) -> Seq<char> {
    let lines = srt_lines(words(transcript), per);
    srt_entries(lines, lines.len() as int, dur)
}

fn join_words_range(ws: &Vec<Vec<char>>, from: usize, to: usize) -> (r: String)
    requires
        from < to <= ws.len(),
    ensures
        r@ == space_join(ws@.map_values(|w: Vec<char>| w@).subrange(from as int, to as int)),
{
    let ghost wv = ws@.map_values(|w: Vec<char>| w@);
    let mut out = String::new();
    let mut i: usize = from;
    while i < to
        invariant
            from <= i <= to <= ws.len(),
            wv == ws@.map_values(|w: Vec<char>| w@),
            out@ == space_join(wv.subrange(from as int, i as int)),
        decreases to - i,
    {
        if i > from {
            push_str(&mut out, " ");
        }
        let w = string_of(&ws[i]);
        push_str(&mut out, w.as_str());
        proof {
            assert(wv.subrange(from as int, i + 1).drop_last() =~= wv.subrange(from as int, i as int));
            if i == from {
                assert(wv.subrange(from as int, i as int).len() == 0);
            }
        }
        i += 1;
    }
    out
}

fn caption_lines(transcript: &str, per: usize) -> (r: Vec<String>)
    ensures
        r@.map_values(|s: String| s@) == srt_lines(words(transcript@), per as nat),
{
    let cs = chars_of(transcript);
    let ws = split_words(&cs);
    let ghost wv = ws@.map_values(|w: Vec<char>| w@);
    assert(wv =~= words(transcript@));
    let p: usize = if per == 0 { 1 } else { per };
    let mut r: Vec<String> = Vec::new();
    let mut k: usize = 0;
    assert(wv.skip(0) =~= wv);
    while k < ws.len()
        invariant
            k <= ws.len(),
            p >= 1,
            p == (if per == 0 { 1 } else { per }),
            wv == ws@.map_values(|w: Vec<char>| w@),
            r@.map_values(|s: String| s@) + srt_lines(wv.skip(k as int), per as nat) == srt_lines(wv, per as nat),
        decreases ws.len() - k,
    {
        let rest = ws.len() - k;
        let take = if rest <= p { rest } else { p };
        let line = join_words_range(&ws, k, k + take);
        let ghost before = r@.map_values(|s: String| s@);
        r.push(line);
        proof {
            let tail = wv.skip(k as int);
            assert(tail.take(take as int) =~= wv.subrange(k as int, (k + take) as int));
            assert(tail.skip(take as int) =~= wv.skip((k + take) as int));
            if rest <= p {
                assert(tail =~= wv.subrange(k as int, (k + take) as int));
                assert(wv.skip((k + take) as int) =~= Seq::<Seq<char>>::empty());
            }
            assert(r@.map_values(|s: String| s@) =~= before.push(line@));
        }
        k = k + take;
    }
    assert(wv.skip(ws.len() as int) =~= Seq::<Seq<char>>::empty());
    r
}

fn floor_div10(d: i64) -> (q: i64)
    ensures
        q == (d as int) / 10,
{
    let q = d / 10;
    if d % 10 < 0 { q - 1 } else { q }
}

/// The start and end (milliseconds) of entry `i` of `n`, as `srt_entry` spreads them.
fn srt_times(i: usize, n: usize, dur: i64) -> (r: (i64, i64))
    requires
        i < n,
        -0x1_0000_0000_0000 < dur < 0x1_0000_0000_0000,
    ensures
        r.0 == srt_start(dur as int) + (i as int) * (srt_end(dur as int) - srt_start(dur as int)) / (n as int),
        r.1 == (if i == n - 1 { srt_end(dur as int) } else {
            srt_start(dur as int) + ((i + 1) as int) * (srt_end(dur as int) - srt_start(dur as int)) / (n as int)
        }),
{
    let d10 = floor_div10(dur);
    let s: i64 = if 400 <= d10 { 400 } else { d10 };
    let e: i64 = if dur - 400 >= s + 100 { dur - 400 } else { s + 100 };
    assert(s == srt_start(dur as int) && e == srt_end(dur as int));
    let span: i128 = e as i128 - s as i128;
    assert(0 <= span < 0x3_0000_0000_0000);
    assert(0 <= (i as int) * span / (n as int) <= span) by (nonlinear_arith)
        requires
            i < n,
            span >= 0,
    ;
    assert(0 <= ((i + 1) as int) * span / (n as int) <= span) by (nonlinear_arith)
        requires
            i < n,
            span >= 0,
    ;
    assert((i as int) * span < 0x100_0000_0000_0000_0000_0000_0000_0000) by (nonlinear_arith)
        requires
            0 <= i < 0x1_0000_0000_0000_0000,
            0 <= span < 0x3_0000_0000_0000,
    ;
    assert(((i + 1) as int) * span < 0x100_0000_0000_0000_0000_0000_0000_0000) by (nonlinear_arith)
        requires
            0 <= i < 0x1_0000_0000_0000_0000,
            0 <= span < 0x3_0000_0000_0000,
    ;
    let t0: i128 = s as i128 + (i as i128) * span / (n as i128);
    let t1: i128 = if i == n - 1 { e as i128 } else { s as i128 + ((i + 1) as i128) * span / (n as i128) };
    (t0 as i64, t1 as i64)
}

#[verifier::rlimit(40)]
#[verifier::spinoff_prover]
fn push_srt_entry(out: &mut String, i: usize, n: usize, dur: i64, text: &str)
    requires
        i < n,
        -0x1_0000_0000_0000 < dur < 0x1_0000_0000_0000,
    ensures
        final(out)@ == old(out)@ + srt_entry(i as int, n as int, dur as int, text@),
{
    let ghost o = out@;
    let (t0, t1) = srt_times(i, n, dur);
    push_nat(out, (i + 1) as u64);
    push_str(out, "\n");
    push_srt_ts(out, t0);
    push_str(out, " --> ");
    push_srt_ts(out, t1);
    push_str(out, "\n");
    push_str(out, text);
    push_str(out, "\n\n");
    assert(out@ =~= o + srt_entry(i as int, n as int, dur as int, text@));
}

/// Builds the subtitle file. The clip is `dur` milliseconds long.
pub fn build_srt(transcript: &str, dur: i64, per: usize) -> (r: String)
    requires
        -0x1_0000_0000_0000 < dur < 0x1_0000_0000_0000,
    ensures
        r@ == srt_text(transcript@, dur as int, per as nat),
{
    let lines = caption_lines(transcript, per);
    let ghost lv = lines@.map_values(|s: String| s@);
    let n = lines.len();
    let mut out = String::new();
    let mut i: usize = 0;
    while i < n
        invariant
            i <= n == lines.len(),
            lv == lines@.map_values(|s: String| s@),
            -0x1_0000_0000_0000 < dur < 0x1_0000_0000_0000,
            out@ == srt_entries(lv, i as int, dur as int),
        decreases n - i,
    {
        push_srt_entry(&mut out, i, n, dur, lines[i].as_str());
        i += 1;
    }
    out
}

/// How many lines of a subtitle file carry a time span (contain `-->`).
pub open spec fn span_count(lines: Seq<Seq<char>>) -> nat
    decreases lines.len(),
{
    if lines.len() == 0 { 0 } else { span_count(lines.drop_last()) + (if contains(lines.last(), "-->"@) { 1nat } else { 0nat }) }
}

pub fn caption_count(srt: &str) -> (r: usize)
    ensures
        r == span_count(split_char(srt@, '\n')),
{
    let cs = chars_of(srt);
    let lines = split_on(&cs, '\n');
    let ghost lv = split_char(srt@, '\n');
    let mut count: usize = 0;
    let mut i: usize = 0;
    let arrow: Vec<char> = vec!['-', '-', '>'];
    proof {
        reveal_strlit("-->");
        assert(arrow@ =~= "-->"@);
    }
    while i < lines.len()
        invariant
            i <= lines.len() == lv.len(),
            lv == split_char(srt@, '\n'),
            forall|j: int| 0 <= j < lines.len() ==> #[trigger] lines[j]@ == lv[j],
            arrow@ == "-->"@,
            count == span_count(lv.take(i as int)),
            count <= i,
        decreases lines.len() - i,
    {
        proof {
            assert(lv.take(i + 1).drop_last() =~= lv.take(i as int));
        }
        if crate::text::find_in(&lines[i], &arrow) {
            count += 1;
        }
        i += 1;
    }
    assert(lv.take(lines.len() as int) =~= lv);
    count
}

/// Where captions sit: (ASS alignment, vertical margin).
pub open spec fn placement(position: Seq<char>) -> (int, int) {
    if position == "top"@ { (8, 80) } else if position == "middle"@ { (5, 0) } else { (2, 80) }
}

/// The style forced on burnt-in subtitles.
pub open spec fn force_style(font_family: Seq<char>, font_size: int, primary: Seq<char>, position: Seq<char>) -> Seq<char> {
    let (align, margin) = placement(position);
    "Fontname='"@ + replace_all(font_family, "'"@, "\\'"@) + "',Fontsize="@ + int_decimal(font_size) + ",PrimaryColour="@ + primary
        + ",OutlineColour=&H000000&,BorderStyle=1,Outline=3,Shadow=1,Bold=1,Alignment="@ + int_decimal(align) + ",MarginV="@ + int_decimal(margin)
}

/// The settings of an MCP subtitle burn, with their defaults.
pub struct SubtitleArgs {
    pub font_size: Option<i64>,
    pub font_family: Option<String>,
    pub font_color: Option<String>,
    pub highlight_color: Option<String>,
    pub uppercase: Option<bool>,
    pub style: Option<String>,
    pub position: Option<String>,
}

/// What a subtitle burn does: the caption text, words per caption, and the
/// forced style.
pub struct SubtitleBurn {
    pub text: String,
    pub words_per_line: usize,
    pub force_style: String,
    pub style: String,
    pub position: String,
}

/// The colour the burned captions take: the highlight colour in karaoke
/// style, else the font colour (each with its default).
pub open spec fn burn_colour(a: SubtitleArgs) -> Seq<char> {
    if or_default(a.style, "classic"@) == "karaoke"@ {
        or_default(a.highlight_color, "#FFFF00"@)
    } else {
        or_default(a.font_color, "#FFFFFF"@)
    }
}

pub open spec fn burn_ok(b: SubtitleBurn, a: SubtitleArgs, transcript: Seq<char>) -> bool {
    let style = or_default(a.style, "classic"@);
    let karaoke = style == "karaoke"@;
    let color = if karaoke { or_default(a.highlight_color, "#FFFF00"@) } else { or_default(a.font_color, "#FFFFFF"@) };
    &&& b.text@ == (if (match a.uppercase { Some(u) => u, None => false }) { uppercase(transcript) } else { transcript })
    &&& b.words_per_line == (if karaoke { 3usize } else { 5usize })
    &&& b.force_style@ == force_style(or_default(a.font_family, "THEBOLDFONT"@), ((match a.font_size { Some(s) => s, None => 48i64 }) as i32) as int,
        ass_color(color), or_default(a.position, "bottom"@))
    &&& b.style@ == style
    &&& b.position@ == or_default(a.position, "bottom"@)
}

/// Plans the `add_subtitles` tool's burn.
pub fn subtitle_burn(a: &SubtitleArgs, transcript: &str) -> (b: SubtitleBurn)
    requires
        hex_sliceable(burn_colour(*a)),
    ensures
        burn_ok(b, *a, transcript@),
{
    let style = value_or(&a.style, "classic");
    let karaoke = str_eq(style.as_str(), "karaoke");
    let color = if karaoke { value_or(&a.highlight_color, "#FFFF00") } else { value_or(&a.font_color, "#FFFFFF") };
    let primary = hex_to_ass(color.as_str());
    let family = value_or(&a.font_family, "THEBOLDFONT");
    let size: i32 = (match a.font_size { Some(s) => s, None => 48 }) as i32;
    let position = value_or(&a.position, "bottom");
    let (align, margin): (i64, i64) = if str_eq(position.as_str(), "top") { (8, 80) } else if str_eq(position.as_str(), "middle") { (5, 0) } else { (2, 80) };
    proof {
        reveal_strlit("'");
    }
    let mut fs = owned("Fontname='");
    let esc = str_replace(family.as_str(), "'", "\\'");
    push_str(&mut fs, esc.as_str());
    push_str(&mut fs, "',Fontsize=");
    push_int(&mut fs, size as i64);
    push_str(&mut fs, ",PrimaryColour=");
    push_str(&mut fs, primary.as_str());
    push_str(&mut fs, ",OutlineColour=&H000000&,BorderStyle=1,Outline=3,Shadow=1,Bold=1,Alignment=");
    push_int(&mut fs, align);
    push_str(&mut fs, ",MarginV=");
    push_int(&mut fs, margin);
    let text = if match a.uppercase { Some(u) => u, None => false } { to_upper(transcript) } else { owned(transcript) };
    SubtitleBurn { text, words_per_line: if karaoke { 3 } else { 5 }, force_style: fs, style, position }
}

/// The ffmpeg arguments that burn a subtitle file into a clip.
pub open spec fn burn_args(input: Seq<char>, srt_path: Seq<char>, style: Seq<char>, output: Seq<char>) -> Seq<Seq<char>> {
    seq!["-y"@, "-i"@, input, "-vf"@, "subtitles=filename='"@ + filter_path(srt_path) + "':force_style='"@ + style + "'"@,
        "-c:v"@, "libx264"@, "-preset"@, "fast"@, "-crf"@, "18"@, "-pix_fmt"@, "yuv420p"@, "-c:a"@, "copy"@,
        "-movflags"@, "+faststart"@, output]
}

pub fn subtitle_burn_args(input: &str, srt_path: &str, style: &str, output: &str) -> (r: Vec<String>)
    ensures
        views(r@) == burn_args(input@, srt_path@, style@, output@),
{
    let mut vf = owned("subtitles=filename='");
    let p = filter_path_string(srt_path);
    push_str(&mut vf, p.as_str());
    push_str(&mut vf, "':force_style='");
    push_str(&mut vf, style);
    push_str(&mut vf, "'");
    let mut r: Vec<String> = Vec::new();
    push_arg(&mut r, "-y");
    push_arg(&mut r, "-i");
    push_arg(&mut r, input);
    push_arg(&mut r, "-vf");
    push_arg(&mut r, vf.as_str());
    push_arg(&mut r, "-c:v");
    push_arg(&mut r, "libx264");
    push_arg(&mut r, "-preset");
    push_arg(&mut r, "fast");
    push_arg(&mut r, "-crf");
    push_arg(&mut r, "18");
    push_arg(&mut r, "-pix_fmt");
    push_arg(&mut r, "yuv420p");
    push_arg(&mut r, "-c:a");
    push_arg(&mut r, "copy");
    push_arg(&mut r, "-movflags");
    push_arg(&mut r, "+faststart");
    push_arg(&mut r, output);
    r
}

// ---------------------------------------------------------------------------
// publish_clip
// ---------------------------------------------------------------------------

pub open spec fn supported_platform(p: Seq<char>) -> bool {
    p == "youtube"@ || p == "tiktok"@ || p == "instagram"@
}

/// The platforms to publish to: the supported names among the request's
/// (texts only), or YouTube when the request gives no list.
pub open spec fn platforms_of(req: Option<Seq<Option<Seq<char>>>>) -> Seq<Seq<char>> {
    match req {
        None => seq!["youtube"@],
        Some(items) => named_platforms(items),
    }
}

pub open spec fn named_platforms(items: Seq<Option<Seq<char>>>) -> Seq<Seq<char>>
    decreases items.len(),
{
    if items.len() == 0 {
        seq![]
    } else {
        let prev = named_platforms(items.drop_last());
        match items.last() {
            Some(p) if supported_platform(p) => prev.push(p),
            _ => prev,
        }
    }
}

pub open spec fn opt_views(v: Seq<Option<String>>) -> Seq<Option<Seq<char>>> {
    v.map_values(|o: Option<String>| match o { Some(s) => Some(s@), None => None })
}

pub fn publish_platforms(req: &Option<Vec<Option<String>>>) -> (r: Vec<String>)
    ensures
        views(r@) == platforms_of(match *req { Some(v) => Some(opt_views(v@)), None => None }),
{
    match req {
        None => {
            let mut r: Vec<String> = Vec::new();
            push_arg(&mut r, "youtube");
            assert(views(r@) =~= seq!["youtube"@]);
            r
        }
        Some(items) => {
            let ghost iv = opt_views(items@);
            let mut r: Vec<String> = Vec::new();
            let mut i: usize = 0;
            while i < items.len()
                invariant
                    i <= items.len(),
                    iv == opt_views(items@),
                    views(r@) == named_platforms(iv.take(i as int)),
                decreases items.len() - i,
            {
                proof {
                    assert(iv.take(i + 1).drop_last() =~= iv.take(i as int));
                }
                match &items[i] {
                    Some(p) => {
                        if str_eq(p.as_str(), "youtube") || str_eq(p.as_str(), "tiktok") || str_eq(p.as_str(), "instagram") {
                            push_arg(&mut r, p.as_str());
                        }
                    }
                    None => {}
                }
                i += 1;
            }
            assert(iv.take(items.len() as int) =~= iv);
            r
        }
    }
}

/// The title of a published clip: the request's (when not empty), else the
/// clip's hook title, else "NovaClip Short".
pub fn publish_title(req: &Option<String>, hook_title: &Option<String>) -> (r: String)
    ensures
        r@ == nonempty_or(*req, or_default(*hook_title, "NovaClip Short"@)),
{
    let fallback = value_or(hook_title, "NovaClip Short");
    nonempty_value_or(req, fallback.as_str())
}

/// The description of a published clip: the request's (when not empty), else
/// the clip's transcript, else nothing.
pub fn publish_description(req: &Option<String>, transcript: &Option<String>) -> (r: String)
    ensures
        r@ == nonempty_or(*req, or_default(*transcript, ""@)),
{
    let fallback = value_or(transcript, "");
    nonempty_value_or(req, fallback.as_str())
}

/// A key from the request when not empty, else from the environment when not
/// empty, else none.
pub fn request_or_env_key(req: &Option<String>, env: &Option<String>) -> (r: String)
    ensures
        r@ == nonempty_or(*req, nonempty_or(*env, ""@)),
{
    let fallback = nonempty_value_or(env, "");
    nonempty_value_or(req, fallback.as_str())
}

// ---------------------------------------------------------------------------
// create_shorts_video
// ---------------------------------------------------------------------------

/// An AI short asked for over MCP, defaults filled in.
pub struct ShortsJob {
    pub script: String,
    pub duration: i32,
    pub cost_mode: String,
    pub tts_provider: String,
    pub voice: String,
    pub bg_music: String,
    pub subtitle_style: String,
    pub actor_description: String,
    pub product_description: String,
    pub publish: bool,
    pub uploadpost_profile: String,
    pub llm_provider: String,
}

/// The settings of `create_shorts_video` as they came.
pub struct ShortsArgs {
    pub script: Option<String>,
    pub duration: Option<i64>,
    pub cost_mode: Option<String>,
    pub tts_provider: Option<String>,
    pub voice: Option<String>,
    pub bg_music: Option<String>,
    pub subtitle_style: Option<String>,
    pub actor_description: Option<String>,
    pub product_description: Option<String>,
    pub publish: Option<bool>,
    pub uploadpost_profile: Option<String>,
    pub llm_provider: Option<String>,
}

/// `create_shorts_video`: a script is required; 5–120 seconds (30 by
/// default); premium or low cost.
pub fn shorts_job(a: &ShortsArgs) -> (r: Option<ShortsJob>)
    ensures
        match r {
            None => trim(or_default(a.script, ""@)).len() == 0,
            Some(j) => {
                &&& trim(or_default(a.script, ""@)).len() > 0
                &&& j.script@ == trim(or_default(a.script, ""@))
                &&& j.duration == clamp(match a.duration { Some(d) => d as int, None => 30 }, 5, 120)
                &&& j.cost_mode@ == (if or_default(a.cost_mode, "low"@) == "premium"@ { "premium"@ } else { "low"@ })
                &&& j.tts_provider@ == or_default(a.tts_provider, "deepgram-aura"@)
                &&& j.voice@ == or_default(a.voice, "aura-asteria-en"@)
                &&& j.bg_music@ == or_default(a.bg_music, "none"@)
                &&& j.subtitle_style@ == or_default(a.subtitle_style, "bold"@)
                &&& j.actor_description@ == or_default(a.actor_description, ""@)
                &&& j.product_description@ == or_default(a.product_description, ""@)
                &&& j.publish == (match a.publish { Some(b) => b, None => false })
                &&& j.uploadpost_profile@ == or_default(a.uploadpost_profile, ""@)
                &&& j.llm_provider@ == nonempty_or(a.llm_provider, "gemini-3.1-flash-lite"@)
            },
        },
{
    let raw = value_or(&a.script, "");
    let script = str_trim(raw.as_str());
    if script.as_str().is_empty() {
        return None;
    }
    let d = clamp_i64(match a.duration { Some(d) => d, None => 30 }, 5, 120);
    let cm = value_or(&a.cost_mode, "low");
    let cost_mode = if str_eq(cm.as_str(), "premium") { owned("premium") } else { owned("low") };
    Some(ShortsJob {
        script,
        duration: d as i32,
        cost_mode,
        tts_provider: value_or(&a.tts_provider, "deepgram-aura"),
        voice: value_or(&a.voice, "aura-asteria-en"),
        bg_music: value_or(&a.bg_music, "none"),
        subtitle_style: value_or(&a.subtitle_style, "bold"),
        actor_description: value_or(&a.actor_description, ""),
        product_description: value_or(&a.product_description, ""),
        publish: match a.publish { Some(b) => b, None => false },
        uploadpost_profile: value_or(&a.uploadpost_profile, ""),
        llm_provider: nonempty_value_or(&a.llm_provider, "gemini-3.1-flash-lite"),
    })
}

// ---------------------------------------------------------------------------
// run_ai_edit, trim_clip
// ---------------------------------------------------------------------------

/// Why an AI edit cannot start.
#[derive(PartialEq, Eq, Structural, Clone, Copy)]
pub enum AiEditRefusal {
    MissingJob,
    MissingInstruction,
    JobNotUuid,
}

/// Checks `run_ai_edit`'s job id and instruction; the job's UUID comes back.
pub fn check_ai_edit(job_id: &str, instruction: &str) -> (r: Result<u128, AiEditRefusal>)
    ensures
        job_id@.len() == 0 ==> r == Err::<u128, AiEditRefusal>(AiEditRefusal::MissingJob),
        job_id@.len() > 0 && instruction@.len() == 0 ==> r == Err::<u128, AiEditRefusal>(AiEditRefusal::MissingInstruction),
        job_id@.len() > 0 && instruction@.len() > 0 ==> r == (match uuid_value(job_id@) {
            Some(u) => Ok::<u128, AiEditRefusal>(u),
            None => Err(AiEditRefusal::JobNotUuid),
        }),
{
    if job_id.is_empty() {
        return Err(AiEditRefusal::MissingJob);
    }
    if instruction.is_empty() {
        return Err(AiEditRefusal::MissingInstruction);
    }
    match parse_uuid(job_id) {
        Some(u) => Ok(u),
        None => Err(AiEditRefusal::JobNotUuid),
    }
}

/// The clip UUIDs among some ids: those that parse, in order.
pub open spec fn uuids_of(ids: Seq<Option<Seq<char>>>) -> Seq<u128>
    decreases ids.len(),
{
    if ids.len() == 0 {
        seq![]
    } else {
        let prev = uuids_of(ids.drop_last());
        match ids.last() {
            Some(s) => match uuid_value(s) { Some(u) => prev.push(u), None => prev },
            None => prev,
        }
    }
}

pub fn parse_clip_ids(ids: &Vec<Option<String>>) -> (r: Vec<u128>)
    ensures
        r@ == uuids_of(opt_views(ids@)),
{
    let ghost iv = opt_views(ids@);
    let mut r: Vec<u128> = Vec::new();
    let mut i: usize = 0;
    while i < ids.len()
        invariant
            i <= ids.len(),
            iv == opt_views(ids@),
            r@ == uuids_of(iv.take(i as int)),
        decreases ids.len() - i,
    {
        proof {
            assert(iv.take(i + 1).drop_last() =~= iv.take(i as int));
        }
        match &ids[i] {
            Some(s) => match parse_uuid(s.as_str()) {
                Some(u) => r.push(u),
                None => {}
            },
            None => {}
        }
        i += 1;
    }
    assert(iv.take(ids.len() as int) =~= iv);
    r
}

/// A trim keeps what is left of the clip after the two offsets (each at least
/// 0); nothing left is refused.
pub fn trimmed_length(clip_ms: i64, start_offset_ms: i64, end_offset_ms: i64) -> (r: Option<i64>)
    requires
        -0x1_0000_0000_0000 < clip_ms < 0x1_0000_0000_0000,
        -0x1_0000_0000_0000 < start_offset_ms < 0x1_0000_0000_0000,
        -0x1_0000_0000_0000 < end_offset_ms < 0x1_0000_0000_0000,
    ensures
        ({
            let s = if start_offset_ms < 0 { 0 } else { start_offset_ms as int };
            let e = if end_offset_ms < 0 { 0 } else { end_offset_ms as int };
            let d = clip_ms - s - e;
            if d <= 0 { r is None } else { r == Some(d as i64) }
        }),
{
    let s = if start_offset_ms < 0 { 0 } else { start_offset_ms };
    let e = if end_offset_ms < 0 { 0 } else { end_offset_ms };
    let d = clip_ms - s - e;
    if d <= 0 { None } else { Some(d) }
}

/// The name of a trimmed clip's file: `trim_` and the new id without hyphens.
pub open spec fn trim_file_name(id: Seq<char>) -> Seq<char> {
    "trim_"@ + replace_all(id, "-"@, ""@) + ".mp4"@
}

pub fn trim_output_name(id: &str) -> (r: String)
    ensures
        r@ == trim_file_name(id@),
{
    proof {
        reveal_strlit("-");
    }
    let mut out = owned("trim_");
    let s = str_replace(id, "-", "");
    push_str(&mut out, s.as_str());
    push_str(&mut out, ".mp4");
    out
}

// ---------------------------------------------------------------------------
// YouTube tools
// ---------------------------------------------------------------------------

/// The Gemini key of a tool call: the argument when not empty, else the
/// environment's when not empty; refused otherwise.
pub fn mcp_gemini_key(arg: &Option<String>, env: &Option<String>) -> (r: Result<String, String>)
    ensures
        match r {
            Ok(k) => k@ == nonempty_or(*arg, nonempty_or(*env, ""@)) && k@.len() > 0,
            Err(e) => e@ == "Missing Gemini API key (pass api_key or set GEMINI_API_KEY)"@ && nonempty_or(*arg, nonempty_or(*env, ""@)).len() == 0,
        },
{
    let k = request_or_env_key(arg, env);
    if k.as_str().is_empty() {
        Err(owned("Missing Gemini API key (pass api_key or set GEMINI_API_KEY)"))
    } else {
        Ok(k)
    }
}

/// The text model of a tool call: its `llm_provider` when not empty, else
/// the configured model, else the default.
pub fn mcp_text_model(arg: &Option<String>, configured: &Option<String>) -> (r: String)
    ensures
        r@ == nonempty_or(*arg, or_default(*configured, "gemini-3.1-flash-lite"@)),
{
    let fallback = value_or(configured, "gemini-3.1-flash-lite");
    nonempty_value_or(arg, fallback.as_str())
}

/// The image model of a thumbnail call: `image_model`, else `llm_provider`
/// (each when not empty), else the configured thumbnail model, else the
/// default image model.
pub fn mcp_image_model(image_model: &Option<String>, llm_provider: &Option<String>, configured: &Option<String>) -> (r: String)
    ensures
        r@ == nonempty_or(*image_model, nonempty_or(*llm_provider, or_default(*configured, "gemini-3.1-flash-image-preview"@))),
{
    let base = value_or(configured, "gemini-3.1-flash-image-preview");
    let second = nonempty_value_or(llm_provider, base.as_str());
    nonempty_value_or(image_model, second.as_str())
}

/// A count argument (`default` when absent) held within `lo..=hi`.
pub fn clamp_count(arg: Option<i64>, default: i64, lo: i64, hi: i64) -> (r: i64)
    requires
        lo <= hi,
    ensures
        ({
            let n = match arg { Some(v) => v, None => default };
            r == (if n < lo { lo } else if n > hi { hi } else { n })
        }),
{
    let n = match arg { Some(v) => v, None => default };
    if n < lo { lo } else if n > hi { hi } else { n }
}

/// Whether a titles or description call names a topic or a transcript.
pub fn has_topic_or_transcript(topic: &str, transcript: &str) -> (r: bool)
    ensures
        r == (trim(topic@).len() > 0 || trim(transcript@).len() > 0),
{
    !str_trim(topic).as_str().is_empty() || !str_trim(transcript).as_str().is_empty()
}

/// The titles request of the MCP tool.
pub open spec fn mcp_titles_text(count: nat, context: Seq<char>, tone: Seq<char>) -> Seq<char> {
    "You are a YouTube title expert who creates viral, click-worthy titles.\n\nAnalyze the video and its transcript, then suggest "@
        + decimal(count) + " YouTube titles that would maximize CTR.\n\n"@ + context
        + "\nRULES:\n- Titles must be under 70 characters\n- Use power words, curiosity gaps, and emotional triggers\n- Mix styles: how-to, listicle, story-driven, controversial, question-based ("@
        + tone + ")\n- Make them specific to the actual content, not generic\n- Titles should be in the SAME LANGUAGE as the video\n\nAlso provide a brief summary of the video content (2-3 sentences), and pick the TOP 2 most recommended titles with concise reasons (0-based index).\n\nOUTPUT JSON: {\"titles\": [\"title1\", ...], \"transcript_summary\": \"Brief summary...\", \"language\": \"...\", \"recommended\": [{\"index\": 0, \"reason\": \"...\"}]}"@
}

pub fn mcp_titles_prompt(count: u64, context: &str, tone: &str) -> (r: String)
    ensures
        r@ == mcp_titles_text(count as nat, context@, tone@),
{
    let mut out = owned("You are a YouTube title expert who creates viral, click-worthy titles.\n\nAnalyze the video and its transcript, then suggest ");
    push_nat(&mut out, count);
    push_str(&mut out, " YouTube titles that would maximize CTR.\n\n");
    push_str(&mut out, context);
    push_str(&mut out, "\nRULES:\n- Titles must be under 70 characters\n- Use power words, curiosity gaps, and emotional triggers\n- Mix styles: how-to, listicle, story-driven, controversial, question-based (");
    push_str(&mut out, tone);
    push_str(&mut out, ")\n- Make them specific to the actual content, not generic\n- Titles should be in the SAME LANGUAGE as the video\n\nAlso provide a brief summary of the video content (2-3 sentences), and pick the TOP 2 most recommended titles with concise reasons (0-based index).\n\nOUTPUT JSON: {\"titles\": [\"title1\", ...], \"transcript_summary\": \"Brief summary...\", \"language\": \"...\", \"recommended\": [{\"index\": 0, \"reason\": \"...\"}]}");
    out
}

/// The description request of the MCP tool.
pub open spec fn mcp_description_text(context: Seq<char>) -> Seq<char> {
    "You are a YouTube SEO expert. Generate a complete YouTube video description with chapter markers.\n\nVIDEO REFERENCE:\n"@
        + context
        + "\nREQUIREMENTS:\n1. Start with a compelling 2-3 sentence summary hook\n2. Add relevant CTAs (subscribe, like, comment)\n3. Generate YouTube CHAPTERS: first chapter MUST start at 0:00, minimum 3 chapters, each at least 10 seconds apart, concise descriptive titles\n4. Add 5-10 relevant hashtags at the end\n5. Keep the total description under 5000 characters\n6. Write the description in the SAME LANGUAGE as the video\n\nOUTPUT JSON: {\"description\": \"full description text with formatting and chapters\", \"chapters\": [{\"time\": \"0:00\", \"title\": \"Introduction\"}]}"@
}

pub fn mcp_description_prompt(context: &str) -> (r: String)
    ensures
        r@ == mcp_description_text(context@),
{
    let mut out = owned("You are a YouTube SEO expert. Generate a complete YouTube video description with chapter markers.\n\nVIDEO REFERENCE:\n");
    push_str(&mut out, context);
    push_str(&mut out, "\nREQUIREMENTS:\n1. Start with a compelling 2-3 sentence summary hook\n2. Add relevant CTAs (subscribe, like, comment)\n3. Generate YouTube CHAPTERS: first chapter MUST start at 0:00, minimum 3 chapters, each at least 10 seconds apart, concise descriptive titles\n4. Add 5-10 relevant hashtags at the end\n5. Keep the total description under 5000 characters\n6. Write the description in the SAME LANGUAGE as the video\n\nOUTPUT JSON: {\"description\": \"full description text with formatting and chapters\", \"chapters\": [{\"time\": \"0:00\", \"title\": \"Introduction\"}]}");
    out
}

/// The thumbnail request of the MCP tool; the images come as Base64
/// arguments, and a face or background counts when its argument is not empty.
pub open spec fn mcp_thumbnail_text(title: Seq<char>, context: Seq<char>, extra: Seq<char>, style: Seq<char>, has_face: bool, has_bg: bool) -> Seq<char> {
    "Generate a professional, eye-catching YouTube thumbnail image.\n\nVIDEO TITLE (for reference — do NOT put the full title on the thumbnail): \""@
        + title + "\"\n\n"@
        + (if trim(context).len() > 0 { "VIDEO CONTEXT:\n"@ + context + "\n\n"@ } else { seq![] })
        + "TEXT ON THE THUMBNAIL:\n- Create a SHORT visual hook: 1 to 5 words maximum\n- It should COMPLEMENT the title, not repeat it\n- Use ALL CAPS, split into 2-3 lines\n"@
        + (if trim(extra).len() > 0 { "MANDATORY USER INSTRUCTIONS (override default behavior):\n"@ + extra + "\n\n"@ } else { seq![] })
        + "DESIGN REQUIREMENTS:\n- "@ + style
        + "\n- Large bold high-contrast text, vibrant colors, clean composition, no clutter, no watermark, exactly 16:9."@
        + (if has_face { "\n- Include the provided face/person prominently with an exaggerated expression (surprise, excitement, shock)"@ } else { seq![] })
        + (if has_bg { "\n- Use the provided background image as the base/backdrop"@ } else { seq![] })
}

#[verifier::rlimit(40)]
pub fn mcp_thumbnail_prompt(title: &str, context: &str, extra: &str, style: &str, has_face: bool, has_bg: bool) -> (r: String)
    ensures
        r@ == mcp_thumbnail_text(title@, context@, extra@, style@, has_face, has_bg),
{
    let mut out = owned("Generate a professional, eye-catching YouTube thumbnail image.\n\nVIDEO TITLE (for reference — do NOT put the full title on the thumbnail): \"");
    push_str(&mut out, title);
    push_str(&mut out, "\"\n\n");
    let ghost a = out@;
    if !str_trim(context).as_str().is_empty() {
        push_str(&mut out, "VIDEO CONTEXT:\n");
        push_str(&mut out, context);
        push_str(&mut out, "\n\n");
    } else {
        assert(a + Seq::<char>::empty() =~= a);
    }
    push_str(&mut out, "TEXT ON THE THUMBNAIL:\n- Create a SHORT visual hook: 1 to 5 words maximum\n- It should COMPLEMENT the title, not repeat it\n- Use ALL CAPS, split into 2-3 lines\n");
    let ghost b = out@;
    if !str_trim(extra).as_str().is_empty() {
        push_str(&mut out, "MANDATORY USER INSTRUCTIONS (override default behavior):\n");
        push_str(&mut out, extra);
        push_str(&mut out, "\n\n");
    } else {
        assert(b + Seq::<char>::empty() =~= b);
    }
    push_str(&mut out, "DESIGN REQUIREMENTS:\n- ");
    push_str(&mut out, style);
    push_str(&mut out, "\n- Large bold high-contrast text, vibrant colors, clean composition, no clutter, no watermark, exactly 16:9.");
    let ghost c = out@;
    if has_face {
        push_str(&mut out, "\n- Include the provided face/person prominently with an exaggerated expression (surprise, excitement, shock)");
    } else {
        assert(c + Seq::<char>::empty() =~= c);
    }
    let ghost d = out@;
    if has_bg {
        push_str(&mut out, "\n- Use the provided background image as the base/backdrop");
    } else {
        assert(d + Seq::<char>::empty() =~= d);
    }
    assert(out@ =~= mcp_thumbnail_text(title@, context@, extra@, style@, has_face, has_bg));
    out
}

/// The tool error when a thumbnail variant came back without an image.
pub fn mcp_no_image_message(index: u32, model: &str) -> (r: String)
    ensures
        r@ == "Gemini returned no image for variant "@ + decimal(index as nat + 1) + " — the model '"@ + model@ + "' cannot generate images"@,
{
    let mut out = owned("Gemini returned no image for variant ");
    push_nat(&mut out, index as u64 + 1);
    push_str(&mut out, " — the model '");
    push_str(&mut out, model);
    push_str(&mut out, "' cannot generate images");
    out
}

// ---------------------------------------------------------------------------
// The tool catalog
// ---------------------------------------------------------------------------

/// The tools `tools/list` announces, in catalog order.
pub open spec fn tool_names() -> Seq<Seq<char>> {
    seq!["process_video"@, "get_job_status"@, "list_clips"@, "get_quota"@, "add_subtitles"@, "publish_clip"@, "create_shorts_video"@, "run_ai_edit"@, "cancel_task"@, "resume_task"@, "trim_clip"@, "delete_clip"@, "generate_titles"@, "generate_description"@, "generate_thumbnail"@]
}

/// What follows a tool's name in its catalog entry: its description and the
/// schema of its arguments, ending the entry's object.
pub open spec fn tool_body(i: int) -> Seq<char> {
    if i == 0 {
        r##""description":"Submit a video URL for clipping into viral shorts. Returns a task ID for status tracking.","inputSchema":{"type":"object","properties":{"url":{"type":"string","description":"YouTube URL or uploaded video path"},"num_clips":{"type":"integer","description":"Number of clips to extract (1-30)","default":5},"aspect_ratio":{"type":"string","enum":["9:16","1:1","16:9","original"],"default":"9:16"},"add_subtitles":{"type":"boolean","default":true}},"required":["url"]}}"##@
    } else if i == 1 {
        r##""description":"Get the current status and progress of a processing job.","inputSchema":{"type":"object","properties":{"job_id":{"type":"string","description":"Task UUID"}},"required":["job_id"]}}"##@
    } else if i == 2 {
        r##""description":"List all generated clips for a completed task with their URLs.","inputSchema":{"type":"object","properties":{"job_id":{"type":"string","description":"Task UUID"}},"required":["job_id"]}}"##@
    } else if i == 3 {
        r##""description":"Return the current number of tasks in the system (simple quota check).","inputSchema":{"type":"object","properties":{}}}"##@
    } else if i == 4 {
        r##""description":"Burn styled captions onto an existing clip. Re-encodes the clip with new subtitle styling (style, position, font, color).","inputSchema":{"type":"object","properties":{"job_id":{"type":"string","description":"Task UUID"},"clip_id":{"type":"string","description":"Clip UUID (from list_clips)"},"clip_index":{"type":"integer","description":"0-based clip index within the job (used when clip_id is omitted)","default":0},"style":{"type":"string","enum":["classic","karaoke"],"description":"Subtitle style","default":"classic"},"position":{"type":"string","enum":["top","middle","bottom"],"description":"Caption position on screen","default":"bottom"},"font_size":{"type":"integer","description":"Caption font size in pixels","default":48},"font_family":{"type":"string","default":"THEBOLDFONT"},"font_color":{"type":"string","description":"Hex color like #FFFFFF","default":"#FFFFFF"},"highlight_color":{"type":"string","description":"Hex accent color, used as the caption color in karaoke style","default":"#FFFF00"},"uppercase":{"type":"boolean","default":false}},"required":["job_id"]}}"##@
    } else if i == 5 {
        r##""description":"Publish a generated clip to social platforms via Upload-Post (YouTube, TikTok, Instagram).","inputSchema":{"type":"object","properties":{"job_id":{"type":"string","description":"Task UUID"},"clip_id":{"type":"string","description":"Clip UUID (from list_clips)"},"clip_index":{"type":"integer","description":"0-based clip index within the job (used when clip_id is omitted)","default":0},"api_key":{"type":"string","description":"Upload-Post API key (falls back to UPLOADPOST_API_KEY env)"},"profile":{"type":"string","description":"Upload-Post profile username (auto-resolved if omitted)"},"platforms":{"type":"array","items":{"type":"string","enum":["tiktok","instagram","youtube"]},"description":"Target platforms","default":["youtube"]},"title":{"type":"string","description":"Video title (defaults to the clip hook title)"},"description":{"type":"string","description":"Video description (defaults to the clip transcript)"},"scheduled_date":{"type":"string","description":"Optional ISO-8601 publish date (not yet applied)"}},"required":["job_id"]}}"##@
    } else if i == 6 {
        r##""description":"Create an AI Shorts (text-to-video) task — NovaClip renders a vertical short with an AI actor, B-roll and music from a script.","inputSchema":{"type":"object","properties":{"script":{"type":"string","description":"The full script/narration for the short"},"duration":{"type":"integer","description":"Target duration in seconds","default":30},"voice":{"type":"string","description":"TTS voice ID","default":"aura-asteria-en"},"tts_provider":{"type":"string","enum":["elevenlabs","deepgram-aura","edge"],"default":"deepgram-aura"},"bg_music":{"type":"string","description":"Background music style","default":"none"},"subtitle_style":{"type":"string","default":"bold"},"cost_mode":{"type":"string","enum":["low","premium"],"default":"low"},"actor_description":{"type":"string","description":"Description of the AI actor/presenter"},"product_description":{"type":"string","description":"Product/topic context for the short"},"publish":{"type":"boolean","description":"Auto-publish to YouTube after render via Upload-Post","default":false},"uploadpost_profile":{"type":"string","description":"Upload-Post profile for auto-publish"},"gemini_api_key":{"type":"string"},"wavespeed_api_key":{"type":"string"},"uploadpost_api_key":{"type":"string"}},"required":["script"]}}"##@
    } else if i == 7 {
        r##""description":"Run an agentic NovaEdit instruction against a task's clips (trim, reframe, change captions, translate captions, boost originality, add meme, merge, delete).","inputSchema":{"type":"object","properties":{"job_id":{"type":"string","description":"Task UUID"},"instruction":{"type":"string","description":"Natural-language edit instruction, e.g. 'trim the first clip'"},"clip_ids":{"type":"array","items":{"type":"string"},"description":"Clip UUIDs to make available for editing (defaults to all clips)"},"api_key":{"type":"string","description":"Gemini API key"}},"required":["job_id","instruction"]}}"##@
    } else if i == 8 {
        r##""description":"Cancel a running task.","inputSchema":{"type":"object","properties":{"job_id":{"type":"string","description":"Task UUID"}},"required":["job_id"]}}"##@
    } else if i == 9 {
        r##""description":"Re-queue a cancelled or failed task.","inputSchema":{"type":"object","properties":{"job_id":{"type":"string","description":"Task UUID"}},"required":["job_id"]}}"##@
    } else if i == 10 {
        r##""description":"Trim a clip by removing seconds from the start and/or end (re-encodes the clip).","inputSchema":{"type":"object","properties":{"job_id":{"type":"string","description":"Task UUID"},"clip_id":{"type":"string","description":"Clip UUID (from list_clips)"},"clip_index":{"type":"integer","description":"0-based clip index (used when clip_id is omitted)","default":0},"start_offset":{"type":"number","description":"Seconds to remove from the start","default":0},"end_offset":{"type":"number","description":"Seconds to remove from the end","default":0}},"required":["job_id"]}}"##@
    } else if i == 11 {
        r##""description":"Delete a clip from a task.","inputSchema":{"type":"object","properties":{"job_id":{"type":"string","description":"Task UUID"},"clip_id":{"type":"string","description":"Clip UUID (from list_clips)"},"clip_index":{"type":"integer","description":"0-based clip index (used when clip_id is omitted)","default":0}},"required":["job_id"]}}"##@
    } else if i == 12 {
        r##""description":"Generate viral YouTube title ideas from a topic or transcript.","inputSchema":{"type":"object","properties":{"topic":{"type":"string","description":"Video topic"},"transcript":{"type":"string","description":"Video transcript (optional)"},"tone":{"type":"string","enum":["viral","educational","story","controversial","listicle"],"default":"viral"},"count":{"type":"integer","default":10},"api_key":{"type":"string","description":"Gemini API key"}},"required":[]}}"##@
    } else if i == 13 {
        r##""description":"Generate a YouTube video description with chapter timestamps from a topic or transcript.","inputSchema":{"type":"object","properties":{"topic":{"type":"string","description":"Video topic"},"transcript":{"type":"string","description":"Video transcript (optional)"},"api_key":{"type":"string","description":"Gemini API key"}},"required":[]}}"##@
    } else {
        r##""description":"Generate YouTube thumbnail image(s) with a Gemini image model. Returns base64 data URLs.","inputSchema":{"type":"object","properties":{"title":{"type":"string","description":"Video title"},"style":{"type":"string","enum":["viral","comparison","text","minimal","step"],"default":"viral"},"count":{"type":"integer","description":"Number of variants (1-4)","default":1},"extra_prompt":{"type":"string","description":"Mandatory extra instructions"},"video_context":{"type":"string","description":"Transcript or summary of the video"},"face_image_b64":{"type":"string","description":"Base64 face image to feature on the thumbnail"},"bg_image_b64":{"type":"string","description":"Base64 background image"},"image_model":{"type":"string","description":"Gemini image model ID (default gemini-3.1-flash-image-preview; overrides llm_provider)"},"llm_provider":{"type":"string","description":"Deprecated alias for image_model — prefer image_model"},"api_key":{"type":"string","description":"Gemini API key"}},"required":["title"]}}"##@
    }
}

/// The head of a tool's catalog entry, naming the tool.
pub open spec fn entry_head(name: Seq<char>) -> Seq<char> {
    "{\"name\":\""@ + name + "\","@
}

/// A tool's catalog entry (one JSON object).
pub open spec fn tool_entry(i: int) -> Seq<char> {
    entry_head(tool_names()[i]) + tool_body(i)
}

/// The first `n` entries, separated by commas.
pub open spec fn tool_entries(n: nat) -> Seq<char>
    decreases n,
{
    if n == 0 {
        seq![]
    } else if n == 1 {
        tool_entry(0)
    } else {
        tool_entries((n - 1) as nat) + ","@ + tool_entry(n - 1)
    }
}

/// The catalog `tools/list` answers with (JSON text): every tool with its
/// description and the schema of its arguments.
pub open spec fn tool_catalog_text() -> Seq<char> {
    "{\"tools\":["@ + tool_entries(15) + "]}"@
}

fn tool_name(i: usize) -> (r: &'static str)
    requires
        i < 15,
    ensures
        r@ == tool_names()[i as int],
{
    if i == 0 {
        "process_video"
    } else if i == 1 {
        "get_job_status"
    } else if i == 2 {
        "list_clips"
    } else if i == 3 {
        "get_quota"
    } else if i == 4 {
        "add_subtitles"
    } else if i == 5 {
        "publish_clip"
    } else if i == 6 {
        "create_shorts_video"
    } else if i == 7 {
        "run_ai_edit"
    } else if i == 8 {
        "cancel_task"
    } else if i == 9 {
        "resume_task"
    } else if i == 10 {
        "trim_clip"
    } else if i == 11 {
        "delete_clip"
    } else if i == 12 {
        "generate_titles"
    } else if i == 13 {
        "generate_description"
    } else {
        "generate_thumbnail"
    }
}

fn tool_body_text(i: usize) -> (r: &'static str)
    ensures
        r@ == tool_body(i as int),
{
    if i == 0 {
        r##""description":"Submit a video URL for clipping into viral shorts. Returns a task ID for status tracking.","inputSchema":{"type":"object","properties":{"url":{"type":"string","description":"YouTube URL or uploaded video path"},"num_clips":{"type":"integer","description":"Number of clips to extract (1-30)","default":5},"aspect_ratio":{"type":"string","enum":["9:16","1:1","16:9","original"],"default":"9:16"},"add_subtitles":{"type":"boolean","default":true}},"required":["url"]}}"##
    } else if i == 1 {
        r##""description":"Get the current status and progress of a processing job.","inputSchema":{"type":"object","properties":{"job_id":{"type":"string","description":"Task UUID"}},"required":["job_id"]}}"##
    } else if i == 2 {
        r##""description":"List all generated clips for a completed task with their URLs.","inputSchema":{"type":"object","properties":{"job_id":{"type":"string","description":"Task UUID"}},"required":["job_id"]}}"##
    } else if i == 3 {
        r##""description":"Return the current number of tasks in the system (simple quota check).","inputSchema":{"type":"object","properties":{}}}"##
    } else if i == 4 {
        r##""description":"Burn styled captions onto an existing clip. Re-encodes the clip with new subtitle styling (style, position, font, color).","inputSchema":{"type":"object","properties":{"job_id":{"type":"string","description":"Task UUID"},"clip_id":{"type":"string","description":"Clip UUID (from list_clips)"},"clip_index":{"type":"integer","description":"0-based clip index within the job (used when clip_id is omitted)","default":0},"style":{"type":"string","enum":["classic","karaoke"],"description":"Subtitle style","default":"classic"},"position":{"type":"string","enum":["top","middle","bottom"],"description":"Caption position on screen","default":"bottom"},"font_size":{"type":"integer","description":"Caption font size in pixels","default":48},"font_family":{"type":"string","default":"THEBOLDFONT"},"font_color":{"type":"string","description":"Hex color like #FFFFFF","default":"#FFFFFF"},"highlight_color":{"type":"string","description":"Hex accent color, used as the caption color in karaoke style","default":"#FFFF00"},"uppercase":{"type":"boolean","default":false}},"required":["job_id"]}}"##
    } else if i == 5 {
        r##""description":"Publish a generated clip to social platforms via Upload-Post (YouTube, TikTok, Instagram).","inputSchema":{"type":"object","properties":{"job_id":{"type":"string","description":"Task UUID"},"clip_id":{"type":"string","description":"Clip UUID (from list_clips)"},"clip_index":{"type":"integer","description":"0-based clip index within the job (used when clip_id is omitted)","default":0},"api_key":{"type":"string","description":"Upload-Post API key (falls back to UPLOADPOST_API_KEY env)"},"profile":{"type":"string","description":"Upload-Post profile username (auto-resolved if omitted)"},"platforms":{"type":"array","items":{"type":"string","enum":["tiktok","instagram","youtube"]},"description":"Target platforms","default":["youtube"]},"title":{"type":"string","description":"Video title (defaults to the clip hook title)"},"description":{"type":"string","description":"Video description (defaults to the clip transcript)"},"scheduled_date":{"type":"string","description":"Optional ISO-8601 publish date (not yet applied)"}},"required":["job_id"]}}"##
    } else if i == 6 {
        r##""description":"Create an AI Shorts (text-to-video) task — NovaClip renders a vertical short with an AI actor, B-roll and music from a script.","inputSchema":{"type":"object","properties":{"script":{"type":"string","description":"The full script/narration for the short"},"duration":{"type":"integer","description":"Target duration in seconds","default":30},"voice":{"type":"string","description":"TTS voice ID","default":"aura-asteria-en"},"tts_provider":{"type":"string","enum":["elevenlabs","deepgram-aura","edge"],"default":"deepgram-aura"},"bg_music":{"type":"string","description":"Background music style","default":"none"},"subtitle_style":{"type":"string","default":"bold"},"cost_mode":{"type":"string","enum":["low","premium"],"default":"low"},"actor_description":{"type":"string","description":"Description of the AI actor/presenter"},"product_description":{"type":"string","description":"Product/topic context for the short"},"publish":{"type":"boolean","description":"Auto-publish to YouTube after render via Upload-Post","default":false},"uploadpost_profile":{"type":"string","description":"Upload-Post profile for auto-publish"},"gemini_api_key":{"type":"string"},"wavespeed_api_key":{"type":"string"},"uploadpost_api_key":{"type":"string"}},"required":["script"]}}"##
    } else if i == 7 {
        r##""description":"Run an agentic NovaEdit instruction against a task's clips (trim, reframe, change captions, translate captions, boost originality, add meme, merge, delete).","inputSchema":{"type":"object","properties":{"job_id":{"type":"string","description":"Task UUID"},"instruction":{"type":"string","description":"Natural-language edit instruction, e.g. 'trim the first clip'"},"clip_ids":{"type":"array","items":{"type":"string"},"description":"Clip UUIDs to make available for editing (defaults to all clips)"},"api_key":{"type":"string","description":"Gemini API key"}},"required":["job_id","instruction"]}}"##
    } else if i == 8 {
        r##""description":"Cancel a running task.","inputSchema":{"type":"object","properties":{"job_id":{"type":"string","description":"Task UUID"}},"required":["job_id"]}}"##
    } else if i == 9 {
        r##""description":"Re-queue a cancelled or failed task.","inputSchema":{"type":"object","properties":{"job_id":{"type":"string","description":"Task UUID"}},"required":["job_id"]}}"##
    } else if i == 10 {
        r##""description":"Trim a clip by removing seconds from the start and/or end (re-encodes the clip).","inputSchema":{"type":"object","properties":{"job_id":{"type":"string","description":"Task UUID"},"clip_id":{"type":"string","description":"Clip UUID (from list_clips)"},"clip_index":{"type":"integer","description":"0-based clip index (used when clip_id is omitted)","default":0},"start_offset":{"type":"number","description":"Seconds to remove from the start","default":0},"end_offset":{"type":"number","description":"Seconds to remove from the end","default":0}},"required":["job_id"]}}"##
    } else if i == 11 {
        r##""description":"Delete a clip from a task.","inputSchema":{"type":"object","properties":{"job_id":{"type":"string","description":"Task UUID"},"clip_id":{"type":"string","description":"Clip UUID (from list_clips)"},"clip_index":{"type":"integer","description":"0-based clip index (used when clip_id is omitted)","default":0}},"required":["job_id"]}}"##
    } else if i == 12 {
        r##""description":"Generate viral YouTube title ideas from a topic or transcript.","inputSchema":{"type":"object","properties":{"topic":{"type":"string","description":"Video topic"},"transcript":{"type":"string","description":"Video transcript (optional)"},"tone":{"type":"string","enum":["viral","educational","story","controversial","listicle"],"default":"viral"},"count":{"type":"integer","default":10},"api_key":{"type":"string","description":"Gemini API key"}},"required":[]}}"##
    } else if i == 13 {
        r##""description":"Generate a YouTube video description with chapter timestamps from a topic or transcript.","inputSchema":{"type":"object","properties":{"topic":{"type":"string","description":"Video topic"},"transcript":{"type":"string","description":"Video transcript (optional)"},"api_key":{"type":"string","description":"Gemini API key"}},"required":[]}}"##
    } else {
        r##""description":"Generate YouTube thumbnail image(s) with a Gemini image model. Returns base64 data URLs.","inputSchema":{"type":"object","properties":{"title":{"type":"string","description":"Video title"},"style":{"type":"string","enum":["viral","comparison","text","minimal","step"],"default":"viral"},"count":{"type":"integer","description":"Number of variants (1-4)","default":1},"extra_prompt":{"type":"string","description":"Mandatory extra instructions"},"video_context":{"type":"string","description":"Transcript or summary of the video"},"face_image_b64":{"type":"string","description":"Base64 face image to feature on the thumbnail"},"bg_image_b64":{"type":"string","description":"Base64 background image"},"image_model":{"type":"string","description":"Gemini image model ID (default gemini-3.1-flash-image-preview; overrides llm_provider)"},"llm_provider":{"type":"string","description":"Deprecated alias for image_model — prefer image_model"},"api_key":{"type":"string","description":"Gemini API key"}},"required":["title"]}}"##
    }
}

pub fn tool_catalog() -> (r: String)
    ensures
        r@ == tool_catalog_text(),
{
    let mut out = owned("{\"tools\":[");
    let mut i: usize = 0;
    while i < 15
        invariant
            i <= 15,
            out@ == "{\"tools\":["@ + tool_entries(i as nat),
        decreases 15 - i,
    {
        let ghost before = out@;
        if i > 0 {
            push_str(&mut out, ",");
        }
        push_str(&mut out, "{\"name\":\"");
        push_str(&mut out, tool_name(i));
        push_str(&mut out, "\",");
        push_str(&mut out, tool_body_text(i));
        proof {
            if i == 0 {
                assert(out@ =~= before + tool_entry(0));
                assert(tool_entries(1) == tool_entry(0));
                assert(tool_entries(0) =~= Seq::<char>::empty());
                assert(out@ =~= "{\"tools\":["@ + tool_entries(1));
            } else {
                assert(out@ =~= "{\"tools\":["@ + (tool_entries(i as nat) + ","@ + tool_entry(i as int)));
            }
        }
        i += 1;
    }
    push_str(&mut out, "]}");
    out
}

proof fn lemma_entry_in_entries(n: nat, i: int)
    requires
        0 <= i < n,
    ensures
        exists|p: int| occurs_at(tool_entries(n), tool_entry(i), p),
    decreases n,
{
    if n == 1 {
        assert(tool_entries(1) =~= tool_entry(0));
        assert(tool_entries(1).subrange(0, tool_entry(0).len() as int) =~= tool_entry(0));
        assert(occurs_at(tool_entries(n), tool_entry(i), 0));
    } else if i == n - 1 {
        let a = tool_entries((n - 1) as nat) + ","@;
        let p = a.len() as int;
        assert(tool_entries(n).subrange(p, p + tool_entry(i).len()) =~= tool_entry(i));
        assert(occurs_at(tool_entries(n), tool_entry(i), p));
    } else {
        lemma_entry_in_entries((n - 1) as nat, i);
        let prev = tool_entries((n - 1) as nat);
        let p = choose|p: int| occurs_at(prev, tool_entry(i), p);
        assert(tool_entries(n).subrange(p, p + tool_entry(i).len()) =~= prev.subrange(p, p + tool_entry(i).len()));
        assert(occurs_at(tool_entries(n), tool_entry(i), p));
    }
}

/// The place of a tool in the catalog (15 for an unknown one).
pub open spec fn catalog_place(t: McpTool) -> int {
    match t {
        McpTool::ProcessVideo => 0,
        McpTool::GetJobStatus => 1,
        McpTool::ListClips => 2,
        McpTool::GetQuota => 3,
        McpTool::AddSubtitles => 4,
        McpTool::PublishClip => 5,
        McpTool::CreateShortsVideo => 6,
        McpTool::RunAiEdit => 7,
        McpTool::CancelTask => 8,
        McpTool::ResumeTask => 9,
        McpTool::TrimClip => 10,
        McpTool::DeleteClip => 11,
        McpTool::GenerateTitles => 12,
        McpTool::GenerateDescription => 13,
        McpTool::GenerateThumbnail => 14,
        McpTool::Unknown => 15,
    }
}

proof fn lemma_tool_place(k: int)
    requires
        0 <= k < 15,
    ensures
        catalog_place(tool_of(tool_names()[k])) == k,
{
    if k == 0 {
        reveal_strlit("process_video");
        assert(tool_names()[k] == "process_video"@);
    } else if k == 1 {
        reveal_strlit("get_job_status");
        reveal_strlit("process_video");
        assert("get_job_status"@.len() != "process_video"@.len() || "get_job_status"@ != "process_video"@);
        assert(tool_names()[k] == "get_job_status"@);
    } else if k == 2 {
        reveal_strlit("list_clips");
        reveal_strlit("process_video");
        assert("list_clips"@.len() != "process_video"@.len() || "list_clips"@ != "process_video"@);
        reveal_strlit("get_job_status");
        assert("list_clips"@.len() != "get_job_status"@.len() || "list_clips"@ != "get_job_status"@);
        assert(tool_names()[k] == "list_clips"@);
    } else if k == 3 {
        reveal_strlit("get_quota");
        reveal_strlit("process_video");
        assert("get_quota"@.len() != "process_video"@.len() || "get_quota"@ != "process_video"@);
        reveal_strlit("get_job_status");
        assert("get_quota"@.len() != "get_job_status"@.len() || "get_quota"@ != "get_job_status"@);
        reveal_strlit("list_clips");
        assert("get_quota"@.len() != "list_clips"@.len() || "get_quota"@ != "list_clips"@);
        assert(tool_names()[k] == "get_quota"@);
    } else if k == 4 {
        reveal_strlit("add_subtitles");
        reveal_strlit("process_video");
        assert("add_subtitles"@[0] != "process_video"@[0]);
        reveal_strlit("get_job_status");
        assert("add_subtitles"@.len() != "get_job_status"@.len() || "add_subtitles"@ != "get_job_status"@);
        reveal_strlit("list_clips");
        assert("add_subtitles"@.len() != "list_clips"@.len() || "add_subtitles"@ != "list_clips"@);
        reveal_strlit("get_quota");
        assert("add_subtitles"@.len() != "get_quota"@.len() || "add_subtitles"@ != "get_quota"@);
        assert(tool_names()[k] == "add_subtitles"@);
    } else if k == 5 {
        reveal_strlit("publish_clip");
        reveal_strlit("process_video");
        assert("publish_clip"@.len() != "process_video"@.len() || "publish_clip"@ != "process_video"@);
        reveal_strlit("get_job_status");
        assert("publish_clip"@.len() != "get_job_status"@.len() || "publish_clip"@ != "get_job_status"@);
        reveal_strlit("list_clips");
        assert("publish_clip"@.len() != "list_clips"@.len() || "publish_clip"@ != "list_clips"@);
        reveal_strlit("get_quota");
        assert("publish_clip"@.len() != "get_quota"@.len() || "publish_clip"@ != "get_quota"@);
        reveal_strlit("add_subtitles");
        assert("publish_clip"@.len() != "add_subtitles"@.len() || "publish_clip"@ != "add_subtitles"@);
        assert(tool_names()[k] == "publish_clip"@);
    } else if k == 6 {
        reveal_strlit("create_shorts_video");
        reveal_strlit("process_video");
        assert("create_shorts_video"@.len() != "process_video"@.len() || "create_shorts_video"@ != "process_video"@);
        reveal_strlit("get_job_status");
        assert("create_shorts_video"@.len() != "get_job_status"@.len() || "create_shorts_video"@ != "get_job_status"@);
        reveal_strlit("list_clips");
        assert("create_shorts_video"@.len() != "list_clips"@.len() || "create_shorts_video"@ != "list_clips"@);
        reveal_strlit("get_quota");
        assert("create_shorts_video"@.len() != "get_quota"@.len() || "create_shorts_video"@ != "get_quota"@);
        reveal_strlit("add_subtitles");
        assert("create_shorts_video"@.len() != "add_subtitles"@.len() || "create_shorts_video"@ != "add_subtitles"@);
        reveal_strlit("publish_clip");
        assert("create_shorts_video"@.len() != "publish_clip"@.len() || "create_shorts_video"@ != "publish_clip"@);
        assert(tool_names()[k] == "create_shorts_video"@);
    } else if k == 7 {
        reveal_strlit("run_ai_edit");
        reveal_strlit("process_video");
        assert("run_ai_edit"@.len() != "process_video"@.len() || "run_ai_edit"@ != "process_video"@);
        reveal_strlit("get_job_status");
        assert("run_ai_edit"@.len() != "get_job_status"@.len() || "run_ai_edit"@ != "get_job_status"@);
        reveal_strlit("list_clips");
        assert("run_ai_edit"@.len() != "list_clips"@.len() || "run_ai_edit"@ != "list_clips"@);
        reveal_strlit("get_quota");
        assert("run_ai_edit"@.len() != "get_quota"@.len() || "run_ai_edit"@ != "get_quota"@);
        reveal_strlit("add_subtitles");
        assert("run_ai_edit"@.len() != "add_subtitles"@.len() || "run_ai_edit"@ != "add_subtitles"@);
        reveal_strlit("publish_clip");
        assert("run_ai_edit"@.len() != "publish_clip"@.len() || "run_ai_edit"@ != "publish_clip"@);
        reveal_strlit("create_shorts_video");
        assert("run_ai_edit"@.len() != "create_shorts_video"@.len() || "run_ai_edit"@ != "create_shorts_video"@);
        assert(tool_names()[k] == "run_ai_edit"@);
    } else if k == 8 {
        reveal_strlit("cancel_task");
        reveal_strlit("process_video");
        assert("cancel_task"@.len() != "process_video"@.len() || "cancel_task"@ != "process_video"@);
        reveal_strlit("get_job_status");
        assert("cancel_task"@.len() != "get_job_status"@.len() || "cancel_task"@ != "get_job_status"@);
        reveal_strlit("list_clips");
        assert("cancel_task"@.len() != "list_clips"@.len() || "cancel_task"@ != "list_clips"@);
        reveal_strlit("get_quota");
        assert("cancel_task"@.len() != "get_quota"@.len() || "cancel_task"@ != "get_quota"@);
        reveal_strlit("add_subtitles");
        assert("cancel_task"@.len() != "add_subtitles"@.len() || "cancel_task"@ != "add_subtitles"@);
        reveal_strlit("publish_clip");
        assert("cancel_task"@.len() != "publish_clip"@.len() || "cancel_task"@ != "publish_clip"@);
        reveal_strlit("create_shorts_video");
        assert("cancel_task"@.len() != "create_shorts_video"@.len() || "cancel_task"@ != "create_shorts_video"@);
        reveal_strlit("run_ai_edit");
        assert("cancel_task"@[0] != "run_ai_edit"@[0]);
        assert(tool_names()[k] == "cancel_task"@);
    } else if k == 9 {
        reveal_strlit("resume_task");
        reveal_strlit("process_video");
        assert("resume_task"@.len() != "process_video"@.len() || "resume_task"@ != "process_video"@);
        reveal_strlit("get_job_status");
        assert("resume_task"@.len() != "get_job_status"@.len() || "resume_task"@ != "get_job_status"@);
        reveal_strlit("list_clips");
        assert("resume_task"@.len() != "list_clips"@.len() || "resume_task"@ != "list_clips"@);
        reveal_strlit("get_quota");
        assert("resume_task"@.len() != "get_quota"@.len() || "resume_task"@ != "get_quota"@);
        reveal_strlit("add_subtitles");
        assert("resume_task"@.len() != "add_subtitles"@.len() || "resume_task"@ != "add_subtitles"@);
        reveal_strlit("publish_clip");
        assert("resume_task"@.len() != "publish_clip"@.len() || "resume_task"@ != "publish_clip"@);
        reveal_strlit("create_shorts_video");
        assert("resume_task"@.len() != "create_shorts_video"@.len() || "resume_task"@ != "create_shorts_video"@);
        reveal_strlit("run_ai_edit");
        assert("resume_task"@[1] != "run_ai_edit"@[1]);
        reveal_strlit("cancel_task");
        assert("resume_task"@[0] != "cancel_task"@[0]);
        assert(tool_names()[k] == "resume_task"@);
    } else if k == 10 {
        reveal_strlit("trim_clip");
        reveal_strlit("process_video");
        assert("trim_clip"@.len() != "process_video"@.len() || "trim_clip"@ != "process_video"@);
        reveal_strlit("get_job_status");
        assert("trim_clip"@.len() != "get_job_status"@.len() || "trim_clip"@ != "get_job_status"@);
        reveal_strlit("list_clips");
        assert("trim_clip"@.len() != "list_clips"@.len() || "trim_clip"@ != "list_clips"@);
        reveal_strlit("get_quota");
        assert("trim_clip"@[0] != "get_quota"@[0]);
        reveal_strlit("add_subtitles");
        assert("trim_clip"@.len() != "add_subtitles"@.len() || "trim_clip"@ != "add_subtitles"@);
        reveal_strlit("publish_clip");
        assert("trim_clip"@.len() != "publish_clip"@.len() || "trim_clip"@ != "publish_clip"@);
        reveal_strlit("create_shorts_video");
        assert("trim_clip"@.len() != "create_shorts_video"@.len() || "trim_clip"@ != "create_shorts_video"@);
        reveal_strlit("run_ai_edit");
        assert("trim_clip"@.len() != "run_ai_edit"@.len() || "trim_clip"@ != "run_ai_edit"@);
        reveal_strlit("cancel_task");
        assert("trim_clip"@.len() != "cancel_task"@.len() || "trim_clip"@ != "cancel_task"@);
        reveal_strlit("resume_task");
        assert("trim_clip"@.len() != "resume_task"@.len() || "trim_clip"@ != "resume_task"@);
        assert(tool_names()[k] == "trim_clip"@);
    } else if k == 11 {
        reveal_strlit("delete_clip");
        reveal_strlit("process_video");
        assert("delete_clip"@.len() != "process_video"@.len() || "delete_clip"@ != "process_video"@);
        reveal_strlit("get_job_status");
        assert("delete_clip"@.len() != "get_job_status"@.len() || "delete_clip"@ != "get_job_status"@);
        reveal_strlit("list_clips");
        assert("delete_clip"@.len() != "list_clips"@.len() || "delete_clip"@ != "list_clips"@);
        reveal_strlit("get_quota");
        assert("delete_clip"@.len() != "get_quota"@.len() || "delete_clip"@ != "get_quota"@);
        reveal_strlit("add_subtitles");
        assert("delete_clip"@.len() != "add_subtitles"@.len() || "delete_clip"@ != "add_subtitles"@);
        reveal_strlit("publish_clip");
        assert("delete_clip"@.len() != "publish_clip"@.len() || "delete_clip"@ != "publish_clip"@);
        reveal_strlit("create_shorts_video");
        assert("delete_clip"@.len() != "create_shorts_video"@.len() || "delete_clip"@ != "create_shorts_video"@);
        reveal_strlit("run_ai_edit");
        assert("delete_clip"@[0] != "run_ai_edit"@[0]);
        reveal_strlit("cancel_task");
        assert("delete_clip"@[0] != "cancel_task"@[0]);
        reveal_strlit("resume_task");
        assert("delete_clip"@[0] != "resume_task"@[0]);
        reveal_strlit("trim_clip");
        assert("delete_clip"@.len() != "trim_clip"@.len() || "delete_clip"@ != "trim_clip"@);
        assert(tool_names()[k] == "delete_clip"@);
    } else if k == 12 {
        reveal_strlit("generate_titles");
        reveal_strlit("process_video");
        assert("generate_titles"@.len() != "process_video"@.len() || "generate_titles"@ != "process_video"@);
        reveal_strlit("get_job_status");
        assert("generate_titles"@.len() != "get_job_status"@.len() || "generate_titles"@ != "get_job_status"@);
        reveal_strlit("list_clips");
        assert("generate_titles"@.len() != "list_clips"@.len() || "generate_titles"@ != "list_clips"@);
        reveal_strlit("get_quota");
        assert("generate_titles"@.len() != "get_quota"@.len() || "generate_titles"@ != "get_quota"@);
        reveal_strlit("add_subtitles");
        assert("generate_titles"@.len() != "add_subtitles"@.len() || "generate_titles"@ != "add_subtitles"@);
        reveal_strlit("publish_clip");
        assert("generate_titles"@.len() != "publish_clip"@.len() || "generate_titles"@ != "publish_clip"@);
        reveal_strlit("create_shorts_video");
        assert("generate_titles"@.len() != "create_shorts_video"@.len() || "generate_titles"@ != "create_shorts_video"@);
        reveal_strlit("run_ai_edit");
        assert("generate_titles"@.len() != "run_ai_edit"@.len() || "generate_titles"@ != "run_ai_edit"@);
        reveal_strlit("cancel_task");
        assert("generate_titles"@.len() != "cancel_task"@.len() || "generate_titles"@ != "cancel_task"@);
        reveal_strlit("resume_task");
        assert("generate_titles"@.len() != "resume_task"@.len() || "generate_titles"@ != "resume_task"@);
        reveal_strlit("trim_clip");
        assert("generate_titles"@.len() != "trim_clip"@.len() || "generate_titles"@ != "trim_clip"@);
        reveal_strlit("delete_clip");
        assert("generate_titles"@.len() != "delete_clip"@.len() || "generate_titles"@ != "delete_clip"@);
        assert(tool_names()[k] == "generate_titles"@);
    } else if k == 13 {
        reveal_strlit("generate_description");
        reveal_strlit("process_video");
        assert("generate_description"@.len() != "process_video"@.len() || "generate_description"@ != "process_video"@);
        reveal_strlit("get_job_status");
        assert("generate_description"@.len() != "get_job_status"@.len() || "generate_description"@ != "get_job_status"@);
        reveal_strlit("list_clips");
        assert("generate_description"@.len() != "list_clips"@.len() || "generate_description"@ != "list_clips"@);
        reveal_strlit("get_quota");
        assert("generate_description"@.len() != "get_quota"@.len() || "generate_description"@ != "get_quota"@);
        reveal_strlit("add_subtitles");
        assert("generate_description"@.len() != "add_subtitles"@.len() || "generate_description"@ != "add_subtitles"@);
        reveal_strlit("publish_clip");
        assert("generate_description"@.len() != "publish_clip"@.len() || "generate_description"@ != "publish_clip"@);
        reveal_strlit("create_shorts_video");
        assert("generate_description"@.len() != "create_shorts_video"@.len() || "generate_description"@ != "create_shorts_video"@);
        reveal_strlit("run_ai_edit");
        assert("generate_description"@.len() != "run_ai_edit"@.len() || "generate_description"@ != "run_ai_edit"@);
        reveal_strlit("cancel_task");
        assert("generate_description"@.len() != "cancel_task"@.len() || "generate_description"@ != "cancel_task"@);
        reveal_strlit("resume_task");
        assert("generate_description"@.len() != "resume_task"@.len() || "generate_description"@ != "resume_task"@);
        reveal_strlit("trim_clip");
        assert("generate_description"@.len() != "trim_clip"@.len() || "generate_description"@ != "trim_clip"@);
        reveal_strlit("delete_clip");
        assert("generate_description"@.len() != "delete_clip"@.len() || "generate_description"@ != "delete_clip"@);
        reveal_strlit("generate_titles");
        assert("generate_description"@.len() != "generate_titles"@.len() || "generate_description"@ != "generate_titles"@);
        assert(tool_names()[k] == "generate_description"@);
    } else if k == 14 {
        reveal_strlit("generate_thumbnail");
        reveal_strlit("process_video");
        assert("generate_thumbnail"@.len() != "process_video"@.len() || "generate_thumbnail"@ != "process_video"@);
        reveal_strlit("get_job_status");
        assert("generate_thumbnail"@.len() != "get_job_status"@.len() || "generate_thumbnail"@ != "get_job_status"@);
        reveal_strlit("list_clips");
        assert("generate_thumbnail"@.len() != "list_clips"@.len() || "generate_thumbnail"@ != "list_clips"@);
        reveal_strlit("get_quota");
        assert("generate_thumbnail"@.len() != "get_quota"@.len() || "generate_thumbnail"@ != "get_quota"@);
        reveal_strlit("add_subtitles");
        assert("generate_thumbnail"@.len() != "add_subtitles"@.len() || "generate_thumbnail"@ != "add_subtitles"@);
        reveal_strlit("publish_clip");
        assert("generate_thumbnail"@.len() != "publish_clip"@.len() || "generate_thumbnail"@ != "publish_clip"@);
        reveal_strlit("create_shorts_video");
        assert("generate_thumbnail"@.len() != "create_shorts_video"@.len() || "generate_thumbnail"@ != "create_shorts_video"@);
        reveal_strlit("run_ai_edit");
        assert("generate_thumbnail"@.len() != "run_ai_edit"@.len() || "generate_thumbnail"@ != "run_ai_edit"@);
        reveal_strlit("cancel_task");
        assert("generate_thumbnail"@.len() != "cancel_task"@.len() || "generate_thumbnail"@ != "cancel_task"@);
        reveal_strlit("resume_task");
        assert("generate_thumbnail"@.len() != "resume_task"@.len() || "generate_thumbnail"@ != "resume_task"@);
        reveal_strlit("trim_clip");
        assert("generate_thumbnail"@.len() != "trim_clip"@.len() || "generate_thumbnail"@ != "trim_clip"@);
        reveal_strlit("delete_clip");
        assert("generate_thumbnail"@.len() != "delete_clip"@.len() || "generate_thumbnail"@ != "delete_clip"@);
        reveal_strlit("generate_titles");
        assert("generate_thumbnail"@.len() != "generate_titles"@.len() || "generate_thumbnail"@ != "generate_titles"@);
        reveal_strlit("generate_description");
        assert("generate_thumbnail"@.len() != "generate_description"@.len() || "generate_thumbnail"@ != "generate_description"@);
        assert(tool_names()[k] == "generate_thumbnail"@);
    }
}

/// Every tool the catalog announces is one the server dispatches: its entry
/// in the `tools/list` answer carries its name, and a `tools/call` with that
/// name reaches a tool (never the unknown-tool answer). No two announced
/// tools reach the same tool.
pub proof fn lemma_listed_tools_dispatch(i: int)
    requires
        0 <= i < tool_names().len(),
    ensures
        contains(tool_catalog_text(), entry_head(tool_names()[i])),
        tool_of(tool_names()[i]) != McpTool::Unknown,
        forall|j: int| 0 <= j < tool_names().len() && j != i ==> tool_of(tool_names()[j]) != tool_of(tool_names()[i]),
{
    reveal_strlit("{\"tools\":[");
    assert forall|k: int| 0 <= k < 15 implies catalog_place(#[trigger] tool_of(tool_names()[k])) == k by {
        lemma_tool_place(k);
    }
    lemma_entry_in_entries(15, i);
    let e = tool_entries(15);
    let p = choose|p: int| occurs_at(e, tool_entry(i), p);
    let h = entry_head(tool_names()[i]);
    let q = 10 + p;
    assert("{\"tools\":["@.len() == 10);
    assert(tool_catalog_text().subrange(q, q + h.len()) =~= e.subrange(p, p + h.len()));
    assert(e.subrange(p, p + h.len()) =~= tool_entry(i).subrange(0, h.len() as int));
    assert(tool_entry(i).subrange(0, h.len() as int) =~= h);
    assert(occurs_at(tool_catalog_text(), h, q));
    assert(contains(tool_catalog_text(), h));
}

} // verus!
