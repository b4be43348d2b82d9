//! Task requests: how a request to clip a video becomes a task record, the
//! progress stream a client follows, and the edits a user may make to an
//! agentic task.
use vstd::prelude::*;
use crate::text::{chars_of, owned, push_str, str_eq, str_trim, trim, starts_with, contains, str_starts_with, str_contains, to_upper, uppercase, utf8, byte_len};
use crate::studio::{or_default, value_or};

verus! {

// ---------------------------------------------------------------------------
// Small normalisations
// ---------------------------------------------------------------------------

/// The aspect ratios a task may ask for; anything else becomes `9:16`.
pub open spec fn aspect_ok(ar: Seq<char>) -> bool {
    ar == "9:16"@ || ar == "1:1"@ || ar == "4:3"@ || ar == "16:9"@ || ar == "original"@
}

pub fn validate_aspect_ratio(ar: &str) -> (r: String)
    ensures
        r@ == (if aspect_ok(ar@) { ar@ } else { "9:16"@ }),
{
    if str_eq(ar, "9:16") || str_eq(ar, "1:1") || str_eq(ar, "4:3") || str_eq(ar, "16:9") || str_eq(ar, "original") {
        owned(ar)
    } else {
        owned("9:16")
    }
}

/// A `#RRGGBB`-shaped colour: seven bytes starting with `#`.
pub open spec fn color_shaped(c: Seq<char>) -> bool {
    utf8(c).len() == 7 && starts_with(c, "#"@)
}

/// A colour upper-cased when it is `#RRGGBB`-shaped, else white.
pub fn normalize_color(c: &str) -> (r: String)
    ensures
        r@ == (if color_shaped(c@) { uppercase(c@) } else { "#FFFFFF"@ }),
{
    if byte_len(c) == 7 && str_starts_with(c, "#") {
        proof {
            reveal_strlit("#");
        }
        to_upper(c)
    } else {
        proof {
            reveal_strlit("#");
        }
        owned("#FFFFFF")
    }
}

/// The word highlight colour of a request: upper-cased when it is
/// `#RRGGBB`-shaped, else yellow.
pub fn normalize_highlight(c: &Option<String>) -> (r: String)
    ensures
        r@ == (match *c { Some(s) if color_shaped(s@) => uppercase(s@), _ => "#FFE000"@ }),
{
    proof {
        reveal_strlit("#");
    }
    match c {
        Some(s) => {
            if byte_len(s.as_str()) == 7 && str_starts_with(s.as_str(), "#") {
                to_upper(s.as_str())
            } else {
                owned("#FFE000")
            }
        }
        None => owned("#FFE000"),
    }
}

/// The kind of source a URL names.
pub open spec fn source_type_of(url: Seq<char>) -> Seq<char> {
    if starts_with(url, "studio://"@) {
        "studio"@
    } else if starts_with(url, "novaedit://"@) || starts_with(url, "agentic://"@) {
        "agentic"@
    } else if starts_with(url, "repurpose://"@) {
        "repurpose"@
    } else {
        video_source_of(url)
    }
}

/// The kind of source a video URL names: YouTube, an uploaded file, or any
/// other video URL.
pub open spec fn video_source_of(url: Seq<char>) -> Seq<char> {
    if contains(url, "youtube.com"@) || contains(url, "youtu.be"@) {
        "youtube"@
    } else if starts_with(url, "upload://"@) {
        "upload"@
    } else {
        "video_url"@
    }
}

pub fn video_source_type(url: &str) -> (r: &'static str)
    ensures
        r@ == video_source_of(url@),
{
    if str_contains(url, "youtube.com") || str_contains(url, "youtu.be") {
        "youtube"
    } else if str_starts_with(url, "upload://") {
        "upload"
    } else {
        "video_url"
    }
}

pub fn detect_source_type(url: &str) -> (r: &'static str)
    ensures
        r@ == source_type_of(url@),
{
    if str_starts_with(url, "studio://") {
        "studio"
    } else if str_starts_with(url, "novaedit://") || str_starts_with(url, "agentic://") {
        "agentic"
    } else if str_starts_with(url, "repurpose://") {
        "repurpose"
    } else {
        video_source_type(url)
    }
}

pub open spec fn clamp_i32(v: int, lo: int, hi: int) -> int {
    if v < lo { lo } else if v > hi { hi } else { v }
}

fn clamp_value(v: i32, lo: i32, hi: i32) -> (r: i32)
    requires
        lo <= hi,
    ensures
        r == clamp_i32(v as int, lo as int, hi as int),
{
    if v < lo { lo } else if v > hi { hi } else { v }
}

// ---------------------------------------------------------------------------
// Creating a task
// ---------------------------------------------------------------------------

/// The core settings of a task to clip a video.
pub struct CreateTask {
    pub source_url: String,
    pub source_type: String,
    pub source_title: Option<String>,
    pub aspect_ratio: String,
    pub num_clips: i32,
    pub font_family: String,
    pub font_size: i32,
    pub font_color: String,
    pub caption_template: String,
    pub add_subtitles: bool,
    pub include_broll: bool,
    pub processing_mode: String,
    pub cut_long_pauses: bool,
    pub pause_threshold_ms: i32,
    pub remove_filler_words: bool,
    pub filtered_words: Vec<String>,
}

/// A request to create a task, every setting optional. `url` is the request's
/// URL, or else the URL of its `source`.
pub struct TaskRequest {
    pub url: Option<String>,
    pub aspect_ratio: Option<String>,
    pub num_clips: Option<i32>,
    pub font_family: Option<String>,
    pub font_size: Option<i32>,
    pub font_color: Option<String>,
    pub caption_template: Option<String>,
    pub add_subtitles: Option<bool>,
    pub include_broll: Option<bool>,
    pub processing_mode: Option<String>,
    pub cut_long_pauses: Option<bool>,
    pub pause_threshold_ms: Option<i32>,
    pub remove_filler_words: Option<bool>,
    pub filtered_words: Option<Vec<String>>,
    pub llm_provider: Option<String>,
    pub stt_provider: Option<String>,
    pub auto_vertical_reframe: Option<bool>,
    pub reframe_preset: Option<String>,
    pub reframe_frame_skip: Option<i32>,
    pub reframe_layout: Option<String>,
    pub speaker_active_switch: Option<bool>,
    pub split_divider: Option<bool>,
    pub originality_boost: Option<String>,
    pub translate_language: Option<String>,
    pub source_title: Option<String>,
    pub highlight_color: Option<String>,
    pub caption_animation: Option<String>,
    pub auto_emojis: Option<bool>,
    pub watermark_position: Option<String>,
}

/// The settings a new task is stored with.
pub struct NewTask {
    pub task: CreateTask,
    pub llm_provider: String,
    pub stt_provider: String,
    pub auto_vertical_reframe: bool,
    pub reframe_preset: String,
    pub reframe_frame_skip: i32,
    pub reframe_layout: String,
    pub speaker_active_switch: bool,
    pub split_divider: bool,
    pub originality_boost: String,
    pub translate_language: String,
    pub highlight_color: String,
    pub caption_animation: String,
    pub auto_emojis: bool,
    pub watermark_position: String,
}

pub open spec fn bool_or(o: Option<bool>, d: bool) -> bool {
    match o { Some(b) => b, None => d }
}

pub open spec fn int_or(o: Option<i32>, d: int) -> int {
    match o { Some(v) => v as int, None => d }
}

/// Only `split` and `auto` are layouts of their own; anything else is `single`.
pub open spec fn layout_of(l: Seq<char>) -> Seq<char> {
    if l == "split"@ || l == "auto"@ { l } else { "single"@ }
}

/// What a task is created with: every missing setting takes
/// its default, numbers are held to their ranges (1–30 clips, 12–72 pt,
/// 250–3000 ms pauses, every 1st–10th frame), unknown aspect ratios and
/// layouts fall back, and colours are normalised.
pub open spec fn new_task_ok(t: NewTask, r: TaskRequest, url: Seq<char>) -> bool {
    &&& t.task.source_url@ == url
    &&& t.task.source_type@ == source_type_of(url)
    &&& t.task.source_title == (match r.source_title { Some(s) => Some(s), None => t.task.source_title })
    &&& (match t.task.source_title { Some(s) => s@ == or_default(r.source_title, url), None => false })
    &&& t.task.aspect_ratio@ == (if aspect_ok(or_default(r.aspect_ratio, "9:16"@)) { or_default(r.aspect_ratio, "9:16"@) } else { "9:16"@ })
    &&& t.task.num_clips == clamp_i32(int_or(r.num_clips, 5), 1, 30)
    &&& t.task.font_family@ == or_default(r.font_family, "THEBOLDFONT"@)
    &&& t.task.font_size == clamp_i32(int_or(r.font_size, 32), 12, 72)
    &&& t.task.font_color@ == (if color_shaped(or_default(r.font_color, "#FFFFFF"@)) { uppercase(or_default(r.font_color, "#FFFFFF"@)) } else { "#FFFFFF"@ })
    &&& t.task.caption_template@ == or_default(r.caption_template, "default"@)
    &&& t.task.add_subtitles == bool_or(r.add_subtitles, true)
    &&& t.task.include_broll == bool_or(r.include_broll, false)
    &&& t.task.processing_mode@ == or_default(r.processing_mode, "fast"@)
    &&& t.task.cut_long_pauses == bool_or(r.cut_long_pauses, false)
    &&& t.task.pause_threshold_ms == clamp_i32(int_or(r.pause_threshold_ms, 900), 250, 3000)
    &&& t.task.remove_filler_words == bool_or(r.remove_filler_words, false)
    &&& t.task.filtered_words@.map_values(|w: String| w@) == (match r.filtered_words { Some(v) => v@.map_values(|w: String| w@), None => Seq::empty() })
    &&& t.llm_provider@ == or_default(r.llm_provider, "gemini-3.1-flash-lite"@)
    &&& t.stt_provider@ == or_default(r.stt_provider, "deepgram"@)
    &&& t.auto_vertical_reframe == bool_or(r.auto_vertical_reframe, false)
    &&& t.reframe_preset@ == or_default(r.reframe_preset, "talking_head"@)
    &&& t.reframe_frame_skip == clamp_i32(int_or(r.reframe_frame_skip, 1), 1, 10)
    &&& t.reframe_layout@ == layout_of(or_default(r.reframe_layout, "single"@))
    &&& t.speaker_active_switch == bool_or(r.speaker_active_switch, false)
    &&& t.split_divider == bool_or(r.split_divider, false)
    &&& t.originality_boost@ == or_default(r.originality_boost, "none"@)
    &&& t.translate_language@ == or_default(r.translate_language, ""@)
    &&& t.highlight_color@ == (match r.highlight_color { Some(s) if color_shaped(s@) => uppercase(s@), _ => "#FFE000"@ })
    &&& t.caption_animation@ == or_default(r.caption_animation, "word_pop"@)
    &&& t.auto_emojis == bool_or(r.auto_emojis, false)
    &&& t.watermark_position@ == or_default(r.watermark_position, "top_right"@)
}

fn copy_strings(v: &Option<Vec<String>>) -> (r: Vec<String>)
    ensures
        r@.map_values(|w: String| w@) == (match *v { Some(v) => v@.map_values(|w: String| w@), None => Seq::empty() }),
{
    let mut r: Vec<String> = Vec::new();
    if let Some(ws) = v {
        let mut i: usize = 0;
        while i < ws.len()
            invariant
                i <= ws.len(),
                r@.map_values(|w: String| w@) == ws@.map_values(|w: String| w@).take(i as int),
            decreases ws.len() - i,
        {
            let ghost before = r@;
            r.push(ws[i].clone());
            assert(r@.map_values(|w: String| w@) =~= before.map_values(|w: String| w@).push(ws@[i as int]@));
            assert(ws@.map_values(|w: String| w@).take(i + 1) =~= ws@.map_values(|w: String| w@).take(i as int).push(ws@[i as int]@));
            i += 1;
        }
        assert(ws@.map_values(|w: String| w@).take(ws.len() as int) =~= ws@.map_values(|w: String| w@));
    }
    r
}

/// Turns a request into the task to store; a request without a URL is
/// refused.
pub fn new_task(r: &TaskRequest) -> (t: Option<NewTask>)
    ensures
        r.url is None <==> t is None,
        t matches Some(t) ==> new_task_ok(t, *r, r.url.unwrap()@),
{
    let url = match &r.url {
        Some(u) => u.clone(),
        None => return None,
    };
    let source_type = owned(detect_source_type(url.as_str()));
    let ar = value_or(&r.aspect_ratio, "9:16");
    let aspect_ratio = validate_aspect_ratio(ar.as_str());
    let fc = value_or(&r.font_color, "#FFFFFF");
    let font_color = normalize_color(fc.as_str());
    let source_title = match &r.source_title {
        Some(s) => s.clone(),
        None => url.clone(),
    };
    let layout = value_or(&r.reframe_layout, "single");
    let reframe_layout = if str_eq(layout.as_str(), "split") || str_eq(layout.as_str(), "auto") { layout } else { owned("single") };
    let task = CreateTask {
        source_url: url,
        source_type,
        source_title: Some(source_title),
        aspect_ratio,
        num_clips: clamp_value(match r.num_clips { Some(v) => v, None => 5 }, 1, 30),
        font_family: value_or(&r.font_family, "THEBOLDFONT"),
        font_size: clamp_value(match r.font_size { Some(v) => v, None => 32 }, 12, 72),
        font_color,
        caption_template: value_or(&r.caption_template, "default"),
        add_subtitles: match r.add_subtitles { Some(b) => b, None => true },
        include_broll: match r.include_broll { Some(b) => b, None => false },
        processing_mode: value_or(&r.processing_mode, "fast"),
        cut_long_pauses: match r.cut_long_pauses { Some(b) => b, None => false },
        pause_threshold_ms: clamp_value(match r.pause_threshold_ms { Some(v) => v, None => 900 }, 250, 3000),
        remove_filler_words: match r.remove_filler_words { Some(b) => b, None => false },
        filtered_words: copy_strings(&r.filtered_words),
    };
    Some(NewTask {
        task,
        llm_provider: value_or(&r.llm_provider, "gemini-3.1-flash-lite"),
        stt_provider: value_or(&r.stt_provider, "deepgram"),
        auto_vertical_reframe: match r.auto_vertical_reframe { Some(b) => b, None => false },
        reframe_preset: value_or(&r.reframe_preset, "talking_head"),
        reframe_frame_skip: clamp_value(match r.reframe_frame_skip { Some(v) => v, None => 1 }, 1, 10),
        reframe_layout,
        speaker_active_switch: match r.speaker_active_switch { Some(b) => b, None => false },
        split_divider: match r.split_divider { Some(b) => b, None => false },
        originality_boost: value_or(&r.originality_boost, "none"),
        translate_language: value_or(&r.translate_language, ""),
        highlight_color: normalize_highlight(&r.highlight_color),
        caption_animation: value_or(&r.caption_animation, "word_pop"),
        auto_emojis: match r.auto_emojis { Some(b) => b, None => false },
        watermark_position: value_or(&r.watermark_position, "top_right"),
    })
}

// ---------------------------------------------------------------------------
// Tasks from a natural-language prompt
// ---------------------------------------------------------------------------

/// The settings a language model read from a user's instruction; each is
/// absent when the model gave none (or not of the right kind).
pub struct PromptParams {
    pub num_clips: Option<i64>,
    pub aspect_ratio: Option<String>,
    pub add_subtitles: Option<bool>,
    pub auto_vertical_reframe: Option<bool>,
    pub reframe_preset: Option<String>,
    pub reframe_layout: Option<String>,
    pub speaker_active_switch: Option<bool>,
    pub split_divider: Option<bool>,
    pub caption_template: Option<String>,
    pub originality_boost: Option<String>,
    pub translate_language: Option<String>,
    pub stt_provider: Option<String>,
}

/// A prompted task's settings, ready to store.
pub struct PromptTask {
    pub source_type: String,
    pub num_clips: i32,
    pub aspect_ratio: String,
    pub add_subtitles: bool,
    pub auto_vertical_reframe: bool,
    pub reframe_preset: String,
    pub reframe_layout: String,
    pub speaker_active_switch: bool,
    pub split_divider: bool,
    pub caption_template: String,
    pub originality_boost: String,
    pub translate_language: String,
    pub stt_provider: String,
}

/// The aspect ratios a prompt may choose; anything else is `9:16`.
pub open spec fn prompt_aspect(a: Seq<char>) -> Seq<char> {
    if a == "1:1"@ || a == "16:9"@ || a == "original"@ { a } else { "9:16"@ }
}

/// A prompt's layout: `split` for split or automatic, else `single`.
pub open spec fn prompt_layout(l: Seq<char>) -> Seq<char> {
    if l == "split"@ || l == "auto"@ { "split"@ } else { "single"@ }
}

pub open spec fn clamp_i64(v: int, lo: int, hi: int) -> int {
    if v < lo { lo } else if v > hi { hi } else { v }
}

/// A prompted task: the model's settings with defaults
/// and ranges applied.
pub fn prompt_task(url: &str, p: &PromptParams) -> (t: PromptTask)
    ensures
        t.source_type@ == video_source_of(url@),
        t.num_clips == clamp_i64(match p.num_clips { Some(n) => n as int, None => 5 }, 1, 30),
        t.aspect_ratio@ == prompt_aspect(or_default(p.aspect_ratio, "9:16"@)),
        t.add_subtitles == bool_or(p.add_subtitles, true),
        t.auto_vertical_reframe == bool_or(p.auto_vertical_reframe, false),
        t.reframe_preset@ == or_default(p.reframe_preset, "talking_head"@),
        t.reframe_layout@ == prompt_layout(or_default(p.reframe_layout, "single"@)),
        t.speaker_active_switch == bool_or(p.speaker_active_switch, false),
        t.split_divider == bool_or(p.split_divider, false),
        t.caption_template@ == or_default(p.caption_template, "default"@),
        t.originality_boost@ == or_default(p.originality_boost, "none"@),
        t.translate_language@ == or_default(p.translate_language, ""@),
        t.stt_provider@ == or_default(p.stt_provider, "deepgram"@),
{
    let n: i64 = match p.num_clips { Some(n) => n, None => 5 };
    let num_clips: i32 = if n < 1 { 1 } else if n > 30 { 30 } else { n as i32 };
    let a = value_or(&p.aspect_ratio, "9:16");
    let aspect_ratio = if str_eq(a.as_str(), "1:1") || str_eq(a.as_str(), "16:9") || str_eq(a.as_str(), "original") { a } else { owned("9:16") };
    let l = value_or(&p.reframe_layout, "single");
    let reframe_layout = if str_eq(l.as_str(), "split") || str_eq(l.as_str(), "auto") { owned("split") } else { owned("single") };
    PromptTask {
        source_type: owned(video_source_type(url)),
        num_clips,
        aspect_ratio,
        add_subtitles: match p.add_subtitles { Some(b) => b, None => true },
        auto_vertical_reframe: match p.auto_vertical_reframe { Some(b) => b, None => false },
        reframe_preset: value_or(&p.reframe_preset, "talking_head"),
        reframe_layout,
        speaker_active_switch: match p.speaker_active_switch { Some(b) => b, None => false },
        split_divider: match p.split_divider { Some(b) => b, None => false },
        caption_template: value_or(&p.caption_template, "default"),
        originality_boost: value_or(&p.originality_boost, "none"),
        translate_language: value_or(&p.translate_language, ""),
        stt_provider: value_or(&p.stt_provider, "deepgram"),
    }
}

/// The Gemini key of a request when it is not blank, else the environment's
/// when not blank; a request with neither is refused.
pub open spec fn gemini_key_choice(req: Option<String>, env: Option<String>) -> Option<Seq<char>> {
    match req {
        Some(k) if trim(k@).len() > 0 => Some(k@),
        _ => match env {
            Some(e) if trim(e@).len() > 0 => Some(e@),
            _ => None,
        },
    }
}

pub fn resolve_gemini_key(req: &Option<String>, env: &Option<String>) -> (r: Option<String>)
    ensures
        match r {
            Some(k) => gemini_key_choice(*req, *env) == Some(k@),
            None => gemini_key_choice(*req, *env) is None,
        },
{
    if let Some(k) = req {
        if !str_trim(k.as_str()).as_str().is_empty() {
            return Some(k.clone());
        }
    }
    if let Some(e) = env {
        if !str_trim(e.as_str()).as_str().is_empty() {
            return Some(e.clone());
        }
    }
    None
}

/// Which role a chat message plays for Gemini: the assistant's turns are the
/// model's (compared without regard to ASCII case), all others the user's.
pub open spec fn ascii_lower(c: char) -> char {
    if 'A' <= c && c <= 'Z' { ((c as u32) + 32) as char } else { c }
}

pub open spec fn chat_role(role: Seq<char>) -> Seq<char> {
    if role.len() == 9 && forall|i: int| 0 <= i < 9 ==> ascii_lower(#[trigger] role[i]) == "assistant"@[i] {
        "model"@
    } else {
        "user"@
    }
}

pub fn gemini_role(role: &str) -> (r: &'static str)
    ensures
        r@ == chat_role(role@),
{
    let cs = chars_of(role);
    let want: Vec<char> = vec!['a', 's', 's', 'i', 's', 't', 'a', 'n', 't'];
    proof {
        reveal_strlit("assistant");
        assert(want@ =~= "assistant"@);
    }
    if cs.len() != 9 {
        return "user";
    }
    let mut i: usize = 0;
    while i < 9
        invariant
            i <= 9,
            cs.len() == 9,
            want.len() == 9,
            cs@ == role@,
            want@ == "assistant"@,
            forall|j: int| 0 <= j < i ==> ascii_lower(#[trigger] cs@[j]) == want@[j],
        decreases 9 - i,
    {
        let c = cs[i];
        let l = if 'A' <= c && c <= 'Z' { ((c as u32) + 32) as u8 as char } else { c };
        proof {
            if 'A' <= c && c <= 'Z' {
                assert(((c as u32) + 32) as u8 as char == ((c as u32) + 32) as char);
            }
        }
        if l != want[i] {
            return "user";
        }
        i += 1;
    }
    "model"
}

// ---------------------------------------------------------------------------
// The progress stream
// ---------------------------------------------------------------------------

/// What the progress stream last sent.
pub struct ProgressTracker {
    pub last_progress: i32,
    pub last_status: String,
    pub last_message: String,
}

/// A look at the task.
pub enum TaskLook {
    Found { progress: i32, status: String, message: Option<String> },
    Missing,
    /// The database could not be read; the stream waits and looks again.
    Failed,
}

/// What the stream does after a look.
#[derive(PartialEq, Eq, Structural, Clone, Copy)]
pub enum StreamStep {
    /// Nothing changed: look again.
    Wait,
    /// Send a progress event and look again.
    Send,
    /// Send a progress event; the task has finished, so the stream ends.
    SendAndEnd,
    /// Send "Task not found"; the stream ends.
    NotFound,
    /// The look failed: wait a little longer and look again.
    Retry,
}

/// Completed, failed and cancelled tasks change no more.
pub open spec fn terminal(status: Seq<char>) -> bool {
    status == "completed"@ || status == "error"@ || status == "cancelled"@
}

pub open spec fn message_of(m: Option<String>) -> Seq<char> {
    or_default(m, ""@)
}

impl ProgressTracker {
    /// A stream that has sent nothing yet.
    pub fn new() -> (t: ProgressTracker)
        ensures
            t.last_progress == -1,
            t.last_status@ == Seq::<char>::empty(),
            t.last_message@ == Seq::<char>::empty(),
    {
        ProgressTracker { last_progress: -1, last_status: String::new(), last_message: String::new() }
    }

    /// Decides on a look at the task: an event is sent
    /// only when the progress, status or message changed, and the stream
    /// ends after a finished task's event or when the task is gone.
    pub fn observe(&mut self, look: &TaskLook) -> (s: StreamStep)
        ensures
            match *look {
                TaskLook::Found { progress, status, message } => {
                    let changed = progress != old(self).last_progress || status@ != old(self).last_status@
                        || message_of(message) != old(self).last_message@;
                    if changed {
                        &&& s == (if terminal(status@) { StreamStep::SendAndEnd } else { StreamStep::Send })
                        &&& final(self).last_progress == progress
                        &&& final(self).last_status@ == status@
                        &&& final(self).last_message@ == message_of(message)
                    } else {
                        &&& s == StreamStep::Wait
                        &&& final(self).last_progress == old(self).last_progress
                        &&& final(self).last_status@ == old(self).last_status@
                        &&& final(self).last_message@ == old(self).last_message@
                    }
                },
                TaskLook::Missing => s == StreamStep::NotFound && final(self).last_progress == old(self).last_progress
                    && final(self).last_status@ == old(self).last_status@ && final(self).last_message@ == old(self).last_message@,
                TaskLook::Failed => s == StreamStep::Retry && final(self).last_progress == old(self).last_progress
                    && final(self).last_status@ == old(self).last_status@ && final(self).last_message@ == old(self).last_message@,
            },
    {
        match look {
            TaskLook::Found { progress, status, message } => {
                let msg = value_or(message, "");
                let changed = *progress != self.last_progress || !str_eq(status.as_str(), self.last_status.as_str())
                    || !str_eq(msg.as_str(), self.last_message.as_str());
                if changed {
                    self.last_progress = *progress;
                    self.last_status = status.clone();
                    self.last_message = msg;
                    if str_eq(status.as_str(), "completed") || str_eq(status.as_str(), "error") || str_eq(status.as_str(), "cancelled") {
                        StreamStep::SendAndEnd
                    } else {
                        StreamStep::Send
                    }
                } else {
                    StreamStep::Wait
                }
            }
            TaskLook::Missing => StreamStep::NotFound,
            TaskLook::Failed => StreamStep::Retry,
        }
    }
}

/// The events a run of looks produces: `sent` counts the progress events, and
/// the run stops at the first ending step.
pub open spec fn stream_run(p: int, st: Seq<char>, m: Seq<char>, looks: Seq<(int, Seq<char>, Seq<char>)>) -> Seq<(int, Seq<char>, Seq<char>)>
    decreases looks.len(),
{
    if looks.len() == 0 {
        seq![]
    } else {
        let (lp, ls, lm) = looks[0];
        if lp != p || ls != st || lm != m {
            if terminal(ls) {
                seq![(lp, ls, lm)]
            } else {
                seq![(lp, ls, lm)] + stream_run(lp, ls, lm, looks.drop_first())
            }
        } else {
            stream_run(p, st, m, looks.drop_first())
        }
    }
}

/// What a client of the progress stream can rely on: no two events in a row
/// are the same, and only the last event can be of a finished task.
pub proof fn lemma_stream_events(p: int, st: Seq<char>, m: Seq<char>, looks: Seq<(int, Seq<char>, Seq<char>)>)
    ensures
        ({
            let ev = stream_run(p, st, m, looks);
            &&& forall|i: int| 0 <= i < ev.len() - 1 ==> #[trigger] ev[i] != ev[i + 1]
            &&& forall|i: int| 0 <= i < ev.len() - 1 ==> !terminal((#[trigger] ev[i]).1)
            &&& ev.len() > 0 ==> ev[0] != (p, st, m)
        }),
    decreases looks.len(),
{
    if looks.len() > 0 {
        let (lp, ls, lm) = looks[0];
        let ev = stream_run(p, st, m, looks);
        if lp != p || ls != st || lm != m {
            if !terminal(ls) {
                lemma_stream_events(lp, ls, lm, looks.drop_first());
                let rest = stream_run(lp, ls, lm, looks.drop_first());
                assert(ev == seq![(lp, ls, lm)] + rest);
                assert forall|i: int| 0 <= i < ev.len() - 1 implies #[trigger] ev[i] != ev[i + 1] by {
                    if i > 0 {
                        assert(ev[i] == rest[i - 1]);
                        assert(ev[i + 1] == rest[i]);
                    } else {
                        assert(ev[1] == rest[0]);
                    }
                }
                assert forall|i: int| 0 <= i < ev.len() - 1 implies !terminal((#[trigger] ev[i]).1) by {
                    if i > 0 {
                        assert(ev[i] == rest[i - 1]);
                    }
                }
            }
        } else {
            lemma_stream_events(p, st, m, looks.drop_first());
        }
    }
}

// ---------------------------------------------------------------------------
// Agentic tasks: settings, feedback and approval
// ---------------------------------------------------------------------------

/// A layout change is kept only when it is `split` or `auto`.
pub fn settings_layout(l: &Option<String>) -> (r: Option<String>)
    ensures
        match r {
            Some(s) => l matches Some(x) && (x@ == "split"@ || x@ == "auto"@) && s@ == x@,
            None => !(l matches Some(x) && (x@ == "split"@ || x@ == "auto"@)),
        },
{
    match l {
        Some(x) => if str_eq(x.as_str(), "split") || str_eq(x.as_str(), "auto") { Some(x.clone()) } else { None },
        None => None,
    }
}

/// Feedback for a re-plan: the message trimmed, between 1 and 4000
/// characters.
pub open spec fn feedback_ok(m: Seq<char>) -> bool {
    0 < trim(m).len() <= 4000
}

pub fn validate_feedback(message: &str) -> (r: Option<String>)
    ensures
        match r {
            Some(t) => feedback_ok(message@) && t@ == trim(message@),
            None => !feedback_ok(message@),
        },
{
    let t = str_trim(message);
    let cs = chars_of(t.as_str());
    if cs.len() == 0 || cs.len() > 4000 {
        None
    } else {
        Some(t)
    }
}

/// Records a re-plan's feedback in the history unless it is there already.
pub fn remember_feedback(history: &mut Vec<String>, message: &str)
    ensures
        (exists|i: int| 0 <= i < old(history).len() && old(history)@[i]@ == message@) ==> final(history)@ == old(history)@,
        !(exists|i: int| 0 <= i < old(history).len() && old(history)@[i]@ == message@) ==>
            final(history)@.map_values(|s: String| s@) == old(history)@.map_values(|s: String| s@).push(message@),
{
    let mut i: usize = 0;
    while i < history.len()
        invariant
            i <= history.len(),
            history@ == old(history)@,
            forall|j: int| 0 <= j < i ==> history@[j]@ != message@,
        decreases history.len() - i,
    {
        if str_eq(history[i].as_str(), message) {
            return;
        }
        i += 1;
    }
    let ghost before = history@;
    history.push(owned(message));
    assert(history@.map_values(|s: String| s@) =~= before.map_values(|s: String| s@).push(message@));
}

/// Every feedback message is recorded once: remembering a message leaves it in
/// the history, and a history without repeats stays without repeats.
pub proof fn lemma_feedback_once(before: Seq<Seq<char>>, after: Seq<Seq<char>>, m: Seq<char>)
    requires
        (before.contains(m) ==> after == before),
        (!before.contains(m) ==> after == before.push(m)),
        forall|i: int, j: int| 0 <= i < j < before.len() ==> before[i] != before[j],
    ensures
        after.contains(m),
        forall|i: int, j: int| 0 <= i < j < after.len() ==> after[i] != after[j],
{
    if !before.contains(m) {
        assert(after[before.len() as int] == m);
        assert forall|i: int, j: int| 0 <= i < j < after.len() implies after[i] != after[j] by {
            if j == before.len() {
                assert(after[i] == before[i]);
            } else {
                assert(after[i] == before[i] && after[j] == before[j]);
            }
        }
    }
}

/// The length of an approved plan: the cuts' lengths summed, reversed cuts
/// counting as nothing.
pub open spec fn approved_total(cuts: Seq<(i64, i64)>) -> int
    decreases cuts.len(),
{
    if cuts.len() == 0 {
        0
    } else {
        let (s, e) = cuts.last();
        approved_total(cuts.drop_last()) + (if e > s { e - s } else { 0 })
    }
}

pub fn approved_plan_total(cuts: &Vec<(i64, i64)>) -> (r: i128)
    requires
        cuts.len() < 0x1_0000_0000,
    ensures
        r == approved_total(cuts@),
{
    let mut total: i128 = 0;
    let mut i: usize = 0;
    while i < cuts.len()
        invariant
            i <= cuts.len() < 0x1_0000_0000,
            total == approved_total(cuts@.take(i as int)),
            0 <= total <= (i as int) * 0x1_0000_0000_0000_0000,
        decreases cuts.len() - i,
    {
        let (s, e) = cuts[i];
        proof {
            assert(cuts@.take(i + 1).drop_last() =~= cuts@.take(i as int));
        }
        if e > s {
            total = total + (e as i128 - s as i128);
        }
        i += 1;
    }
    assert(cuts@.take(cuts.len() as int) =~= cuts@);
    total
}

// ---------------------------------------------------------------------------
// Scripts for studio videos
// ---------------------------------------------------------------------------

/// The keys a script request runs with: OpenRouter's from the environment (when
/// not blank) or the request's key when it is an OpenRouter key; Gemini's from
/// the request's key when it is not blank and not an OpenRouter key, else the
/// environment's.
pub struct ScriptKeys {
    pub openrouter: String,
    pub gemini: String,
}

pub open spec fn script_keys_ok(k: ScriptKeys, req: Option<String>, env_openrouter: Option<String>, env_gemini: Option<String>) -> bool {
    &&& k.openrouter@ == (match env_openrouter {
        Some(e) if trim(e@).len() > 0 => e@,
        _ => match req { Some(r) if starts_with(r@, "sk-or-"@) => r@, _ => ""@ },
    })
    &&& k.gemini@ == (match req {
        Some(r) if trim(r@).len() > 0 && !starts_with(r@, "sk-or-"@) => r@,
        _ => or_default(env_gemini, ""@),
    })
}

pub fn script_keys(req: &Option<String>, env_openrouter: &Option<String>, env_gemini: &Option<String>) -> (k: ScriptKeys)
    ensures
        script_keys_ok(k, *req, *env_openrouter, *env_gemini),
{
    let mut openrouter = owned("");
    let mut from_env = false;
    if let Some(e) = env_openrouter {
        if !str_trim(e.as_str()).as_str().is_empty() {
            openrouter = e.clone();
            from_env = true;
        }
    }
    if !from_env {
        if let Some(r) = req {
            if str_starts_with(r.as_str(), "sk-or-") {
                openrouter = r.clone();
            }
        }
    }
    let mut gemini = value_or(env_gemini, "");
    if let Some(r) = req {
        if !str_trim(r.as_str()).as_str().is_empty() && !str_starts_with(r.as_str(), "sk-or-") {
            gemini = r.clone();
        }
    }
    ScriptKeys { openrouter, gemini }
}

/// Why a script request cannot run.
#[derive(PartialEq, Eq, Structural, Clone, Copy)]
pub enum ScriptRefusal {
    MissingTopic,
    MissingOpenRouterKey,
    MissingGeminiKey,
}

/// Checks a script request: a topic is needed, and
/// the key of the service the model runs on.
pub fn check_script_request(topic: &str, provider: &str, keys: &ScriptKeys) -> (r: Option<ScriptRefusal>)
    ensures
        r == (if trim(topic@).len() == 0 {
            Some(ScriptRefusal::MissingTopic)
        } else if (contains(provider@, "/"@) || provider@ == "openrouter/free"@) && keys.openrouter@.len() == 0 {
            Some(ScriptRefusal::MissingOpenRouterKey)
        } else if !(contains(provider@, "/"@) || provider@ == "openrouter/free"@) && keys.gemini@.len() == 0 {
            Some(ScriptRefusal::MissingGeminiKey)
        } else {
            None
        }),
{
    if str_trim(topic).as_str().is_empty() {
        return Some(ScriptRefusal::MissingTopic);
    }
    let is_openrouter = str_contains(provider, "/") || str_eq(provider, "openrouter/free");
    if is_openrouter && keys.openrouter.as_str().is_empty() {
        Some(ScriptRefusal::MissingOpenRouterKey)
    } else if !is_openrouter && keys.gemini.as_str().is_empty() {
        Some(ScriptRefusal::MissingGeminiKey)
    } else {
        None
    }
}

// ---------------------------------------------------------------------------
// Downloads
// ---------------------------------------------------------------------------

/// The first `n` characters of an id (all of it when shorter).
pub open spec fn id_prefix(id: Seq<char>, n: int) -> Seq<char> {
    if id.len() <= n { id } else { id.take(n) }
}

fn prefix_chars(id: &str, n: usize) -> (r: String)
    ensures
        r@ == id_prefix(id@, n as int),
{
    let cs = chars_of(id);
    let mut out: Vec<char> = Vec::new();
    let mut i: usize = 0;
    while i < n && i < cs.len()
        invariant
            i <= cs.len(),
            i <= n,
            out@ == cs@.take(i as int),
        decreases cs.len() - i,
    {
        out.push(cs[i]);
        i += 1;
        assert(cs@.take(i as int) =~= cs@.take(i - 1).push(cs@[i - 1]));
    }
    if cs.len() <= n {
        assert(cs@.take(cs.len() as int) =~= cs@);
    }
    crate::text::string_of(&out)
}

/// The name of clip `i` (from 0) inside a task's zip archive.
pub open spec fn zip_entry_name(i: nat, clip_id: Seq<char>) -> Seq<char> {
    "clip_"@ + crate::text::padded(i + 1, 2) + "_"@ + id_prefix(clip_id, 8) + ".mp4"@
}

pub fn zip_entry(i: u64, clip_id: &str) -> (r: String)
    requires
        i < u64::MAX,
    ensures
        r@ == zip_entry_name(i as nat, clip_id@),
{
    let mut out = owned("clip_");
    crate::caption::push_pad(&mut out, i + 1, 2);
    push_str(&mut out, "_");
    let p = prefix_chars(clip_id, 8);
    push_str(&mut out, p.as_str());
    push_str(&mut out, ".mp4");
    out
}

/// The file name a task's zip archive is offered under.
pub open spec fn zip_download_name(task_id: Seq<char>) -> Seq<char> {
    "novaclip_"@ + id_prefix(task_id, 8) + ".zip"@
}

pub fn zip_name(task_id: &str) -> (r: String)
    ensures
        r@ == zip_download_name(task_id@),
{
    let mut out = owned("novaclip_");
    let p = prefix_chars(task_id, 8);
    push_str(&mut out, p.as_str());
    push_str(&mut out, ".zip");
    out
}

/// The campaign's title in its PDF: the campaign name the model gave, else the
/// task's title, else "Content Campaign".
pub fn campaign_title(campaign_name: &Option<String>, task_title: &Option<String>) -> (r: String)
    ensures
        r@ == (match *campaign_name { Some(c) => c@, None => or_default(*task_title, "Content Campaign"@) }),
{
    match campaign_name {
        Some(c) => c.clone(),
        None => value_or(task_title, "Content Campaign"),
    }
}

} // verus!
