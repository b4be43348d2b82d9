//! The decisions of the clip pipeline: which pipeline a task runs, the canvas
//! of each aspect ratio, how a clip is cut, and what each rendered clip goes
//! through.
use vstd::prelude::*;
use crate::text::{chars_of, owned, push_str, str_eq, str_trim, trim, split_char, split_on, parse_unsigned, parse_unsigned_chars,
    decimal, digits_value, all_digits, is_digit, lemma_decimal_digits, index_of_char, lemma_index_of_char, lemma_index_of_char_range,
    contains, occurs_at};
use crate::render::{views, push_arg};
use crate::caption::{DeepgramWord};
use crate::studio::{or_default, value_or};

verus! {

// ---------------------------------------------------------------------------
// Aspect ratios
// ---------------------------------------------------------------------------

/// The crop/scale filter for an aspect ratio; `original` (or anything unknown)
/// keeps the frame as it is.
pub open spec fn crop_filter(ar: Seq<char>) -> Seq<char> {
    if ar == "9:16"@ {
        "scale=-1:1920:flags=lanczos,crop=1080:1920:(iw-1080)/2:0,setsar=1"@
    } else if ar == "1:1"@ {
        "scale=-1:1080:flags=lanczos,crop=1080:1080:(iw-1080)/2:(ih-1080)/2,setsar=1"@
    } else if ar == "16:9"@ {
        "scale=1920:-1:flags=lanczos,pad=1920:1080:(ow-iw)/2:(oh-ih)/2,setsar=1"@
    } else if ar == "4:3"@ {
        "scale=-1:1080:flags=lanczos,crop=1440:1080:(iw-1440)/2:0,setsar=1"@
    } else {
        ""@
    }
}

pub fn build_crop_filter(aspect_ratio: &str) -> (r: String)
    ensures
        r@ == crop_filter(aspect_ratio@),
{
    if str_eq(aspect_ratio, "9:16") {
        owned("scale=-1:1920:flags=lanczos,crop=1080:1920:(iw-1080)/2:0,setsar=1")
    } else if str_eq(aspect_ratio, "1:1") {
        owned("scale=-1:1080:flags=lanczos,crop=1080:1080:(iw-1080)/2:(ih-1080)/2,setsar=1")
    } else if str_eq(aspect_ratio, "16:9") {
        owned("scale=1920:-1:flags=lanczos,pad=1920:1080:(ow-iw)/2:(oh-ih)/2,setsar=1")
    } else if str_eq(aspect_ratio, "4:3") {
        owned("scale=-1:1080:flags=lanczos,crop=1440:1080:(iw-1440)/2:0,setsar=1")
    } else {
        owned("")
    }
}

/// `W:H` with both sides decimal `u32`s.
pub open spec fn aspect_parts(ar: Seq<char>) -> Option<(u32, u32)> {
    let parts = split_char(ar, ':');
    if parts.len() != 2 {
        None
    } else {
        match (parse_unsigned(parts[0], u32::MAX as nat), parse_unsigned(parts[1], u32::MAX as nat)) {
            (Some(w), Some(h)) => Some((w as u32, h as u32)),
            _ => None,
        }
    }
}

pub fn parse_aspect_ratio(ar: &str) -> (r: Option<(u32, u32)>)
    ensures
        r == aspect_parts(ar@),
{
    let cs = chars_of(ar);
    let parts = split_on(&cs, ':');
    if parts.len() != 2 {
        return None;
    }
    let w = parse_unsigned_chars(&parts[0], 0xffff_ffff);
    let h = parse_unsigned_chars(&parts[1], 0xffff_ffff);
    match (w, h) {
        (Some(w), Some(h)) => Some((w as u32, h as u32)),
        _ => None,
    }
}

/// The output canvas of an aspect ratio (landscape HD for `original`).
pub open spec fn canvas(ar: Seq<char>) -> (u32, u32) {
    if ar == "9:16"@ {
        (1080, 1920)
    } else if ar == "1:1"@ {
        (1080, 1080)
    } else if ar == "16:9"@ {
        (1920, 1080)
    } else if ar == "4:3"@ {
        (1440, 1080)
    } else {
        (1920, 1080)
    }
}

pub fn output_dimensions(aspect_ratio: &str) -> (r: (u32, u32))
    ensures
        r == canvas(aspect_ratio@),
{
    if str_eq(aspect_ratio, "9:16") {
        (1080, 1920)
    } else if str_eq(aspect_ratio, "1:1") {
        (1080, 1080)
    } else if str_eq(aspect_ratio, "16:9") {
        (1920, 1080)
    } else if str_eq(aspect_ratio, "4:3") {
        (1440, 1080)
    } else {
        (1920, 1080)
    }
}

proof fn lemma_no_char_index(s: Seq<char>, c: char)
    requires
        forall|i: int| 0 <= i < s.len() ==> s[i] != c,
    ensures
        index_of_char(s, c) == -1,
        split_char(s, c) == seq![s],
{
    lemma_index_of_char(s, c, s.len() as int);
}

proof fn lemma_found_char_index(s: Seq<char>, c: char, m: int)
    requires
        0 <= m < s.len(),
        s[m] == c,
    ensures
        0 <= index_of_char(s, c) <= m,
    decreases s.len(),
{
    if m > 0 && s[0] != c {
        lemma_found_char_index(s.drop_first(), c, m - 1);
    }
}

/// Printing `w:h` and reading it back gives `(w, h)`.
pub proof fn lemma_aspect_round_trip(w: u32, h: u32)
    ensures
        aspect_parts(decimal(w as nat) + seq![':'] + decimal(h as nat)) == Some((w, h)),
{
    let dw = decimal(w as nat);
    let dh = decimal(h as nat);
    lemma_decimal_digits(w as nat);
    lemma_decimal_digits(h as nat);
    let s = dw + seq![':'] + dh;
    assert forall|j: int| 0 <= j < dw.len() implies s[j] != ':' by {
        assert(is_digit(dw[j]));
    }
    lemma_index_of_char(s, ':', dw.len() as int);
    assert(s.take(dw.len() as int) =~= dw);
    assert(s.skip(dw.len() as int + 1) =~= dh);
    assert forall|j: int| 0 <= j < dh.len() implies dh[j] != ':' by {
        assert(is_digit(dh[j]));
    }
    lemma_no_char_index(dh, ':');
    assert(split_char(s, ':') =~= seq![dw, dh]);
    assert(dw.len() > 1 ==> dw[0] != '+') by {
        if dw.len() > 1 { assert(is_digit(dw[0])); }
    }
    assert(dh.len() > 1 ==> dh[0] != '+') by {
        if dh.len() > 1 { assert(is_digit(dh[0])); }
    }
}

/// An aspect ratio needs exactly one `:`: text without one, or with two or
/// more, reads as no ratio.
pub proof fn lemma_aspect_one_colon(s: Seq<char>)
    ensures
        (forall|i: int| 0 <= i < s.len() ==> s[i] != ':') ==> aspect_parts(s) is None,
        (exists|i: int, j: int| 0 <= i < j < s.len() && s[i] == ':' && s[j] == ':') ==> aspect_parts(s) is None,
{
    if forall|i: int| 0 <= i < s.len() ==> s[i] != ':' {
        lemma_no_char_index(s, ':');
    }
    if exists|i: int, j: int| 0 <= i < j < s.len() && s[i] == ':' && s[j] == ':' {
        let (i, j) = choose|i: int, j: int| 0 <= i < j < s.len() && s[i] == ':' && s[j] == ':';
        lemma_found_char_index(s, ':', i);
        lemma_index_of_char_range(s, ':');
        let k = index_of_char(s, ':');
        let rest = s.skip(k + 1);
        assert(rest[j - k - 1] == ':');
        lemma_found_char_index(rest, ':', j - k - 1);
        lemma_index_of_char_range(rest, ':');
        let k2 = index_of_char(rest, ':');
        let rest2 = rest.skip(k2 + 1);
        assert(split_char(rest2, ':').len() >= 1);
        assert(split_char(rest, ':').len() >= 2);
        assert(split_char(s, ':').len() >= 3);
    }
}

/// The canvas of each cropping ratio has the ratio's proportions with a short
/// side of 1080, and its crop filter produces that `W:H`; every other ratio
/// (`original` included) renders on landscape HD.
pub proof fn lemma_canvas_matches_ratio(ar: Seq<char>)
    ensures
        ar == "9:16"@ || ar == "1:1"@ || ar == "16:9"@ || ar == "4:3"@ ==> ({
            let (w, h) = canvas(ar);
            &&& aspect_parts(ar) matches Some((a, b)) && w * b == h * a
            &&& (if w < h { w } else { h }) == 1080
            &&& contains(crop_filter(ar), decimal(w as nat) + seq![':'] + decimal(h as nat) + seq![':'])
        }),
        !(ar == "9:16"@ || ar == "1:1"@ || ar == "16:9"@ || ar == "4:3"@) ==> canvas(ar) == (1920u32, 1080u32),
{
    reveal_with_fuel(decimal, 5);
    let d9 = decimal(9); let d16 = decimal(16); let d1 = decimal(1); let d4 = decimal(4); let d3 = decimal(3);
    let d1080 = decimal(1080); let d1920 = decimal(1920); let d1440 = decimal(1440);
    assert(d9 =~= seq!['9']);
    assert(d16 =~= seq!['1', '6']);
    assert(d1 =~= seq!['1']);
    assert(d4 =~= seq!['4']);
    assert(d3 =~= seq!['3']);
    assert(d1080 =~= seq!['1', '0', '8', '0']);
    assert(d1920 =~= seq!['1', '9', '2', '0']);
    assert(d1440 =~= seq!['1', '4', '4', '0']);
    if ar == "9:16"@ {
        reveal_strlit("9:16");
        reveal_strlit("scale=-1:1920:flags=lanczos,crop=1080:1920:(iw-1080)/2:0,setsar=1");
        assert(ar =~= d9 + seq![':'] + d16);
        lemma_aspect_round_trip(9, 16);
        assert(aspect_parts(ar) == Some((9u32, 16u32)));
        assert(canvas(ar) == (1080u32, 1920u32));
        assert(1080u32 as int * 16u32 as int == 1920u32 as int * 9u32 as int) by (nonlinear_arith);
        let p = d1080 + seq![':'] + d1920 + seq![':'];
        assert(crop_filter(ar).subrange(33, 43) =~= p);
        assert(occurs_at(crop_filter(ar), p, 33));
        assert(contains(crop_filter(ar), p));
    } else if ar == "1:1"@ {
        reveal_strlit("1:1");
        reveal_strlit("scale=-1:1080:flags=lanczos,crop=1080:1080:(iw-1080)/2:(ih-1080)/2,setsar=1");
        assert(ar =~= d1 + seq![':'] + d1);
        lemma_aspect_round_trip(1, 1);
        assert(aspect_parts(ar) == Some((1u32, 1u32)));
        assert(canvas(ar) == (1080u32, 1080u32));
        assert(1080u32 as int * 1u32 as int == 1080u32 as int * 1u32 as int) by (nonlinear_arith);
        let p = d1080 + seq![':'] + d1080 + seq![':'];
        assert(crop_filter(ar).subrange(33, 43) =~= p);
        assert(occurs_at(crop_filter(ar), p, 33));
    } else if ar == "16:9"@ {
        reveal_strlit("16:9");
        reveal_strlit("scale=1920:-1:flags=lanczos,pad=1920:1080:(ow-iw)/2:(oh-ih)/2,setsar=1");
        assert(ar =~= d16 + seq![':'] + d9);
        lemma_aspect_round_trip(16, 9);
        assert(aspect_parts(ar) == Some((16u32, 9u32)));
        assert(canvas(ar) == (1920u32, 1080u32));
        assert(1920u32 as int * 9u32 as int == 1080u32 as int * 16u32 as int) by (nonlinear_arith);
        let p = d1920 + seq![':'] + d1080 + seq![':'];
        assert(crop_filter(ar).subrange(32, 42) =~= p);
        assert(occurs_at(crop_filter(ar), p, 32));
    } else if ar == "4:3"@ {
        reveal_strlit("4:3");
        reveal_strlit("scale=-1:1080:flags=lanczos,crop=1440:1080:(iw-1440)/2:0,setsar=1");
        assert(ar =~= d4 + seq![':'] + d3);
        lemma_aspect_round_trip(4, 3);
        assert(aspect_parts(ar) == Some((4u32, 3u32)));
        assert(canvas(ar) == (1440u32, 1080u32));
        assert(1440u32 as int * 3u32 as int == 1080u32 as int * 4u32 as int) by (nonlinear_arith);
        let p = d1440 + seq![':'] + d1080 + seq![':'];
        assert(crop_filter(ar).subrange(33, 43) =~= p);
        assert(occurs_at(crop_filter(ar), p, 33));
    }
}

// ---------------------------------------------------------------------------
// Cutting a clip
// ---------------------------------------------------------------------------

/// The ffmpeg arguments that cut a clip: seek to `start`, take `duration`
/// (both in seconds as text), crop to the aspect ratio unless asked not to
/// (or the ratio keeps the frame), and encode for the web.
pub open spec fn clip_args(start: Seq<char>, source: Seq<char>, duration: Seq<char>, aspect_ratio: Seq<char>, skip_crop: bool, output: Seq<char>) -> Seq<Seq<char>> {
    let head = seq!["-y"@, "-ss"@, start, "-i"@, source, "-t"@, duration];
    let f = crop_filter(aspect_ratio);
    let crop = if !skip_crop && f.len() > 0 { seq!["-vf"@, f] } else { seq![] };
    head + crop + seq!["-c:v"@, "libx264"@, "-preset"@, "fast"@, "-crf"@, "18"@, "-pix_fmt"@, "yuv420p"@,
        "-profile:v"@, "high"@, "-c:a"@, "aac"@, "-b:a"@, "192k"@, "-movflags"@, "+faststart"@, output]
}

pub fn clip_extract_args(start: &str, source: &str, duration: &str, aspect_ratio: &str, skip_crop: bool, output: &str) -> (r: Vec<String>)
    ensures
        views(r@) == clip_args(start@, source@, duration@, aspect_ratio@, skip_crop, output@),
{
    let mut r: Vec<String> = Vec::new();
    push_arg(&mut r, "-y");
    push_arg(&mut r, "-ss");
    push_arg(&mut r, start);
    push_arg(&mut r, "-i");
    push_arg(&mut r, source);
    push_arg(&mut r, "-t");
    push_arg(&mut r, duration);
    if !skip_crop {
        let f = build_crop_filter(aspect_ratio);
        if !f.as_str().is_empty() {
            push_arg(&mut r, "-vf");
            push_arg(&mut r, f.as_str());
        }
    }
    push_arg(&mut r, "-c:v");
    push_arg(&mut r, "libx264");
    push_arg(&mut r, "-preset");
    push_arg(&mut r, "fast");
    push_arg(&mut r, "-crf");
    push_arg(&mut r, "18");
    push_arg(&mut r, "-pix_fmt");
    push_arg(&mut r, "yuv420p");
    push_arg(&mut r, "-profile:v");
    push_arg(&mut r, "high");
    push_arg(&mut r, "-c:a");
    push_arg(&mut r, "aac");
    push_arg(&mut r, "-b:a");
    push_arg(&mut r, "192k");
    push_arg(&mut r, "-movflags");
    push_arg(&mut r, "+faststart");
    push_arg(&mut r, output);
    proof {
        assert(views(r@) =~= clip_args(start@, source@, duration@, aspect_ratio@, skip_crop, output@));
    }
    r
}

/// The ffmpeg arguments of the centre-crop fallback when vertical reframing
/// fails: re-encode the raw clip through the crop filter, copying the sound.
pub open spec fn crop_fallback_args(input: Seq<char>, filter: Seq<char>, output: Seq<char>) -> Seq<Seq<char>> {
    seq!["-y"@, "-i"@, input, "-vf"@, filter, "-c:v"@, "libx264"@, "-preset"@, "fast"@, "-crf"@, "18"@,
        "-pix_fmt"@, "yuv420p"@, "-c:a"@, "copy"@, output]
}

pub fn center_crop_args(input: &str, filter: &str, output: &str) -> (r: Vec<String>)
    ensures
        views(r@) == crop_fallback_args(input@, filter@, output@),
{
    let mut r: Vec<String> = Vec::new();
    push_arg(&mut r, "-y");
    push_arg(&mut r, "-i");
    push_arg(&mut r, input);
    push_arg(&mut r, "-vf");
    push_arg(&mut r, filter);
    push_arg(&mut r, "-c:v");
    push_arg(&mut r, "libx264");
    push_arg(&mut r, "-preset");
    push_arg(&mut r, "fast");
    push_arg(&mut r, "-crf");
    push_arg(&mut r, "18");
    push_arg(&mut r, "-pix_fmt");
    push_arg(&mut r, "yuv420p");
    push_arg(&mut r, "-c:a");
    push_arg(&mut r, "copy");
    push_arg(&mut r, output);
    r
}

// ---------------------------------------------------------------------------
// Tasks
// ---------------------------------------------------------------------------

/// The pipeline a task runs, by its source type.
#[derive(PartialEq, Eq, Structural, Clone, Copy)]
pub enum TaskRoute {
    /// The agentic editor ("agentic").
    NovaEdit,
    /// Repurposing into a campaign ("repurpose").
    Repurpose,
    /// A scripted faceless video ("studio").
    Studio,
    /// Clips cut from a source video (anything else).
    Standard,
}

pub open spec fn route_of(source_type: Seq<char>) -> TaskRoute {
    if source_type == "agentic"@ {
        TaskRoute::NovaEdit
    } else if source_type == "repurpose"@ {
        TaskRoute::Repurpose
    } else if source_type == "studio"@ {
        TaskRoute::Studio
    } else {
        TaskRoute::Standard
    }
}

pub fn route_task(source_type: &str) -> (r: TaskRoute)
    ensures
        r == route_of(source_type@),
{
    if str_eq(source_type, "agentic") {
        TaskRoute::NovaEdit
    } else if str_eq(source_type, "repurpose") {
        TaskRoute::Repurpose
    } else if str_eq(source_type, "studio") {
        TaskRoute::Studio
    } else {
        TaskRoute::Standard
    }
}

/// A key stored on the task when it is not blank, else the one from the
/// environment (or none).
pub open spec fn task_key(task: Option<String>, env: Option<String>) -> Seq<char> {
    match task {
        Some(k) if trim(k@).len() > 0 => k@,
        _ => or_default(env, ""@),
    }
}

pub fn resolve_task_key(task: &Option<String>, env: &Option<String>) -> (r: String)
    ensures
        r@ == task_key(*task, *env),
{
    match task {
        Some(k) => {
            let t = str_trim(k.as_str());
            if !t.as_str().is_empty() {
                return k.clone();
            }
        }
        None => {}
    }
    value_or(env, "")
}

/// The speech-to-text engine: the task's when not blank, else the
/// environment's, else Deepgram.
pub open spec fn stt_choice(task: Seq<char>, env: Option<String>) -> Seq<char> {
    if trim(task).len() == 0 { or_default(env, "deepgram"@) } else { task }
}

pub fn resolve_stt_provider(task: &str, env: &Option<String>) -> (r: String)
    ensures
        r@ == stt_choice(task@, *env),
{
    let t = str_trim(task);
    if t.as_str().is_empty() {
        value_or(env, "deepgram")
    } else {
        owned(task)
    }
}

/// The GIPHY key: the environment's when non-empty, else the task's when not
/// blank.
pub open spec fn giphy_choice(env: Option<String>, task: Option<String>) -> Option<Seq<char>> {
    match env {
        Some(e) if e@.len() > 0 => Some(e@),
        _ => match task {
            Some(t) if trim(t@).len() > 0 => Some(t@),
            _ => None,
        },
    }
}

pub fn resolve_giphy_key(env: &Option<String>, task: &Option<String>) -> (r: Option<String>)
    ensures
        match r {
            Some(s) => giphy_choice(*env, *task) == Some(s@),
            None => giphy_choice(*env, *task) is None,
        },
{
    if let Some(e) = env {
        if !e.as_str().is_empty() {
            return Some(e.clone());
        }
    }
    if let Some(t) = task {
        let tt = str_trim(t.as_str());
        if !tt.as_str().is_empty() {
            return Some(t.clone());
        }
    }
    None
}

// ---------------------------------------------------------------------------
// Rendering the clips of a standard task
// ---------------------------------------------------------------------------

/// Progress while clips render: from 50% to 95% over the clips.
pub open spec fn clip_percent(i: int, total: int) -> int {
    50 + i * 45 / (if total < 1 { 1 } else { total })
}

pub fn clip_progress(i: usize, total: usize) -> (r: i32)
    requires
        i <= total,
    ensures
        r == clip_percent(i as int, total as int),
{
    let d: usize = if total < 1 { 1 } else { total };
    assert((i as int) * 45 / (d as int) <= 45) by (nonlinear_arith)
        requires
            i <= d,
            1 <= d,
    ;
    (50 + (i as u128 * 45 / d as u128)) as i32
}

/// What every clip of a standard task goes through.
#[derive(PartialEq, Eq, Structural, Clone, Copy)]
pub struct ClipSteps {
    /// Speaker-aware vertical reframing instead of a centre crop.
    pub reframe: bool,
    /// Hand the reframer the speakers' turns.
    pub speaker_turns: bool,
    /// Translate the caption words.
    pub translate: bool,
    /// Burn captions in.
    pub captions: bool,
    /// Apply an originality boost.
    pub boost: bool,
    /// Add the sentence's emoji to the last caption word.
    pub emoji: bool,
}

pub open spec fn steps_for(
    aspect_ratio: Seq<char>,
    auto_vertical_reframe: bool,
    reframe_layout: Seq<char>,
    speaker_active_switch: bool,
    translate_language: Seq<char>,
    add_subtitles: bool,
    originality_boost: Seq<char>,
    auto_emojis: bool,
) -> ClipSteps {
    let reframe = auto_vertical_reframe && aspect_ratio == "9:16"@;
    ClipSteps {
        reframe,
        speaker_turns: reframe && reframe_layout != "single"@ && speaker_active_switch,
        translate: translate_language.len() > 0 && add_subtitles,
        captions: add_subtitles,
        boost: originality_boost != "none"@,
        emoji: auto_emojis,
    }
}

pub fn clip_steps(
    aspect_ratio: &str,
    auto_vertical_reframe: bool,
    reframe_layout: &str,
    speaker_active_switch: bool,
    translate_language: &str,
    add_subtitles: bool,
    originality_boost: &str,
    auto_emojis: bool,
) -> (r: ClipSteps)
    ensures
        r == steps_for(aspect_ratio@, auto_vertical_reframe, reframe_layout@, speaker_active_switch, translate_language@, add_subtitles, originality_boost@, auto_emojis),
{
    let reframe = auto_vertical_reframe && str_eq(aspect_ratio, "9:16");
    ClipSteps {
        reframe,
        speaker_turns: reframe && !str_eq(reframe_layout, "single") && speaker_active_switch,
        translate: !translate_language.is_empty() && add_subtitles,
        captions: add_subtitles,
        boost: !str_eq(originality_boost, "none"),
        emoji: auto_emojis,
    }
}

/// Adds the emoji to the last caption word (nothing happens without words).
pub fn append_emoji(words: &mut Vec<DeepgramWord>, emoji: &str)
    ensures
        final(words).len() == old(words).len(),
        forall|i: int| 0 <= i < old(words).len() - 1 ==> #[trigger] final(words)[i] == old(words)[i],
        old(words).len() > 0 ==> {
            let last = old(words)[old(words).len() - 1];
            let now = final(words)[old(words).len() - 1];
            &&& now.word@ == last.word@ + " "@ + emoji@
            &&& now.punctuated_word matches Some(p) && p@ == now.word@
            &&& now.start_ms == last.start_ms
            &&& now.end_ms == last.end_ms
            &&& now.speaker == last.speaker
        },
{
    let n = words.len();
    if n == 0 {
        return;
    }
    let last = words.pop().unwrap();
    let mut w = last.word;
    push_str(&mut w, " ");
    push_str(&mut w, emoji);
    let p = w.clone();
    words.push(DeepgramWord { word: w, start_ms: last.start_ms, end_ms: last.end_ms, punctuated_word: Some(p), speaker: last.speaker });
}

} // verus!
