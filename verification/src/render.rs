//! The ffmpeg invocations of the render pipelines, built as argument lists.
//!
//! Durations are milliseconds; ffmpeg is given seconds with three decimals,
//! which a whole number of milliseconds spells exactly.
use vstd::prelude::*;
use crate::text::{owned, push_str, decimal, padded, str_eq, str_replace, replace_all, lowercase, to_lower};
use crate::caption::{push_nat, push_pad};

verus! {

/// The text of each argument.
pub open spec fn views(v: Seq<String>) -> Seq<Seq<char>> {
    v.map_values(|s: String| s@)
}

/// Appends one argument.
pub fn push_arg(v: &mut Vec<String>, s: &str)
    ensures
        views(final(v)@) == views(old(v)@).push(s@),
{
    v.push(owned(s));
    assert(views(final(v)@) =~= views(old(v)@).push(s@));
}

/// `ms` milliseconds as seconds with three decimals (`{:.3}`).
pub open spec fn secs3(ms: nat) -> Seq<char> {
    decimal(ms / 1000) + "."@ + padded(ms % 1000, 3)
}

pub fn push_secs3(out: &mut String, ms: u64)
    ensures
        final(out)@ == old(out)@ + secs3(ms as nat),
{
    let ghost o = out@;
    push_nat(out, ms / 1000);
    push_str(out, ".");
    push_pad(out, ms % 1000, 3);
    assert(out@ =~= o + secs3(ms as nat));
}

pub fn secs3_string(ms: u64) -> (r: String)
    ensures
        r@ == secs3(ms as nat),
{
    let mut out = String::new();
    push_secs3(&mut out, ms);
    assert(out@ =~= secs3(ms as nat));
    out
}

// ---------------------------------------------------------------------------
// Scene clips
// ---------------------------------------------------------------------------

/// A black frame of the canvas size for `ms` milliseconds.
pub open spec fn blank_source(width: nat, height: nat, ms: nat) -> Seq<char> {
    "color=c=black:s="@ + decimal(width) + "x"@ + decimal(height) + ":d="@ + secs3(ms)
}

pub fn blank_source_filter(width: u32, height: u32, ms: u64) -> (r: String)
    ensures
        r@ == blank_source(width as nat, height as nat, ms as nat),
{
    let mut out = owned("color=c=black:s=");
    push_nat(&mut out, width as u64);
    push_str(&mut out, "x");
    push_nat(&mut out, height as u64);
    push_str(&mut out, ":d=");
    push_secs3(&mut out, ms);
    out
}

/// The ffmpeg arguments that render a black placeholder clip.
pub fn placeholder_args(width: u32, height: u32, ms: u64, output: &str) -> (r: Vec<String>)
    ensures
        views(r@) == seq!["-y"@, "-f"@, "lavfi"@, "-i"@, blank_source(width as nat, height as nat, ms as nat),
            "-c:v"@, "libx264"@, "-preset"@, "fast"@, "-crf"@, "23"@, "-pix_fmt"@, "yuv420p"@, output@],
{
    let vf = blank_source_filter(width, height, ms);
    let mut r: Vec<String> = Vec::new();
    push_arg(&mut r, "-y");
    push_arg(&mut r, "-f");
    push_arg(&mut r, "lavfi");
    push_arg(&mut r, "-i");
    push_arg(&mut r, vf.as_str());
    push_arg(&mut r, "-c:v");
    push_arg(&mut r, "libx264");
    push_arg(&mut r, "-preset");
    push_arg(&mut r, "fast");
    push_arg(&mut r, "-crf");
    push_arg(&mut r, "23");
    push_arg(&mut r, "-pix_fmt");
    push_arg(&mut r, "yuv420p");
    push_arg(&mut r, output);
    r
}

/// The colour grade of a studio vibe, appended to a scene's filter chain.
pub open spec fn vibe_grade(vibe: Seq<char>) -> Seq<char> {
    if vibe == "lofi"@ {
        ",colorchannelmixer=.8:.2:.1:.1:.2:.8:.1:.1:.1:.2:.8"@
    } else if vibe == "futuristic"@ {
        ",colorchannelmixer=1.2:0:0:0:0:1.2:0:0:0:0:1.2,hue=45"@
    } else if vibe == "black_and_white"@ {
        ",hue=s=0,colorchannelmixer=.3:.4:.3:0:.3:.4:.3:0:.3:.4:.3"@
    } else {
        ""@
    }
}

pub fn vibe_filter(vibe: &str) -> (r: &'static str)
    ensures
        r@ == vibe_grade(vibe@),
{
    if str_eq(vibe, "lofi") {
        ",colorchannelmixer=.8:.2:.1:.1:.2:.8:.1:.1:.1:.2:.8"
    } else if str_eq(vibe, "futuristic") {
        ",colorchannelmixer=1.2:0:0:0:0:1.2:0:0:0:0:1.2,hue=45"
    } else if str_eq(vibe, "black_and_white") {
        ",hue=s=0,colorchannelmixer=.3:.4:.3:0:.3:.4:.3:0:.3:.4:.3"
    } else {
        ""
    }
}

/// Whether footage with this file extension (lower-cased) is video rather than
/// a still image.
pub open spec fn video_extension(ext: Seq<char>) -> bool {
    let e = lowercase(ext);
    e == "mp4"@ || e == "mov"@ || e == "webm"@ || e == "avi"@ || e == "mkv"@
}

pub fn is_video_extension(ext: &str) -> (b: bool)
    ensures
        b == video_extension(ext@),
{
    let e = to_lower(ext);
    let s = e.as_str();
    str_eq(s, "mp4") || str_eq(s, "mov") || str_eq(s, "webm") || str_eq(s, "avi") || str_eq(s, "mkv")
}

/// The frames of a still image's slow zoom: 30 per second, at least one.
pub open spec fn zoom_frames(ms: nat) -> nat {
    let f = ms * 30 / 1000;
    if f < 1 { 1 } else { f }
}

/// The filter that fits footage to the canvas for one scene: video is scaled
/// to cover and cropped; a still image gets a slow zoom.
pub open spec fn scene_filter(is_video: bool, width: nat, height: nat, ms: nat, vibe: Seq<char>) -> Seq<char> {
    if is_video {
        "scale="@ + decimal(width) + ":"@ + decimal(height) + ":force_original_aspect_ratio=increase,crop="@
            + decimal(width) + ":"@ + decimal(height) + vibe_grade(vibe)
    } else {
        "scale="@ + decimal(width) + "x"@ + decimal(height)
            + ":force_original_aspect_ratio=increase,zoompan=z='min(zoom+0.005,1.3)':d="@ + decimal(zoom_frames(ms))
            + ":s="@ + decimal(width) + "x"@ + decimal(height) + vibe_grade(vibe)
    }
}

pub fn scene_filter_string(is_video: bool, width: u32, height: u32, ms: u64, vibe: &str) -> (r: String)
    requires
        ms <= u64::MAX / 30,
    ensures
        r@ == scene_filter(is_video, width as nat, height as nat, ms as nat, vibe@),
{
    let grade = vibe_filter(vibe);
    let mut out = owned("scale=");
    push_nat(&mut out, width as u64);
    if is_video {
        push_str(&mut out, ":");
        push_nat(&mut out, height as u64);
        push_str(&mut out, ":force_original_aspect_ratio=increase,crop=");
        push_nat(&mut out, width as u64);
        push_str(&mut out, ":");
        push_nat(&mut out, height as u64);
        push_str(&mut out, grade);
        proof {
            assert(out@ =~= scene_filter(is_video, width as nat, height as nat, ms as nat, vibe@));
        }
    } else {
        let f = ms * 30 / 1000;
        let frames: u64 = if f < 1 { 1 } else { f };
        push_str(&mut out, "x");
        push_nat(&mut out, height as u64);
        push_str(&mut out, ":force_original_aspect_ratio=increase,zoompan=z='min(zoom+0.005,1.3)':d=");
        push_nat(&mut out, frames);
        push_str(&mut out, ":s=");
        push_nat(&mut out, width as u64);
        push_str(&mut out, "x");
        push_nat(&mut out, height as u64);
        push_str(&mut out, grade);
        proof {
            assert(out@ =~= scene_filter(is_video, width as nat, height as nat, ms as nat, vibe@));
        }
    }
    out
}

/// The ffmpeg arguments that cut one scene from its footage: video loops and is
/// cut to length without sound; a still image is held and zoomed.
pub open spec fn scene_args(is_video: bool, media: Seq<char>, filter: Seq<char>, ms: nat, output: Seq<char>) -> Seq<Seq<char>> {
    if is_video {
        seq!["-y"@, "-stream_loop"@, "-1"@, "-i"@, media, "-vf"@, filter, "-t"@, secs3(ms),
            "-c:v"@, "libx264"@, "-preset"@, "fast"@, "-crf"@, "18"@, "-pix_fmt"@, "yuv420p"@, "-an"@, "-r"@, "30"@, output]
    } else {
        seq!["-y"@, "-loop"@, "1"@, "-i"@, media, "-vf"@, filter, "-t"@, secs3(ms),
            "-c:v"@, "libx264"@, "-preset"@, "fast"@, "-crf"@, "18"@, "-pix_fmt"@, "yuv420p"@, "-r"@, "30"@, output]
    }
}

pub fn scene_trim_args(is_video: bool, media: &str, width: u32, height: u32, ms: u64, vibe: &str, output: &str) -> (r: Vec<String>)
    requires
        ms <= u64::MAX / 30,
    ensures
        views(r@) == scene_args(is_video, media@, scene_filter(is_video, width as nat, height as nat, ms as nat, vibe@), ms as nat, output@),
{
    let vf = scene_filter_string(is_video, width, height, ms, vibe);
    let dur = secs3_string(ms);
    let mut r: Vec<String> = Vec::new();
    push_arg(&mut r, "-y");
    if is_video {
        push_arg(&mut r, "-stream_loop");
        push_arg(&mut r, "-1");
    } else {
        push_arg(&mut r, "-loop");
        push_arg(&mut r, "1");
    }
    push_arg(&mut r, "-i");
    push_arg(&mut r, media);
    push_arg(&mut r, "-vf");
    push_arg(&mut r, vf.as_str());
    push_arg(&mut r, "-t");
    push_arg(&mut r, dur.as_str());
    push_arg(&mut r, "-c:v");
    push_arg(&mut r, "libx264");
    push_arg(&mut r, "-preset");
    push_arg(&mut r, "fast");
    push_arg(&mut r, "-crf");
    push_arg(&mut r, "18");
    push_arg(&mut r, "-pix_fmt");
    push_arg(&mut r, "yuv420p");
    if is_video {
        push_arg(&mut r, "-an");
    }
    push_arg(&mut r, "-r");
    push_arg(&mut r, "30");
    push_arg(&mut r, output);
    r
}

/// One line of an ffmpeg concat list: the path with back-slashes turned into
/// slashes and single quotes escaped for the quoted form.
pub open spec fn concat_entry(path: Seq<char>) -> Seq<char> {
    "file '"@ + replace_all(replace_all(path, "\\"@, "/"@), "'"@, "'\\''"@) + "'\n"@
}

pub fn concat_line(path: &str) -> (r: String)
    ensures
        r@ == concat_entry(path@),
{
    proof {
        reveal_strlit("\\");
        reveal_strlit("'");
    }
    let slashed = str_replace(path, "\\", "/");
    let quoted = str_replace(slashed.as_str(), "'", "'\\''");
    let mut out = owned("file '");
    push_str(&mut out, quoted.as_str());
    push_str(&mut out, "'\n");
    out
}

/// The concat list for a run of clips.
pub open spec fn concat_list(paths: Seq<Seq<char>>) -> Seq<char>
    decreases paths.len(),
{
    if paths.len() == 0 {
        seq![]
    } else {
        concat_list(paths.drop_last()) + concat_entry(paths.last())
    }
}

pub fn concat_list_text(paths: &Vec<String>) -> (r: String)
    ensures
        r@ == concat_list(views(paths@)),
{
    let mut out = String::new();
    let mut i: usize = 0;
    while i < paths.len()
        invariant
            i <= paths.len(),
            out@ == concat_list(views(paths@).take(i as int)),
        decreases paths.len() - i,
    {
        let line = concat_line(paths[i].as_str());
        push_str(&mut out, line.as_str());
        proof {
            let v = views(paths@);
            assert(v.take(i + 1).drop_last() =~= v.take(i as int));
        }
        i += 1;
    }
    assert(views(paths@).take(paths.len() as int) =~= views(paths@));
    out
}

// ---------------------------------------------------------------------------
// The final studio render
// ---------------------------------------------------------------------------

/// A path as the `subtitles` filter reads it: slashes, and colons escaped.
pub open spec fn filter_path(path: Seq<char>) -> Seq<char> {
    replace_all(replace_all(path, "\\"@, "/"@), ":"@, "\\:"@)
}

pub fn filter_path_string(path: &str) -> (r: String)
    ensures
        r@ == filter_path(path@),
{
    proof {
        reveal_strlit("\\");
        reveal_strlit(":");
    }
    let slashed = str_replace(path, "\\", "/");
    str_replace(slashed.as_str(), ":", "\\:")
}

/// Where the watermark sits for a position name (top right by default).
pub open spec fn overlay_position(pos: Seq<char>) -> Seq<char> {
    if pos == "top_left"@ {
        "30:30"@
    } else if pos == "top_right"@ {
        "W-w-30:30"@
    } else if pos == "bottom_left"@ {
        "30:H-h-30"@
    } else if pos == "bottom_right"@ {
        "W-w-30:H-h-30"@
    } else {
        "W-w-30:30"@
    }
}

pub fn watermark_overlay(pos: &str) -> (r: &'static str)
    ensures
        r@ == overlay_position(pos@),
{
    if str_eq(pos, "top_left") {
        "30:30"
    } else if str_eq(pos, "top_right") {
        "W-w-30:30"
    } else if str_eq(pos, "bottom_left") {
        "30:H-h-30"
    } else if str_eq(pos, "bottom_right") {
        "W-w-30:H-h-30"
    } else {
        "W-w-30:30"
    }
}

/// The watermark's width: 18% of the canvas width, rounded to the nearest pixel.
pub open spec fn watermark_px(width: nat) -> nat {
    (width * 18 + 50) / 100
}

pub fn watermark_width(width: u32) -> (r: u64)
    ensures
        r == watermark_px(width as nat),
{
    (width as u64 * 18 + 50) / 100
}

/// A watermark to overlay: the image, its position name and its opacity as the
/// filter writes it (two decimals).
pub struct Watermark {
    pub path: String,
    pub position: String,
    pub alpha: String,
}

/// The filter graph of the final render: captions burnt in (when a caption file
/// is given), the voice-over passed through, and the watermark overlaid.
pub open spec fn final_filter(subtitles: Option<Seq<char>>, wm: Option<(Seq<char>, Seq<char>)>, width: nat) -> Seq<char> {
    let cap = match subtitles {
        Some(p) => "[0:v]subtitles=filename='"@ + filter_path(p) + "'[vcap]"@,
        None => "[0:v]null[vcap]"@,
    };
    let over = match wm {
        Some((pos, alpha)) => "[2:v]scale="@ + decimal(watermark_px(width)) + ":-1,format=rgba,colorchannelmixer=aa="@ + alpha
            + "[wm];[vcap][wm]overlay="@ + overlay_position(pos) + "[vout]"@,
        None => "[vcap]null[vout]"@,
    };
    cap + "; "@ + "[1:a]acopy[a]"@ + "; "@ + over
}

pub open spec fn wm_view(wm: Option<&Watermark>) -> Option<(Seq<char>, Seq<char>)> {
    match wm {
        Some(w) => Some((w.position@, w.alpha@)),
        None => None,
    }
}

pub open spec fn str_view(o: Option<&str>) -> Option<Seq<char>> {
    match o {
        Some(s) => Some(s@),
        None => None,
    }
}

fn final_filter_string(subtitles: Option<&str>, wm: Option<&Watermark>, width: u32) -> (r: String)
    ensures
        r@ == final_filter(str_view(subtitles), wm_view(wm), width as nat),
{
    let mut out = String::new();
    match subtitles {
        Some(p) => {
            push_str(&mut out, "[0:v]subtitles=filename='");
            let fp = filter_path_string(p);
            push_str(&mut out, fp.as_str());
            push_str(&mut out, "'[vcap]");
        }
        None => push_str(&mut out, "[0:v]null[vcap]"),
    }
    let ghost cap = out@;
    push_str(&mut out, "; ");
    push_str(&mut out, "[1:a]acopy[a]");
    push_str(&mut out, "; ");
    let ghost mid = out@;
    match wm {
        Some(w) => {
            push_str(&mut out, "[2:v]scale=");
            push_nat(&mut out, watermark_width(width));
            push_str(&mut out, ":-1,format=rgba,colorchannelmixer=aa=");
            push_str(&mut out, w.alpha.as_str());
            push_str(&mut out, "[wm];[vcap][wm]overlay=");
            push_str(&mut out, watermark_overlay(w.position.as_str()));
            push_str(&mut out, "[vout]");
        }
        None => push_str(&mut out, "[vcap]null[vout]"),
    }
    assert(out@ =~= final_filter(str_view(subtitles), wm_view(wm), width as nat));
    out
}

/// The ffmpeg arguments of the final studio render: the assembled scenes, the
/// voice-over and, when there is one, the looped watermark image as inputs.
pub open spec fn final_args(
    video: Seq<char>,
    audio: Seq<char>,
    subtitles: Option<Seq<char>>,
    wm: Option<(Seq<char>, Seq<char>, Seq<char>)>,
    width: nat,
    output: Seq<char>,
) -> Seq<Seq<char>> {
    let inputs = seq!["-y"@, "-i"@, video, "-i"@, audio];
    let wm_inputs = match wm {
        Some((path, _, _)) => seq!["-loop"@, "1"@, "-i"@, path],
        None => seq![],
    };
    let graph = final_filter(subtitles, match wm { Some((_, pos, alpha)) => Some((pos, alpha)), None => None }, width);
    inputs + wm_inputs + seq!["-filter_complex"@, graph, "-map"@, "[vout]"@, "-map"@, "[a]"@,
        "-c:v"@, "libx264"@, "-preset"@, "medium"@, "-crf"@, "18"@, "-c:a"@, "aac"@, "-b:a"@, "192k"@,
        "-pix_fmt"@, "yuv420p"@, "-movflags"@, "+faststart"@, "-shortest"@, output]
}

pub open spec fn wm_full_view(wm: Option<&Watermark>) -> Option<(Seq<char>, Seq<char>, Seq<char>)> {
    match wm {
        Some(w) => Some((w.path@, w.position@, w.alpha@)),
        None => None,
    }
}

pub fn final_render_args(
    video: &str,
    audio: &str,
    subtitles: Option<&str>,
    wm: Option<&Watermark>,
    width: u32,
    output: &str,
) -> (r: Vec<String>)
    ensures
        views(r@) == final_args(video@, audio@, str_view(subtitles), wm_full_view(wm), width as nat, output@),
{
    let mut r: Vec<String> = Vec::new();
    push_arg(&mut r, "-y");
    push_arg(&mut r, "-i");
    push_arg(&mut r, video);
    push_arg(&mut r, "-i");
    push_arg(&mut r, audio);
    if let Some(w) = wm {
        push_arg(&mut r, "-loop");
        push_arg(&mut r, "1");
        push_arg(&mut r, "-i");
        push_arg(&mut r, w.path.as_str());
    }
    let graph = final_filter_string(subtitles, wm, width);
    push_arg(&mut r, "-filter_complex");
    push_arg(&mut r, graph.as_str());
    push_arg(&mut r, "-map");
    push_arg(&mut r, "[vout]");
    push_arg(&mut r, "-map");
    push_arg(&mut r, "[a]");
    push_arg(&mut r, "-c:v");
    push_arg(&mut r, "libx264");
    push_arg(&mut r, "-preset");
    push_arg(&mut r, "medium");
    push_arg(&mut r, "-crf");
    push_arg(&mut r, "18");
    push_arg(&mut r, "-c:a");
    push_arg(&mut r, "aac");
    push_arg(&mut r, "-b:a");
    push_arg(&mut r, "192k");
    push_arg(&mut r, "-pix_fmt");
    push_arg(&mut r, "yuv420p");
    push_arg(&mut r, "-movflags");
    push_arg(&mut r, "+faststart");
    push_arg(&mut r, "-shortest");
    push_arg(&mut r, output);
    proof {
        let graph_v = final_filter(str_view(subtitles), wm_view(wm), width as nat);
        assert(views(r@) =~= final_args(video@, audio@, str_view(subtitles), wm_full_view(wm), width as nat, output@));
    }
    r
}

/// The clip record's end time for a studio video of `ms` milliseconds:
/// `0:SS`, the whole seconds padded to two digits.
pub open spec fn studio_end_time(ms: nat) -> Seq<char> {
    "0:"@ + padded(ms / 1000, 2)
}

pub fn studio_end_label(ms: u64) -> (r: String)
    ensures
        r@ == studio_end_time(ms as nat),
{
    let mut out = owned("0:");
    push_pad(&mut out, ms / 1000, 2);
    out
}

/// The tone generated as fallback music for a style: its frequency and
/// amplitude as written into the filter; unknown styles have none.
pub fn bgm_tone(style: &str) -> (r: Result<(&'static str, &'static str), String>)
    ensures
        match r {
            Ok(t) => (style@ == "upbeat"@ && t.0@ == "440"@ && t.1@ == "0.03"@)
                || (style@ == "chill"@ && t.0@ == "220"@ && t.1@ == "0.02"@)
                || (style@ == "cinematic"@ && t.0@ == "110"@ && t.1@ == "0.04"@),
            Err(e) => e@ == "Unknown BGM style: "@ + style@ && style@ != "upbeat"@ && style@ != "chill"@ && style@ != "cinematic"@,
        },
{
    if crate::text::str_eq(style, "upbeat") {
        Ok(("440", "0.03"))
    } else if crate::text::str_eq(style, "chill") {
        Ok(("220", "0.02"))
    } else if crate::text::str_eq(style, "cinematic") {
        Ok(("110", "0.04"))
    } else {
        let mut e = crate::text::owned("Unknown BGM style: ");
        crate::text::push_str(&mut e, style);
        Err(e)
    }
}

/// The filter that lays the music under the voice at 15% volume.
pub fn mix_filter() -> (r: &'static str)
    ensures
        r@ == "[1:a]volume=0.15[bgm];[0:a][bgm]amix=inputs=2:duration=first:dropout_transition=2"@,
{
    "[1:a]volume=0.15[bgm];[0:a][bgm]amix=inputs=2:duration=first:dropout_transition=2"
}

} // verus!
