//! Karaoke captions in the ASS subtitle format.
//!
//! Times are milliseconds. A caption file is a header that fixes the canvas and
//! one `Default` style, followed by one `Dialogue` event per caption line (or,
//! for word-pop styles, one event per spoken word with that word highlighted).
use vstd::prelude::*;
use vstd::utf8::*;
use crate::text::{chars_of, trim_start_matches_chars, string_of, byte_len, byte_slice, char_boundary, owned, push_str, push_chars, push_decimal, push_padded, str_eq, trim_start_matches, trim_end, utf8, decimal, padded, replace_all, replace_chars, uppercase, to_upper, is_whitespace, lowercase, to_lower, contains, occurs_at, str_contains};

verus! {

// ---------------------------------------------------------------------------
// Words and styles
// ---------------------------------------------------------------------------

/// One recognised word with its timing, in milliseconds of source time.
pub struct DeepgramWord {
    pub word: String,
    pub start_ms: u64,
    pub end_ms: u64,
    pub punctuated_word: Option<String>,
    pub speaker: Option<i32>,
}

impl Clone for DeepgramWord {
    fn clone(&self) -> (r: Self)
        ensures
            r == *self,
    {
        let pw = match &self.punctuated_word {
            Some(p) => Some(p.clone()),
            None => None,
        };
        DeepgramWord {
            word: self.word.clone(),
            start_ms: self.start_ms,
            end_ms: self.end_ms,
            punctuated_word: pw,
            speaker: self.speaker,
        }
    }
}

/// Times in caption and transcript code stay below this bound (about 35 000
/// years), so sums and differences of them never overflow.
pub const TIME_BOUND: u64 = 0x4000_0000_0000_0000;

pub open spec fn words_bounded(ws: Seq<DeepgramWord>) -> bool {
    forall|i: int| 0 <= i < ws.len() ==> (#[trigger] ws[i]).start_ms < TIME_BOUND && ws[i].end_ms < TIME_BOUND
}

/// How captions look: font, colours (ASS `&H00BBGGRR&` form), outline, case,
/// animation, line length and vertical position (percent of the height).
pub struct CaptionStyle {
    pub font_family: String,
    pub font_size: i32,
    pub primary_color: String,
    pub highlight_color: String,
    pub stroke_color: String,
    pub stroke_width: i32,
    pub show_hook_title: bool,
    pub uppercase: bool,
    pub word_pop: bool,
    pub background: bool,
    pub glow: bool,
    pub max_words_per_line: usize,
    pub position_y_percent: u32,
}

// ---------------------------------------------------------------------------
// Colours
// ---------------------------------------------------------------------------

/// The `&H00BBGGRR&` form of a `#RRGGBB` colour; anything whose hex part is not
/// six bytes long becomes white. The hex part is the colour with all leading
/// `#` removed, and its three byte pairs are read as text.
pub open spec fn ass_color(hex: Seq<char>) -> Seq<char> {
    let h = trim_start_matches(hex, "#"@);
    let b = utf8(h);
    if b.len() != 6 {
        "&H00FFFFFF&"@
    } else {
        "&H00"@ + decode_utf8(b.subrange(4, 6)) + decode_utf8(b.subrange(2, 4)) + decode_utf8(
            b.subrange(0, 2),
        ) + "&"@
    }
}

/// Whether a colour can be converted: its byte pairs are cut at byte offsets
/// 2 and 4 of a six-byte hex part, which must fall between characters.
pub open spec fn hex_sliceable(hex: Seq<char>) -> bool {
    let b = utf8(trim_start_matches(hex, "#"@));
    b.len() == 6 ==> is_char_boundary(b, 2) && is_char_boundary(b, 4)
}

/// Checks that a colour can be converted (`hex_sliceable`).
pub fn colour_sliceable(hex: &str) -> (r: bool)
    ensures
        r == hex_sliceable(hex@),
{
    let cs = chars_of(hex);
    let hash: Vec<char> = vec!['#'];
    assert(hash@ =~= "#"@) by {
        reveal_strlit("#");
    }
    let hv = trim_start_matches_chars(&cs, &hash);
    let h = string_of(&hv);
    let hs = h.as_str();
    byte_len(hs) != 6 || (char_boundary(hs, 2) && char_boundary(hs, 4))
}

/// Converts `#RRGGBB` to the ASS colour `&H00BBGGRR&`.
pub fn hex_to_ass(hex: &str) -> (r: String)
    requires
        hex_sliceable(hex@),
    ensures
        r@ == ass_color(hex@),
{
    let cs = chars_of(hex);
    let hash: Vec<char> = vec!['#'];
    assert(hash@ =~= "#"@) by {
        reveal_strlit("#");
    }
    let hv = trim_start_matches_chars(&cs, &hash);
    let h = string_of(&hv);
    let hs = h.as_str();
    if byte_len(hs) != 6 {
        return owned("&H00FFFFFF&");
    }
    proof {
        encode_utf8_valid_utf8(hs@);
        is_char_boundary_start_end_of_seq(utf8(hs@));
    }
    let r = byte_slice(hs, 0, 2);
    let g = byte_slice(hs, 2, 4);
    let b = byte_slice(hs, 4, 6);
    let mut out = owned("&H00");
    push_str(&mut out, b.as_str());
    push_str(&mut out, g.as_str());
    push_str(&mut out, r.as_str());
    push_str(&mut out, "&");
    out
}

/// Applies a task's caption settings on top of a template: a `#RRGGBB`
/// highlight colour (ignored unless its hex part is six bytes) and the word-pop
/// animation when the animation is `word_pop`.
pub fn apply_caption_settings(style: &mut CaptionStyle, highlight: &str, animation: &str)
    requires
        hex_sliceable(highlight@),
    ensures
        final(style).highlight_color@ == (if utf8(trim_start_matches(highlight@, "#"@)).len() == 6 {
            ass_color(highlight@)
        } else {
            old(style).highlight_color@
        }),
        final(style).word_pop == (animation@ == "word_pop"@),
        final(style).font_family == old(style).font_family,
        final(style).font_size == old(style).font_size,
        final(style).primary_color == old(style).primary_color,
        final(style).stroke_color == old(style).stroke_color,
        final(style).stroke_width == old(style).stroke_width,
        final(style).show_hook_title == old(style).show_hook_title,
        final(style).uppercase == old(style).uppercase,
        final(style).background == old(style).background,
        final(style).glow == old(style).glow,
        final(style).max_words_per_line == old(style).max_words_per_line,
        final(style).position_y_percent == old(style).position_y_percent,
{
    let cs = chars_of(highlight);
    let hash: Vec<char> = vec!['#'];
    assert(hash@ =~= "#"@) by {
        reveal_strlit("#");
    }
    let hv = trim_start_matches_chars(&cs, &hash);
    let h = string_of(&hv);
    if byte_len(h.as_str()) == 6 {
        style.highlight_color = hex_to_ass(highlight);
    }
    style.word_pop = str_eq(animation, "word_pop");
}

// ---------------------------------------------------------------------------
// Presets
// ---------------------------------------------------------------------------

/// What a caption style holds, as plain values.
pub struct StyleSpec {
    pub font_family: Seq<char>,
    pub font_size: int,
    pub primary_color: Seq<char>,
    pub highlight_color: Seq<char>,
    pub stroke_color: Seq<char>,
    pub stroke_width: int,
    pub show_hook_title: bool,
    pub uppercase: bool,
    pub word_pop: bool,
    pub background: bool,
    pub glow: bool,
    pub max_words_per_line: nat,
    pub position_y_percent: nat,
}

impl CaptionStyle {
    pub open spec fn spec(&self) -> StyleSpec {
        StyleSpec {
            font_family: self.font_family@,
            font_size: self.font_size as int,
            primary_color: self.primary_color@,
            highlight_color: self.highlight_color@,
            stroke_color: self.stroke_color@,
            stroke_width: self.stroke_width as int,
            show_hook_title: self.show_hook_title,
            uppercase: self.uppercase,
            word_pop: self.word_pop,
            background: self.background,
            glow: self.glow,
            max_words_per_line: self.max_words_per_line as nat,
            position_y_percent: self.position_y_percent as nat,
        }
    }
}

pub open spec fn preset(
    family: Seq<char>,
    size: int,
    primary: Seq<char>,
    highlight: Seq<char>,
    stroke: Seq<char>,
    stroke_width: int,
    uppercase: bool,
    word_pop: bool,
    background: bool,
    glow: bool,
    max_words: nat,
    y_percent: nat,
) -> StyleSpec {
    StyleSpec {
        font_family: family,
        font_size: size,
        primary_color: primary,
        highlight_color: highlight,
        stroke_color: stroke,
        stroke_width: stroke_width,
        show_hook_title: false,
        uppercase: uppercase,
        word_pop: word_pop,
        background: background,
        glow: glow,
        max_words_per_line: max_words,
        position_y_percent: y_percent,
    }
}

/// The templates with a style of their own; any other name uses the caller's
/// font, size and colour.
pub open spec fn named_template(t: Seq<char>) -> bool {
    t == "bold"@ || t == "hormozi"@ || t == "vibrant"@ || t == "mrbeast"@ || t == "tiktok"@ || t == "neon"@
        || t == "podcast"@ || t == "minimal"@ || t == "cinematic"@ || t == "cyber"@ || t == "clean"@
}

/// Whether a template has a style of its own (`named_template`).
pub fn is_named_template(t: &str) -> (r: bool)
    ensures
        r == named_template(t@),
{
    str_eq(t, "bold") || str_eq(t, "hormozi") || str_eq(t, "vibrant") || str_eq(t, "mrbeast") || str_eq(t, "tiktok")
        || str_eq(t, "neon") || str_eq(t, "podcast") || str_eq(t, "minimal") || str_eq(t, "cinematic")
        || str_eq(t, "cyber") || str_eq(t, "clean")
}

/// The style a caption template names. Unknown templates use the caller's font,
/// size (at least 44) and colour.
pub open spec fn caption_style_for(t: Seq<char>, family: Seq<char>, size: int, color: Seq<char>) -> StyleSpec {
    if t == "bold"@ || t == "hormozi"@ {
        preset("THEBOLDFONT"@, 48, "&H00FFFFFF&"@, "&H0066FF00&"@, "&H00000000&"@, 5, true, true, false, false, 3, 74)
    } else if t == "vibrant"@ || t == "mrbeast"@ {
        preset("THEBOLDFONT"@, 52, "&H0000FFFF&"@, "&H002D2DFF&"@, "&H00000000&"@, 6, true, true, false, false, 3, 70)
    } else if t == "tiktok"@ {
        preset("TikTokSans-Regular"@, 44, "&H00FFFFFF&"@, "&H00552CFE&"@, "&H00000000&"@, 4, true, true, false, false, 4, 78)
    } else if t == "neon"@ {
        preset("THEBOLDFONT"@, 46, "&H00FFFF00&"@, "&H00FF00FF&"@, "&H006B2A00&"@, 3, true, true, false, true, 4, 76)
    } else if t == "podcast"@ {
        preset("TikTokSans-Regular"@, 40, "&H00FFFFFF&"@, "&H0000B8FF&"@, "&H001A1A1A&"@, 3, true, true, true, false, 5, 80)
    } else if t == "minimal"@ {
        preset("TikTokSans-Regular"@, 38, "&H00FFFFFF&"@, "&H00FFFFFF&"@, "&H00000000&"@, 1, true, false, true, false, 6, 82)
    } else if t == "cinematic"@ {
        preset("THEBOLDFONT"@, 44, "&H0000D7FF&"@, "&H00FFFFFF&"@, "&H00000000&"@, 4, true, true, false, false, 4, 75)
    } else if t == "cyber"@ {
        preset("THEBOLDFONT"@, 48, "&H0014FF39&"@, "&H00FFFF00&"@, "&H00000000&"@, 5, true, true, false, true, 3, 76)
    } else if t == "clean"@ {
        preset("TikTokSans-Regular"@, 42, "&H00FFFFFF&"@, "&H0000E0FF&"@, "&H00000000&"@, 3, true, true, true, false, 4, 78)
    } else {
        preset(family, if size < 44 { 44 } else { size }, ass_color(color), "&H0000E0FF&"@, "&H00000000&"@, 4, true, true, false, false, 4, 80)
    }
}

fn make_style(
    family: &str,
    size: i32,
    primary: String,
    highlight: &str,
    stroke: &str,
    stroke_width: i32,
    uppercase: bool,
    word_pop: bool,
    background: bool,
    glow: bool,
    max_words: usize,
    y_percent: u32,
) -> (s: CaptionStyle)
    ensures
        s.spec() == preset(family@, size as int, primary@, highlight@, stroke@, stroke_width as int, uppercase, word_pop, background, glow, max_words as nat, y_percent as nat),
{
    CaptionStyle {
        font_family: owned(family),
        font_size: size,
        primary_color: primary,
        highlight_color: owned(highlight),
        stroke_color: owned(stroke),
        stroke_width,
        show_hook_title: false,
        uppercase,
        word_pop,
        background,
        glow,
        max_words_per_line: max_words,
        position_y_percent: y_percent,
    }
}

/// The caption style for a template name, falling back to the caller's font,
/// size and colour.
pub fn get_caption_style(template: &str, font_family: &str, font_size: i32, font_color: &str) -> (s: CaptionStyle)
    requires
        !named_template(template@) ==> hex_sliceable(font_color@),
    ensures
        s.spec() == caption_style_for(template@, font_family@, font_size as int, font_color@),
{
    let t = template;
    if str_eq(t, "bold") || str_eq(t, "hormozi") {
        make_style("THEBOLDFONT", 48, owned("&H00FFFFFF&"), "&H0066FF00&", "&H00000000&", 5, true, true, false, false, 3, 74)
    } else if str_eq(t, "vibrant") || str_eq(t, "mrbeast") {
        make_style("THEBOLDFONT", 52, owned("&H0000FFFF&"), "&H002D2DFF&", "&H00000000&", 6, true, true, false, false, 3, 70)
    } else if str_eq(t, "tiktok") {
        make_style("TikTokSans-Regular", 44, owned("&H00FFFFFF&"), "&H00552CFE&", "&H00000000&", 4, true, true, false, false, 4, 78)
    } else if str_eq(t, "neon") {
        make_style("THEBOLDFONT", 46, owned("&H00FFFF00&"), "&H00FF00FF&", "&H006B2A00&", 3, true, true, false, true, 4, 76)
    } else if str_eq(t, "podcast") {
        make_style("TikTokSans-Regular", 40, owned("&H00FFFFFF&"), "&H0000B8FF&", "&H001A1A1A&", 3, true, true, true, false, 5, 80)
    } else if str_eq(t, "minimal") {
        make_style("TikTokSans-Regular", 38, owned("&H00FFFFFF&"), "&H00FFFFFF&", "&H00000000&", 1, true, false, true, false, 6, 82)
    } else if str_eq(t, "cinematic") {
        make_style("THEBOLDFONT", 44, owned("&H0000D7FF&"), "&H00FFFFFF&", "&H00000000&", 4, true, true, false, false, 4, 75)
    } else if str_eq(t, "cyber") {
        make_style("THEBOLDFONT", 48, owned("&H0014FF39&"), "&H00FFFF00&", "&H00000000&", 5, true, true, false, true, 3, 76)
    } else if str_eq(t, "clean") {
        make_style("TikTokSans-Regular", 42, owned("&H00FFFFFF&"), "&H0000E0FF&", "&H00000000&", 3, true, true, true, false, 4, 78)
    } else {
        let size = if font_size < 44 { 44 } else { font_size };
        make_style(font_family, size, hex_to_ass(font_color), "&H0000E0FF&", "&H00000000&", 4, true, true, false, false, 4, 80)
    }
}


// ---------------------------------------------------------------------------
// Text pieces
// ---------------------------------------------------------------------------

/// ASS override blocks use `\`, `{` and `}`; caption text escapes them.
#[verifier::opaque]
pub open spec fn escape(t: Seq<char>) -> Seq<char> {
    replace_all(replace_all(replace_all(t, "\\"@, "\\\\"@), "{"@, "\\{"@), "}"@, "\\}"@)
}

/// Escapes backslashes and braces for ASS dialogue text.
pub fn escape_ass(text: &str) -> (r: String)
    ensures
        r@ == escape(text@),
{
    let t = chars_of(text);
    let bs: Vec<char> = vec!['\\'];
    let bs2: Vec<char> = vec!['\\', '\\'];
    let ob: Vec<char> = vec!['{'];
    let ob2: Vec<char> = vec!['\\', '{'];
    let cb: Vec<char> = vec!['}'];
    let cb2: Vec<char> = vec!['\\', '}'];
    proof {
        reveal_strlit("\\");
        reveal_strlit("\\\\");
        reveal_strlit("{");
        reveal_strlit("\\{");
        reveal_strlit("}");
        reveal_strlit("\\}");
        assert(bs@ =~= "\\"@);
        assert(bs2@ =~= "\\\\"@);
        assert(ob@ =~= "{"@);
        assert(ob2@ =~= "\\{"@);
        assert(cb@ =~= "}"@);
        assert(cb2@ =~= "\\}"@);
    }
    let a = replace_chars(&t, &bs, &bs2);
    let b = replace_chars(&a, &ob, &ob2);
    let c = replace_chars(&b, &cb, &cb2);
    proof {
        reveal(escape);
    }
    string_of(&c)
}

/// A signed number as `Display` writes it.
pub open spec fn int_decimal(n: int) -> Seq<char> {
    if n < 0 {
        "-"@ + decimal((-n) as nat)
    } else {
        decimal(n as nat)
    }
}

pub fn push_int(out: &mut String, n: i64)
    ensures
        final(out)@ == old(out)@ + int_decimal(n as int),
{
    let mut v: Vec<char> = Vec::new();
    if n < 0 {
        push_str(out, "-");
        let m: u64 = if n == i64::MIN { 0x8000_0000_0000_0000u64 } else { (-n) as u64 };
        push_decimal(&mut v, m);
    } else {
        push_decimal(&mut v, n as u64);
    }
    assert(v@ =~= Seq::<char>::empty() + v@);
    push_chars(out, &v);
    proof {
        if n < 0 {
            assert(final(out)@ =~= old(out)@ + ("-"@ + decimal((-n) as nat)));
        }
    }
}

pub fn push_nat(out: &mut String, n: u64)
    ensures
        final(out)@ == old(out)@ + decimal(n as nat),
{
    let mut v: Vec<char> = Vec::new();
    push_decimal(&mut v, n);
    assert(v@ =~= decimal(n as nat));
    push_chars(out, &v);
}

pub fn push_pad(out: &mut String, n: u64, width: usize)
    ensures
        final(out)@ == old(out)@ + padded(n as nat, width as nat),
{
    let mut v: Vec<char> = Vec::new();
    push_padded(&mut v, n, width);
    assert(v@ =~= padded(n as nat, width as nat));
    push_chars(out, &v);
}

/// `H:MM:SS.CC`, the ASS time of `t` milliseconds (negative times print as 0),
/// with the seconds rounded to hundredths.
#[verifier::opaque]
pub open spec fn ass_ts(t: int) -> Seq<char> {
    let ms = if t < 0 { 0 } else { t };
    let cs = (ms % 60000 + 5) / 10;
    decimal((ms / 3600000) as nat) + ":"@ + padded(((ms % 3600000) / 60000) as nat, 2) + ":"@
        + padded((cs / 100) as nat, 2) + "."@ + padded((cs % 100) as nat, 2)
}

pub fn push_ass_ts(out: &mut String, t: i64)
    ensures
        final(out)@ == old(out)@ + ass_ts(t as int),
{
    let ms: u64 = if t < 0 { 0 } else { t as u64 };
    let cs = (ms % 60000 + 5) / 10;
    let ghost o = out@;
    push_nat(out, ms / 3600000);
    push_str(out, ":");
    push_pad(out, (ms % 3600000) / 60000, 2);
    push_str(out, ":");
    push_pad(out, cs / 100, 2);
    push_str(out, ".");
    push_pad(out, cs % 100, 2);
    reveal(ass_ts);
    assert(out@ =~= o + ass_ts(t as int));
}

/// The ASS timestamp of `ms` milliseconds.
pub fn ass_timestamp(ms: i64) -> (r: String)
    ensures
        r@ == ass_ts(ms as int),
{
    let mut out = String::new();
    push_ass_ts(&mut out, ms);
    assert(out@ =~= ass_ts(ms as int));
    out
}

/// What a caption shows for a word: its punctuated form when there is one,
/// upper-cased when the style says so.
pub open spec fn shown_text(w: DeepgramWord, upper: bool) -> Seq<char> {
    let t = match w.punctuated_word {
        Some(p) => p@,
        None => w.word@,
    };
    if upper {
        uppercase(t)
    } else {
        t
    }
}

pub fn word_text(w: &DeepgramWord, upper: bool) -> (r: String)
    ensures
        r@ == shown_text(*w, upper),
{
    let t: &str = match &w.punctuated_word {
        Some(p) => p.as_str(),
        None => w.word.as_str(),
    };
    if upper {
        to_upper(t)
    } else {
        owned(t)
    }
}

/// One `Dialogue` event at canvas position `(x, y)`; `tag` goes after the
/// position override.
#[verifier::opaque]
pub open spec fn dialogue(start: int, end: int, x: nat, y: nat, tag: Seq<char>, text: Seq<char>) -> Seq<char> {
    "Dialogue: 0,"@ + ass_ts(start) + ","@ + ass_ts(end) + ",Default,,0,0,0,,{\\pos("@ + decimal(x) + ","@
        + decimal(y) + ")"@ + tag + "}"@ + text + "\n"@
}

fn push_dialogue(out: &mut String, start: i64, end: i64, x: u64, y: u64, tag: &str, text: &str)
    ensures
        final(out)@ == old(out)@ + dialogue(start as int, end as int, x as nat, y as nat, tag@, text@),
{
    let ghost o = out@;
    push_str(out, "Dialogue: 0,");
    push_ass_ts(out, start);
    push_str(out, ",");
    push_ass_ts(out, end);
    push_str(out, ",Default,,0,0,0,,{\\pos(");
    push_nat(out, x);
    push_str(out, ",");
    push_nat(out, y);
    push_str(out, ")");
    push_str(out, tag);
    push_str(out, "}");
    push_str(out, text);
    push_str(out, "\n");
    reveal(dialogue);
    assert(out@ =~= o + dialogue(start as int, end as int, x as nat, y as nat, tag@, text@));
}

/// A word in a word-pop line: the spoken word gets the highlight colour and a
/// slight zoom, the others the primary colour.
#[verifier::opaque]
pub open spec fn pop_token(text: Seq<char>, spoken: bool, style: StyleSpec) -> Seq<char> {
    if spoken {
        "{\\c"@ + style.highlight_color + "\\fscx110\\fscy110}"@ + escape(text) + "{\\r} "@
    } else {
        "{\\c"@ + style.primary_color + "}"@ + escape(text) + " "@
    }
}

fn push_pop_token(out: &mut String, text: &str, spoken: bool, style: &CaptionStyle)
    ensures
        final(out)@ == old(out)@ + pop_token(text@, spoken, style.spec()),
{
    let ghost o = out@;
    let e = escape_ass(text);
    if spoken {
        push_str(out, "{\\c");
        push_str(out, style.highlight_color.as_str());
        push_str(out, "\\fscx110\\fscy110}");
        push_str(out, e.as_str());
        push_str(out, "{\\r} ");
    } else {
        push_str(out, "{\\c");
        push_str(out, style.primary_color.as_str());
        push_str(out, "}");
        push_str(out, e.as_str());
        push_str(out, " ");
    }
    reveal(pop_token);
    assert(out@ =~= o + pop_token(text@, spoken, style.spec()));
}

/// The words of a line joined by single spaces.
pub open spec fn join_space(parts: Seq<Seq<char>>) -> Seq<char>
    decreases parts.len(),
{
    if parts.len() == 0 {
        seq![]
    } else if parts.len() == 1 {
        parts[0]
    } else {
        join_space(parts.drop_last()) + " "@ + parts.last()
    }
}

// ---------------------------------------------------------------------------
// Lines of a clip's captions
// ---------------------------------------------------------------------------

/// The word-pop line with word `i` highlighted, over the first `n` words.
pub open spec fn pop_line(words: Seq<DeepgramWord>, i: int, n: int, style: StyleSpec) -> Seq<char>
    decreases n,
{
    if n <= 0 {
        seq![]
    } else {
        pop_line(words, i, n - 1, style) + pop_token(shown_text(words[n - 1], style.uppercase), i == n - 1, style)
    }
}

pub open spec fn max_int(a: int, b: int) -> int {
    if a >= b { a } else { b }
}

/// The events for the first `n` words of a word-pop line: word `i` is
/// highlighted from its start (relative to the clip, at least 0) to its end
/// (at least 100 ms later).
pub open spec fn pop_events(words: Seq<DeepgramWord>, n: int, clip_start: int, style: StyleSpec, y: nat, width: nat) -> Seq<char>
    decreases n,
{
    if n <= 0 {
        seq![]
    } else {
        let w = words[n - 1];
        let ws = max_int(w.start_ms - clip_start, 0);
        let we = max_int(w.end_ms - clip_start, ws + 100);
        pop_events(words, n - 1, clip_start, style, y, width) + dialogue(
            ws,
            we,
            width / 2,
            y,
            seq![],
            trim_end(pop_line(words, n - 1, words.len() as int, style)),
        )
    }
}

/// The words' caption texts.
pub open spec fn line_texts(words: Seq<DeepgramWord>, upper: bool) -> Seq<Seq<char>> {
    Seq::new(words.len(), |i: int| shown_text(words[i], upper))
}

/// The events of one caption line: one per word for word-pop styles, else one
/// for the whole line in the primary colour.
pub open spec fn line_events(words: Seq<DeepgramWord>, clip_start: int, style: StyleSpec, y: nat, width: nat) -> Seq<char> {
    if words.len() == 0 {
        seq![]
    } else if style.word_pop {
        pop_events(words, words.len() as int, clip_start, style, y, width)
    } else {
        let ls = words[0].start_ms - clip_start;
        let le = words.last().end_ms - clip_start;
        dialogue(ls, max_int(le, ls + 100), width / 2, y, "\\c"@ + style.primary_color, escape(join_space(line_texts(words, style.uppercase))))
    }
}

fn pop_line_text(words: &Vec<DeepgramWord>, i: usize, style: &CaptionStyle) -> (r: String)
    ensures
        r@ == pop_line(words@, i as int, words.len() as int, style.spec()),
{
    let mut out = String::new();
    let mut j: usize = 0;
    while j < words.len()
        invariant
            j <= words.len(),
            out@ == pop_line(words@, i as int, j as int, style.spec()),
        decreases words.len() - j,
    {
        let t = word_text(&words[j], style.uppercase);
        push_pop_token(&mut out, t.as_str(), i == j, style);
        j += 1;
    }
    out
}

fn push_pop_events(out: &mut String, words: &Vec<DeepgramWord>, clip_start: u64, style: &CaptionStyle, y_pos: u32, width: u32)
    requires
        words_bounded(words@),
        clip_start < TIME_BOUND,
    ensures
        final(out)@ == old(out)@ + pop_events(words@, words.len() as int, clip_start as int, style.spec(), y_pos as nat, width as nat),
{
    let ghost o = out@;
    let mut i: usize = 0;
    while i < words.len()
        invariant
            i <= words.len(),
            words_bounded(words@),
            clip_start < TIME_BOUND,
            out@ == o + pop_events(words@, i as int, clip_start as int, style.spec(), y_pos as nat, width as nat),
        decreases words.len() - i,
    {
        let w = &words[i];
        let rs = w.start_ms as i64 - clip_start as i64;
        let ws: i64 = if rs > 0 { rs } else { 0 };
        let re = w.end_ms as i64 - clip_start as i64;
        let we: i64 = if re >= ws + 100 { re } else { ws + 100 };
        let line = pop_line_text(words, i, style);
        let lc = chars_of(line.as_str());
        let tc = trim_end_chars(&lc);
        let text = string_of(&tc);
        proof {
            reveal_strlit("");
            assert(""@ =~= Seq::<char>::empty());
        }
        push_dialogue(out, ws, we, (width / 2) as u64, y_pos as u64, "", text.as_str());
        i += 1;
    }
}

fn push_static_line(out: &mut String, words: &Vec<DeepgramWord>, clip_start: u64, style: &CaptionStyle, y_pos: u32, width: u32)
    requires
        words.len() > 0,
        words_bounded(words@),
        clip_start < TIME_BOUND,
        !style.word_pop,
    ensures
        final(out)@ == old(out)@ + line_events(words@, clip_start as int, style.spec(), y_pos as nat, width as nat),
{
    let first = &words[0];
    let last = &words[words.len() - 1];
    let ls = first.start_ms as i64 - clip_start as i64;
    let le = last.end_ms as i64 - clip_start as i64;
    let end: i64 = if le >= ls + 100 { le } else { ls + 100 };
    let joined = joined_text(words, style.uppercase);
    let esc = escape_ass(joined.as_str());
    let mut tag = owned("\\c");
    push_str(&mut tag, style.primary_color.as_str());
    push_dialogue(out, ls, end, (width / 2) as u64, y_pos as u64, tag.as_str(), esc.as_str());
}

/// The words' caption texts joined by single spaces.
pub fn joined_text(words: &Vec<DeepgramWord>, upper: bool) -> (r: String)
    ensures
        r@ == join_space(line_texts(words@, upper)),
{
    let mut joined = String::new();
    let mut j: usize = 0;
    while j < words.len()
        invariant
            j <= words.len(),
            joined@ == join_space(line_texts(words@, upper).take(j as int)),
        decreases words.len() - j,
    {
        let t = word_text(&words[j], upper);
        if j > 0 {
            push_str(&mut joined, " ");
        }
        push_str(&mut joined, t.as_str());
        proof {
            let lt = line_texts(words@, upper);
            assert(lt.take(j + 1).drop_last() =~= lt.take(j as int));
            if j == 0 {
                assert(joined@ =~= lt.take(1)[0]);
            }
        }
        j += 1;
    }
    proof {
        assert(line_texts(words@, upper).take(words.len() as int) =~= line_texts(words@, upper));
    }
    joined
}

/// Writes the events of one caption line.
pub fn flush_caption_line(out: &mut String, words: &Vec<DeepgramWord>, clip_start: u64, style: &CaptionStyle, y_pos: u32, width: u32)
    requires
        words_bounded(words@),
        clip_start < TIME_BOUND,
    ensures
        final(out)@ == old(out)@ + line_events(words@, clip_start as int, style.spec(), y_pos as nat, width as nat),
{
    if words.len() == 0 {
        assert(out@ =~= out@ + Seq::<char>::empty());
    } else if style.word_pop {
        push_pop_events(out, words, clip_start, style, y_pos, width);
    } else {
        push_static_line(out, words, clip_start, style, y_pos, width);
    }
}

/// Trims trailing white space from a character vector.
pub fn trim_end_chars(s: &Vec<char>) -> (out: Vec<char>)
    ensures
        out@ == trim_end(s@),
{
    let mut e: usize = s.len();
    assert(s@.take(s.len() as int) =~= s@);
    while e > 0 && is_whitespace(s[e - 1])
        invariant
            e <= s.len(),
            trim_end(s@) == trim_end(s@.take(e as int)),
        decreases e,
    {
        proof {
            assert(s@.take(e as int).drop_last() =~= s@.take(e - 1));
        }
        e -= 1;
    }
    let mut out: Vec<char> = Vec::new();
    let mut k: usize = 0;
    while k < e
        invariant
            k <= e <= s.len(),
            out@ == s@.take(k as int),
        decreases e - k,
    {
        out.push(s[k]);
        k += 1;
    }
    proof {
        let t = s@.take(e as int);
        if e > 0 {
            assert(t.last() == s@[e - 1]);
        }
        assert(trim_end(t) == t);
    }
    out
}


// ---------------------------------------------------------------------------
// Emoji
// ---------------------------------------------------------------------------

/// Keywords and the emoji that a caption line gains when its sentence mentions
/// them, in the order they are tried.
pub open spec fn emoji_pairs() -> Seq<(&'static str, &'static str)> {
    seq![
        ("love", "\u{2764}\u{FE0F}"), ("fire", "\u{1F525}"), ("money", "\u{1F4B0}"), ("mind", "\u{1F9E0}"),
        ("brain", "\u{1F9E0}"), ("rocket", "\u{1F680}"), ("fast", "\u{26A1}"), ("power", "\u{1F4AA}"),
        ("strong", "\u{1F4AA}"), ("winner", "\u{1F3C6}"), ("win", "\u{1F3C6}"), ("goal", "\u{1F3AF}"),
        ("star", "\u{2B50}"), ("shining", "\u{2728}"), ("sparkle", "\u{2728}"), ("magic", "\u{2728}"),
        ("heart", "\u{2764}\u{FE0F}"), ("cool", "\u{1F60E}"), ("awesome", "\u{1F525}"), ("amazing", "\u{1F525}"),
        ("crazy", "\u{1F92F}"), ("wow", "\u{1F62E}"), ("shock", "\u{1F631}"), ("laugh", "\u{1F602}"),
        ("funny", "\u{1F602}"), ("sad", "\u{1F622}"), ("cry", "\u{1F62D}"), ("idea", "\u{1F4A1}"),
        ("lightbulb", "\u{1F4A1}"), ("book", "\u{1F4DA}"), ("music", "\u{1F3B5}"), ("camera", "\u{1F4F7}"),
        ("video", "\u{1F3A5}"), ("film", "\u{1F3AC}"), ("game", "\u{1F3AE}"), ("phone", "\u{1F4F1}"),
        ("computer", "\u{1F4BB}"), ("code", "\u{1F4BB}"), ("web", "\u{1F310}"), ("world", "\u{1F30D}"),
        ("travel", "\u{2708}\u{FE0F}"), ("car", "\u{1F697}"), ("food", "\u{1F354}"), ("coffee", "\u{2615}"),
        ("sun", "\u{2600}\u{FE0F}"), ("moon", "\u{1F319}"), ("nature", "\u{1F33F}"), ("dog", "\u{1F436}"),
        ("cat", "\u{1F431}"), ("robot", "\u{1F916}"), ("alien", "\u{1F47D}"), ("100", "\u{1F4AF}"),
        ("perfect", "\u{1F4AF}"), ("time", "\u{23F0}"), ("clock", "\u{23F0}"),
    ]
}

/// The emoji of the first keyword that occurs in `lower`, searching from entry `i`.
pub open spec fn first_emoji(lower: Seq<char>, i: int) -> Option<Seq<char>>
    decreases emoji_pairs().len() - i,
{
    if i < 0 || i >= emoji_pairs().len() {
        None
    } else if contains(lower, emoji_pairs()[i].0@) {
        Some(emoji_pairs()[i].1@)
    } else {
        first_emoji(lower, i + 1)
    }
}

/// The emoji for a sentence: that of the first keyword found in its lower-cased text.
pub open spec fn sentence_emoji(text: Seq<char>) -> Option<Seq<char>> {
    first_emoji(lowercase(text), 0)
}

/// Picks an emoji matching the sentence's content, if any keyword occurs.
pub fn get_sentence_emoji(text: &str) -> (r: Option<&'static str>)
    ensures
        match (r, sentence_emoji(text@)) {
            (Some(a), Some(b)) => a@ == b,
            (None, None) => true,
            _ => false,
        },
{
    let pairs: Vec<(&'static str, &'static str)> = vec![
        ("love", "\u{2764}\u{FE0F}"), ("fire", "\u{1F525}"), ("money", "\u{1F4B0}"), ("mind", "\u{1F9E0}"),
        ("brain", "\u{1F9E0}"), ("rocket", "\u{1F680}"), ("fast", "\u{26A1}"), ("power", "\u{1F4AA}"),
        ("strong", "\u{1F4AA}"), ("winner", "\u{1F3C6}"), ("win", "\u{1F3C6}"), ("goal", "\u{1F3AF}"),
        ("star", "\u{2B50}"), ("shining", "\u{2728}"), ("sparkle", "\u{2728}"), ("magic", "\u{2728}"),
        ("heart", "\u{2764}\u{FE0F}"), ("cool", "\u{1F60E}"), ("awesome", "\u{1F525}"), ("amazing", "\u{1F525}"),
        ("crazy", "\u{1F92F}"), ("wow", "\u{1F62E}"), ("shock", "\u{1F631}"), ("laugh", "\u{1F602}"),
        ("funny", "\u{1F602}"), ("sad", "\u{1F622}"), ("cry", "\u{1F62D}"), ("idea", "\u{1F4A1}"),
        ("lightbulb", "\u{1F4A1}"), ("book", "\u{1F4DA}"), ("music", "\u{1F3B5}"), ("camera", "\u{1F4F7}"),
        ("video", "\u{1F3A5}"), ("film", "\u{1F3AC}"), ("game", "\u{1F3AE}"), ("phone", "\u{1F4F1}"),
        ("computer", "\u{1F4BB}"), ("code", "\u{1F4BB}"), ("web", "\u{1F310}"), ("world", "\u{1F30D}"),
        ("travel", "\u{2708}\u{FE0F}"), ("car", "\u{1F697}"), ("food", "\u{1F354}"), ("coffee", "\u{2615}"),
        ("sun", "\u{2600}\u{FE0F}"), ("moon", "\u{1F319}"), ("nature", "\u{1F33F}"), ("dog", "\u{1F436}"),
        ("cat", "\u{1F431}"), ("robot", "\u{1F916}"), ("alien", "\u{1F47D}"), ("100", "\u{1F4AF}"),
        ("perfect", "\u{1F4AF}"), ("time", "\u{23F0}"), ("clock", "\u{23F0}"),
    ];
    assert(pairs@ =~= emoji_pairs());
    let lower = to_lower(text);
    let mut i: usize = 0;
    while i < pairs.len()
        invariant
            i <= pairs.len(),
            pairs@ == emoji_pairs(),
            lower@ == lowercase(text@),
            first_emoji(lower@, 0) == first_emoji(lower@, i as int),
        decreases pairs.len() - i,
    {
        let (kw, emoji) = pairs[i];
        if str_contains(lower.as_str(), kw) {
            return Some(emoji);
        }
        i += 1;
    }
    None
}


// ---------------------------------------------------------------------------
// Whole caption files
// ---------------------------------------------------------------------------

/// The script header: canvas size and the `Default` style.
#[verifier::opaque]
pub open spec fn ass_header(width: nat, height: nat, style: StyleSpec) -> Seq<char> {
    "[Script Info]\nScriptType: v4.00+\nPlayResX: "@ + decimal(width) + "\nPlayResY: "@ + decimal(height)
        + "\nWrapStyle: 2\nScaledBorderAndShadow: yes\n\n[V4+ Styles]\nFormat: Name, Fontname, Fontsize, PrimaryColour, SecondaryColour, OutlineColour, BackColour, Bold, Italic, Underline, StrikeOut, ScaleX, ScaleY, Spacing, Angle, BorderStyle, Outline, Shadow, Alignment, MarginL, MarginR, MarginV, Encoding\nStyle: Default,"@
        + style.font_family + ","@ + int_decimal(style.font_size) + ","@ + style.primary_color + ",&H00000000,"@
        + style.stroke_color + ","@ + (if style.background { "&H99000000"@ } else { "&H00000000"@ })
        + ",1,0,0,0,100,100,0,0,1,"@ + int_decimal(style.stroke_width)
        + ",0,5,60,60,60,1\n\n[Events]\nFormat: Layer, Start, End, Style, Name, MarginL, MarginR, MarginV, Effect, Text\n"@
}

#[verifier::rlimit(80)]
#[verifier::spinoff_prover]
pub fn push_ass_header(out: &mut String, width: u32, height: u32, style: &CaptionStyle)
    ensures
        final(out)@ == old(out)@ + ass_header(width as nat, height as nat, style.spec()),
{
    let ghost o = out@;
    push_str(out, "[Script Info]\nScriptType: v4.00+\nPlayResX: ");
    push_nat(out, width as u64);
    push_str(out, "\nPlayResY: ");
    push_nat(out, height as u64);
    push_str(out, "\nWrapStyle: 2\nScaledBorderAndShadow: yes\n\n[V4+ Styles]\nFormat: Name, Fontname, Fontsize, PrimaryColour, SecondaryColour, OutlineColour, BackColour, Bold, Italic, Underline, StrikeOut, ScaleX, ScaleY, Spacing, Angle, BorderStyle, Outline, Shadow, Alignment, MarginL, MarginR, MarginV, Encoding\nStyle: Default,");
    push_str(out, style.font_family.as_str());
    push_str(out, ",");
    push_int(out, style.font_size as i64);
    push_str(out, ",");
    push_str(out, style.primary_color.as_str());
    push_str(out, ",&H00000000,");
    push_str(out, style.stroke_color.as_str());
    push_str(out, ",");
    if style.background {
        push_str(out, "&H99000000");
    } else {
        push_str(out, "&H00000000");
    }
    push_str(out, ",1,0,0,0,100,100,0,0,1,");
    push_int(out, style.stroke_width as i64);
    push_str(out, ",0,5,60,60,60,1\n\n[Events]\nFormat: Layer, Start, End, Style, Name, MarginL, MarginR, MarginV, Effect, Text\n");
    reveal(ass_header);
    assert(out@ =~= o + ass_header(width as nat, height as nat, style.spec()));
}

/// The hook-title banner shown for the first four seconds, when the style
/// enables it and the clip has a title.
pub open spec fn hook_event(style: StyleSpec, title: Option<Seq<char>>, duration_ms: nat, width: nat, height: nat) -> Seq<char> {
    match title {
        Some(t) if style.show_hook_title => {
            let text = if style.uppercase { uppercase(t) } else { t };
            let end = if duration_ms < 4000 { duration_ms } else { 4000 };
            dialogue(0, end as int, width / 2, height * 7 / 100,
                "\\c&H0000E0FF&\\fs"@ + int_decimal(style.font_size * 85 / 100) + "\\bord3\\shad2"@, escape(text))
        },
        _ => seq![],
    }
}

/// The caption events for `words`, given the words already waiting in the
/// current line: words that start before the clip are skipped, and a line is
/// written out once it holds `max_words_per_line` words.
pub open spec fn clip_events(words: Seq<DeepgramWord>, line: Seq<DeepgramWord>, clip_start: int, style: StyleSpec, y: nat, width: nat) -> Seq<char>
    decreases words.len(),
{
    if words.len() == 0 {
        line_events(line, clip_start, style, y, width)
    } else if words[0].start_ms < clip_start {
        clip_events(words.drop_first(), line, clip_start, style, y, width)
    } else {
        let l = line.push(words[0]);
        if l.len() >= style.max_words_per_line {
            line_events(l, clip_start, style, y, width) + clip_events(words.drop_first(), seq![], clip_start, style, y, width)
        } else {
            clip_events(words.drop_first(), l, clip_start, style, y, width)
        }
    }
}

/// The vertical position of caption lines.
pub open spec fn caption_y(height: nat, style: StyleSpec) -> nat {
    height * style.position_y_percent / 100
}

/// The whole ASS file burned into one clip.
pub open spec fn clip_captions(words: Seq<DeepgramWord>, clip_start: int, style: StyleSpec, title: Option<Seq<char>>, duration_ms: nat, width: nat, height: nat) -> Seq<char> {
    ass_header(width, height, style) + hook_event(style, title, duration_ms, width, height)
        + clip_events(words, seq![], clip_start, style, caption_y(height, style), width)
}

pub open spec fn opt_view(o: Option<&str>) -> Option<Seq<char>> {
    match o {
        Some(s) => Some(s@),
        None => None,
    }
}

fn push_hook_event(out: &mut String, style: &CaptionStyle, hook_title: Option<&str>, clip_duration_ms: u64, width: u32, height: u32)
    requires
        style.font_size >= 0,
    ensures
        final(out)@ == old(out)@ + hook_event(style.spec(), opt_view(hook_title), clip_duration_ms as nat, width as nat, height as nat),
{
    if style.show_hook_title {
        if let Some(title) = hook_title {
            let text = if style.uppercase { to_upper(title) } else { owned(title) };
            let end: u64 = if clip_duration_ms < 4000 { clip_duration_ms } else { 4000 };
            let title_y: u64 = (height as u64 * 7) / 100;
            let mut tag = owned("\\c&H0000E0FF&\\fs");
            push_int(&mut tag, (style.font_size as i64 * 85) / 100);
            push_str(&mut tag, "\\bord3\\shad2");
            let esc = escape_ass(text.as_str());
            push_dialogue(out, 0, end as i64, (width / 2) as u64, title_y, tag.as_str(), esc.as_str());
            return;
        }
    }
    assert(out@ =~= out@ + Seq::<char>::empty());
}

/// Builds the karaoke subtitle file for one clip, which ffmpeg then burns in.
pub fn build_clip_captions(
    clip_words: &Vec<DeepgramWord>,
    clip_start: u64,
    style: &CaptionStyle,
    hook_title: Option<&str>,
    clip_duration_ms: u64,
    width: u32,
    height: u32,
) -> (r: String)
    requires
        words_bounded(clip_words@),
        clip_start < TIME_BOUND,
        style.position_y_percent <= 100,
        style.font_size >= 0,
    ensures
        r@ == clip_captions(clip_words@, clip_start as int, style.spec(), opt_view(hook_title), clip_duration_ms as nat, width as nat, height as nat),
{
    let mut out = String::new();
    push_ass_header(&mut out, width, height, style);
    push_hook_event(&mut out, style, hook_title, clip_duration_ms, width, height);
    proof {
        assert(height as u64 * style.position_y_percent as u64 <= 0xFFFF_FFFFu64 * 100) by (nonlinear_arith)
            requires
                height <= 0xFFFF_FFFFu32,
                style.position_y_percent <= 100;
        assert((height as u64 * style.position_y_percent as u64) / 100 <= height as u64) by (nonlinear_arith)
            requires
                style.position_y_percent <= 100;
    }
    let y_pos: u32 = ((height as u64 * style.position_y_percent as u64) / 100) as u32;
    let ghost head = out@;
    let mut line: Vec<DeepgramWord> = Vec::new();
    let mut i: usize = 0;
    assert(clip_words@.skip(0) =~= clip_words@);
    assert(line@ =~= Seq::<DeepgramWord>::empty());
    while i < clip_words.len()
        invariant
            i <= clip_words.len(),
            words_bounded(clip_words@),
            words_bounded(line@),
            clip_start < TIME_BOUND,
            y_pos as nat == caption_y(height as nat, style.spec()),
            out@ + clip_events(clip_words@.skip(i as int), line@, clip_start as int, style.spec(), y_pos as nat, width as nat)
                == head + clip_events(clip_words@, seq![], clip_start as int, style.spec(), y_pos as nat, width as nat),
        decreases clip_words.len() - i,
    {
        let ghost rest = clip_words@.skip(i as int);
        let ghost l0 = line@;
        let ghost st = style.spec();
        let ghost y = y_pos as nat;
        let ghost wd = width as nat;
        let ghost cs = clip_start as int;
        assert(rest.drop_first() =~= clip_words@.skip(i + 1));
        assert(rest[0] == clip_words@[i as int]);
        let w = &clip_words[i];
        if w.start_ms >= clip_start {
            line.push(w.clone());
            assert(line@ == l0.push(rest[0]));
            if line.len() >= style.max_words_per_line {
                let ghost before = out@;
                flush_caption_line(&mut out, &line, clip_start, style, y_pos, width);
                proof {
                    let tail = clip_events(rest.drop_first(), seq![], cs, st, y, wd);
                    assert(clip_events(rest, l0, cs, st, y, wd) == line_events(l0.push(rest[0]), cs, st, y, wd) + tail);
                    assert(before + (line_events(l0.push(rest[0]), cs, st, y, wd) + tail) =~= out@ + tail);
                }
                line = Vec::new();
                assert(line@ =~= Seq::<DeepgramWord>::empty());
            }
        }
        i += 1;
    }
    assert(clip_words@.skip(i as int).len() == 0);
    flush_caption_line(&mut out, &line, clip_start, style, y_pos, width);
    out
}


// ---------------------------------------------------------------------------
// Word selection
// ---------------------------------------------------------------------------

/// The words spoken inside a clip: starting no earlier than the clip and ending
/// at most half a second after it.
pub open spec fn in_clip(w: DeepgramWord, start_ms: int, end_ms: int) -> bool {
    w.start_ms >= start_ms && w.end_ms <= end_ms + 500
}

/// The transcript words that fall inside `[start_ms, end_ms + 500]`, in order.
pub fn get_clip_words(all_words: &Vec<DeepgramWord>, start_ms: u64, end_ms: u64) -> (r: Vec<DeepgramWord>)
    requires
        end_ms < TIME_BOUND,
    ensures
        r@ == all_words@.filter(|w: DeepgramWord| in_clip(w, start_ms as int, end_ms as int)),
{
    let ghost pred = |w: DeepgramWord| in_clip(w, start_ms as int, end_ms as int);
    let mut r: Vec<DeepgramWord> = Vec::new();
    let mut i: usize = 0;
    while i < all_words.len()
        invariant
            i <= all_words.len(),
            end_ms < TIME_BOUND,
            pred == (|w: DeepgramWord| in_clip(w, start_ms as int, end_ms as int)),
            r@ == all_words@.take(i as int).filter(pred),
        decreases all_words.len() - i,
    {
        let w = &all_words[i];
        proof {
            assert(all_words@.take(i + 1) =~= all_words@.take(i as int).push(*w));
            all_words@.take(i as int).lemma_filter_push(*w, pred);
            assert(pred(*w) == (w.start_ms >= start_ms && w.end_ms <= end_ms + 500));
        }
        if w.start_ms >= start_ms && w.end_ms <= end_ms + 500 {
            r.push(w.clone());
        }
        i += 1;
    }
    assert(all_words@.take(all_words.len() as int) =~= all_words@);
    r
}

// ---------------------------------------------------------------------------
// Whole-video captions for scripted (studio) videos
// ---------------------------------------------------------------------------

/// A word of a synthesised voice-over with its timing in milliseconds.
pub struct WordTimestamp {
    pub word: String,
    pub start_ms: u64,
    pub end_ms: u64,
}

impl Clone for WordTimestamp {
    fn clone(&self) -> (r: Self)
        ensures
            r == *self,
    {
        WordTimestamp { word: self.word.clone(), start_ms: self.start_ms, end_ms: self.end_ms }
    }
}

/// The voice-over words `[start_idx, end_idx)` that speak one script sentence,
/// and the stretch of audio, in milliseconds, that the sentence covers.
#[derive(Clone, Copy)]
pub struct WordRange {
    pub start_idx: usize,
    pub end_idx: usize,
    pub start_ms: u64,
    pub end_ms: u64,
}

pub open spec fn stamps_bounded(ws: Seq<WordTimestamp>) -> bool {
    forall|i: int| 0 <= i < ws.len() ==> (#[trigger] ws[i]).start_ms < TIME_BOUND && ws[i].end_ms < TIME_BOUND
}

/// A voice-over word as shown, with the sentence's emoji after it when asked.
pub open spec fn stamp_text(w: WordTimestamp, upper: bool, emoji: Option<Seq<char>>) -> Seq<char> {
    let t = if upper { uppercase(w.word@) } else { w.word@ };
    match emoji {
        Some(e) => t + " "@ + e,
        None => t,
    }
}

/// The emoji, if any, that word `j` carries in the event that highlights word
/// `i` of a word-pop line of `n` words: only the last word, in the last event.
pub open spec fn emoji_at(emoji: Option<Seq<char>>, i: int, j: int, n: int) -> Option<Seq<char>> {
    if i == n - 1 && j == n - 1 { emoji } else { None }
}

pub open spec fn stamp_pop_line(line: Seq<WordTimestamp>, i: int, n: int, emoji: Option<Seq<char>>, style: StyleSpec) -> Seq<char>
    decreases n,
{
    if n <= 0 {
        seq![]
    } else {
        stamp_pop_line(line, i, n - 1, emoji, style) + pop_token(
            stamp_text(line[n - 1], style.uppercase, emoji_at(emoji, i, n - 1, line.len() as int)),
            i == n - 1,
            style,
        )
    }
}

pub open spec fn stamp_pop_events(line: Seq<WordTimestamp>, n: int, emoji: Option<Seq<char>>, style: StyleSpec, y: nat, width: nat) -> Seq<char>
    decreases n,
{
    if n <= 0 {
        seq![]
    } else {
        let w = line[n - 1];
        stamp_pop_events(line, n - 1, emoji, style, y, width) + dialogue(
            w.start_ms as int,
            max_int(w.end_ms as int, w.start_ms + 100),
            width / 2,
            y,
            seq![],
            trim_end(stamp_pop_line(line, n - 1, line.len() as int, emoji, style)),
        )
    }
}

/// The texts of a static line; the last word carries the emoji.
pub open spec fn stamp_texts(line: Seq<WordTimestamp>, emoji: Option<Seq<char>>, upper: bool) -> Seq<Seq<char>> {
    Seq::new(line.len(), |j: int| stamp_text(line[j], upper, if j == line.len() - 1 { emoji } else { None }))
}

pub open spec fn stamp_line_events(line: Seq<WordTimestamp>, emoji: Option<Seq<char>>, style: StyleSpec, y: nat, width: nat) -> Seq<char> {
    if line.len() == 0 {
        seq![]
    } else if style.word_pop {
        stamp_pop_events(line, line.len() as int, emoji, style, y, width)
    } else {
        let st = line[0].start_ms as int;
        dialogue(st, max_int(line.last().end_ms as int, st + 100), width / 2, y, "\\c"@ + style.primary_color,
            escape(join_space(stamp_texts(line, emoji, style.uppercase))))
    }
}

/// The events of a sentence's words, `k` words per line.
pub open spec fn chunk_events(words: Seq<WordTimestamp>, k: nat, emoji: Option<Seq<char>>, style: StyleSpec, y: nat, width: nat) -> Seq<char>
    recommends
        k > 0,
    decreases words.len(),
{
    if words.len() == 0 || k == 0 {
        seq![]
    } else if words.len() <= k {
        stamp_line_events(words, emoji, style, y, width)
    } else {
        stamp_line_events(words.take(k as int), emoji, style, y, width) + chunk_events(words.skip(k as int), k, emoji, style, y, width)
    }
}

/// Sentence ranges must lie inside the voice-over (slicing panics otherwise).
pub open spec fn ranges_ok(ranges: Seq<WordRange>, n: nat) -> bool {
    forall|r: int| 0 <= r < ranges.len() ==> (#[trigger] ranges[r]).start_idx <= (if ranges[r].end_idx < n { ranges[r].end_idx as nat } else { n })
}

pub open spec fn line_size(style: StyleSpec) -> nat {
    if style.max_words_per_line == 0 { 1 } else { style.max_words_per_line }
}

/// The events of the first `m` sentences.
pub open spec fn global_events(
    stamps: Seq<WordTimestamp>,
    ranges: Seq<WordRange>,
    sentences: Seq<Seq<char>>,
    m: int,
    auto_emojis: bool,
    style: StyleSpec,
    y: nat,
    width: nat,
) -> Seq<char>
    decreases m,
{
    if m <= 0 {
        seq![]
    } else {
        let r = ranges[m - 1];
        let end = if r.end_idx < stamps.len() { r.end_idx as int } else { stamps.len() as int };
        let emoji = if auto_emojis { sentence_emoji(sentences[m - 1]) } else { None };
        global_events(stamps, ranges, sentences, m - 1, auto_emojis, style, y, width)
            + chunk_events(stamps.subrange(r.start_idx as int, end), line_size(style), emoji, style, y, width)
    }
}

/// The subtitle file for a whole scripted video.
pub open spec fn global_captions(
    stamps: Seq<WordTimestamp>,
    ranges: Seq<WordRange>,
    sentences: Seq<Seq<char>>,
    auto_emojis: bool,
    style: StyleSpec,
    width: nat,
    height: nat,
) -> Seq<char> {
    let m = if ranges.len() < sentences.len() { ranges.len() } else { sentences.len() };
    ass_header(width, height, style) + global_events(stamps, ranges, sentences, m as int, auto_emojis, style, caption_y(height, style), width)
}

fn stamp_word_text(w: &WordTimestamp, upper: bool, emoji: Option<&str>) -> (r: String)
    ensures
        r@ == stamp_text(*w, upper, opt_view(emoji)),
{
    let mut t = if upper { to_upper(w.word.as_str()) } else { owned(w.word.as_str()) };
    if let Some(e) = emoji {
        push_str(&mut t, " ");
        push_str(&mut t, e);
    }
    t
}

fn push_stamp_line(out: &mut String, line: &Vec<WordTimestamp>, emoji: Option<&str>, style: &CaptionStyle, y_pos: u32, width: u32)
    requires
        stamps_bounded(line@),
    ensures
        final(out)@ == old(out)@ + stamp_line_events(line@, opt_view(emoji), style.spec(), y_pos as nat, width as nat),
{
    let n = line.len();
    if n == 0 {
        assert(out@ =~= out@ + Seq::<char>::empty());
        return;
    }
    let ghost o = out@;
    if style.word_pop {
        let mut i: usize = 0;
        while i < n
            invariant
                n == line.len(),
                i <= n,
                stamps_bounded(line@),
                out@ == o + stamp_pop_events(line@, i as int, opt_view(emoji), style.spec(), y_pos as nat, width as nat),
            decreases n - i,
        {
            let mut formatted = String::new();
            let mut j: usize = 0;
            while j < n
                invariant
                    n == line.len(),
                    i < n,
                    j <= n,
                    formatted@ == stamp_pop_line(line@, i as int, j as int, opt_view(emoji), style.spec()),
                decreases n - j,
            {
                let e: Option<&str> = if i == n - 1 && j == n - 1 { emoji } else { None };
                let t = stamp_word_text(&line[j], style.uppercase, e);
                proof {
                    assert(opt_view(e) == emoji_at(opt_view(emoji), i as int, j as int, n as int));
                }
                push_pop_token(&mut formatted, t.as_str(), i == j, style);
                j += 1;
            }
            let fc = chars_of(formatted.as_str());
            let tc = trim_end_chars(&fc);
            let text = string_of(&tc);
            let w = &line[i];
            let we: u64 = if w.end_ms >= w.start_ms + 100 { w.end_ms } else { w.start_ms + 100 };
            proof {
                reveal_strlit("");
                assert(""@ =~= Seq::<char>::empty());
            }
            push_dialogue(out, w.start_ms as i64, we as i64, (width / 2) as u64, y_pos as u64, "", text.as_str());
            i += 1;
        }
    } else {
        let mut joined = String::new();
        let mut j: usize = 0;
        while j < n
            invariant
                n == line.len(),
                j <= n,
                joined@ == join_space(stamp_texts(line@, opt_view(emoji), style.uppercase).take(j as int)),
            decreases n - j,
        {
            let e: Option<&str> = if j == n - 1 { emoji } else { None };
            let t = stamp_word_text(&line[j], style.uppercase, e);
            if j > 0 {
                push_str(&mut joined, " ");
            }
            push_str(&mut joined, t.as_str());
            proof {
                let lt = stamp_texts(line@, opt_view(emoji), style.uppercase);
                assert(lt[j as int] == t@);
                assert(lt.take(j + 1).drop_last() =~= lt.take(j as int));
                if j == 0 {
                    assert(joined@ =~= lt.take(1)[0]);
                }
            }
            j += 1;
        }
        proof {
            let lt = stamp_texts(line@, opt_view(emoji), style.uppercase);
            assert(lt.take(n as int) =~= lt);
        }
        let esc = escape_ass(joined.as_str());
        let mut tag = owned("\\c");
        push_str(&mut tag, style.primary_color.as_str());
        let st = line[0].start_ms;
        let le = line[n - 1].end_ms;
        let end: u64 = if le >= st + 100 { le } else { st + 100 };
        push_dialogue(out, st as i64, end as i64, (width / 2) as u64, y_pos as u64, tag.as_str(), esc.as_str());
    }
}

/// Builds the caption file for a whole scripted video from the voice-over's word
/// timings and each script sentence's word range.
pub fn generate_global_ass(
    word_timestamps: &Vec<WordTimestamp>,
    sentence_ranges: &Vec<WordRange>,
    sentences: &Vec<String>,
    style: &CaptionStyle,
    auto_emojis: bool,
    width: u32,
    height: u32,
) -> (r: String)
    requires
        stamps_bounded(word_timestamps@),
        ranges_ok(sentence_ranges@, word_timestamps.len() as nat),
        style.position_y_percent <= 100,
    ensures
        r@ == global_captions(word_timestamps@, sentence_ranges@, sentences@.map_values(|s: String| s@), auto_emojis, style.spec(), width as nat, height as nat),
{
    let mut out = String::new();
    push_ass_header(&mut out, width, height, style);
    proof {
        assert(height as u64 * style.position_y_percent as u64 <= 0xFFFF_FFFFu64 * 100) by (nonlinear_arith)
            requires
                height <= 0xFFFF_FFFFu32,
                style.position_y_percent <= 100;
        assert((height as u64 * style.position_y_percent as u64) / 100 <= height as u64) by (nonlinear_arith)
            requires
                style.position_y_percent <= 100;
    }
    let y_pos: u32 = ((height as u64 * style.position_y_percent as u64) / 100) as u32;
    let k: usize = if style.max_words_per_line == 0 { 1 } else { style.max_words_per_line };
    let m: usize = if sentence_ranges.len() < sentences.len() { sentence_ranges.len() } else { sentences.len() };
    let ghost sv = sentences@.map_values(|s: String| s@);
    let ghost head = out@;
    let mut r: usize = 0;
    while r < m
        invariant
            r <= m,
            m <= sentence_ranges.len(),
            m <= sentences.len(),
            k as nat == line_size(style.spec()),
            sv == sentences@.map_values(|s: String| s@),
            y_pos as nat == caption_y(height as nat, style.spec()),
            stamps_bounded(word_timestamps@),
            ranges_ok(sentence_ranges@, word_timestamps.len() as nat),
            out@ == head + global_events(word_timestamps@, sentence_ranges@, sv, r as int, auto_emojis, style.spec(), y_pos as nat, width as nat),
        decreases m - r,
    {
        let range = sentence_ranges[r];
        let end = if range.end_idx < word_timestamps.len() { range.end_idx } else { word_timestamps.len() };
        let emoji: Option<&str> = if auto_emojis { get_sentence_emoji(sentences[r].as_str()) } else { None };
        proof {
            assert(range == sentence_ranges@[r as int]);
            assert(sv[r as int] == sentences@[r as int]@);
            let ev = if auto_emojis { sentence_emoji(sv[r as int]) } else { None };
            assert(opt_view(emoji) == ev);
        }
        // Lines of `k` words over this sentence's slice of the voice-over.
        let ghost slice = word_timestamps@.subrange(range.start_idx as int, end as int);
        let ghost before = out@;
        let mut pos: usize = range.start_idx;
        assert(slice.skip(0) =~= slice);
        while pos < end
            invariant
                range.start_idx <= pos <= end <= word_timestamps.len(),
                k >= 1,
                stamps_bounded(word_timestamps@),
                slice == word_timestamps@.subrange(range.start_idx as int, end as int),
                before + chunk_events(slice, k as nat, opt_view(emoji), style.spec(), y_pos as nat, width as nat)
                    == out@ + chunk_events(slice.skip(pos - range.start_idx), k as nat, opt_view(emoji), style.spec(), y_pos as nat, width as nat),
            decreases end - pos,
        {
            let stop = if end - pos <= k { end } else { pos + k };
            let mut line: Vec<WordTimestamp> = Vec::new();
            let mut q: usize = pos;
            while q < stop
                invariant
                    pos <= q <= stop <= end <= word_timestamps.len(),
                    line@ == word_timestamps@.subrange(pos as int, q as int),
                decreases stop - q,
            {
                line.push(word_timestamps[q].clone());
                q += 1;
            }
            proof {
                let rest = slice.skip(pos - range.start_idx);
                assert(line@ =~= if rest.len() <= k { rest } else { rest.take(k as int) });
                assert(stamps_bounded(line@));
                if rest.len() > k {
                    assert(rest.skip(k as int) =~= slice.skip(stop - range.start_idx));
                } else {
                    assert(slice.skip(stop - range.start_idx).len() == 0);
                }
            }
            let ghost o2 = out@;
            push_stamp_line(&mut out, &line, emoji, style, y_pos, width);
            proof {
                let rest = slice.skip(pos - range.start_idx);
                let tail = chunk_events(slice.skip(stop - range.start_idx), k as nat, opt_view(emoji), style.spec(), y_pos as nat, width as nat);
                let le = stamp_line_events(line@, opt_view(emoji), style.spec(), y_pos as nat, width as nat);
                if rest.len() > k {
                    assert(chunk_events(rest, k as nat, opt_view(emoji), style.spec(), y_pos as nat, width as nat) == le + tail);
                } else {
                    assert(chunk_events(rest, k as nat, opt_view(emoji), style.spec(), y_pos as nat, width as nat) == le);
                    assert(tail == Seq::<char>::empty());
                }
                assert(o2 + (le + tail) =~= out@ + tail);
            }
            pos = stop;
        }
        proof {
            assert(slice.skip(end - range.start_idx).len() == 0);
            assert(out@ =~= before + chunk_events(slice, k as nat, opt_view(emoji), style.spec(), y_pos as nat, width as nat));
        }
        r += 1;
    }
    out
}


// ---------------------------------------------------------------------------
// What caption lines show
// ---------------------------------------------------------------------------

/// Words `a..b` of a line, each in the primary colour and followed by a space.
pub open spec fn primary_run(words: Seq<DeepgramWord>, a: int, b: int, style: StyleSpec) -> Seq<char>
    decreases b - a,
{
    if b <= a {
        seq![]
    } else {
        primary_run(words, a, b - 1, style) + "{\\c"@ + style.primary_color + "}"@
            + escape(shown_text(words[b - 1], style.uppercase)) + " "@
    }
}

/// A word-pop line while word `k` is spoken: word `k` alone in the highlight
/// colour and zoomed, every other word in the primary colour.
pub open spec fn spoken_line(words: Seq<DeepgramWord>, k: int, style: StyleSpec) -> Seq<char> {
    primary_run(words, 0, k, style) + "{\\c"@ + style.highlight_color + "\\fscx110\\fscy110}"@
        + escape(shown_text(words[k], style.uppercase)) + "{\\r} "@ + primary_run(words, k + 1, words.len() as int, style)
}

proof fn lemma_pop_line_spoken(words: Seq<DeepgramWord>, k: int, n: int, style: StyleSpec)
    requires
        0 <= k < words.len(),
        0 <= n <= words.len(),
    ensures
        n <= k ==> pop_line(words, k, n, style) == primary_run(words, 0, n, style),
        n > k ==> pop_line(words, k, n, style) == primary_run(words, 0, k, style) + "{\\c"@ + style.highlight_color
            + "\\fscx110\\fscy110}"@ + escape(shown_text(words[k], style.uppercase)) + "{\\r} "@
            + primary_run(words, k + 1, n, style),
    decreases n,
{
    reveal(pop_token);
    if n > 0 {
        lemma_pop_line_spoken(words, k, n - 1, style);
        if n - 1 == k {
            assert(primary_run(words, k + 1, n, style) =~= Seq::<char>::empty());
        }
    }
}

proof fn lemma_pop_events_prefix(words: Seq<DeepgramWord>, k: int, n: int, clip_start: int, style: StyleSpec, y: nat, width: nat)
    requires
        0 <= k <= n,
    ensures
        pop_events(words, k, clip_start, style, y, width).len() <= pop_events(words, n, clip_start, style, y, width).len(),
        pop_events(words, n, clip_start, style, y, width).take(pop_events(words, k, clip_start, style, y, width).len() as int)
            == pop_events(words, k, clip_start, style, y, width),
    decreases n,
{
    if n > k {
        lemma_pop_events_prefix(words, k, n - 1, clip_start, style, y, width);
        let a = pop_events(words, k, clip_start, style, y, width);
        let b = pop_events(words, n - 1, clip_start, style, y, width);
        let c = pop_events(words, n, clip_start, style, y, width);
        assert(b.len() <= c.len());
        assert(c.take(b.len() as int) =~= b);
        assert(c.take(a.len() as int) =~= b.take(a.len() as int));
    } else {
        let a = pop_events(words, k, clip_start, style, y, width);
        assert(a.take(a.len() as int) =~= a);
    }
}

/// Karaoke captions follow the speech: in a word-pop line, the events hold
/// one timed to word `k` (from its start, relative to the clip and at least
/// 0, to its end, at least 100 ms later) that shows word `k` highlighted and
/// every other word of the line in the primary colour.
pub proof fn lemma_pop_event_highlights_spoken_word(words: Seq<DeepgramWord>, k: int, clip_start: int, style: StyleSpec, y: nat, width: nat)
    requires
        style.word_pop,
        0 <= k < words.len(),
    ensures
        ({
            let w = words[k];
            let ws = max_int(w.start_ms - clip_start, 0);
            let we = max_int(w.end_ms - clip_start, ws + 100);
            contains(line_events(words, clip_start, style, y, width),
                dialogue(ws, we, width / 2, y, seq![], trim_end(spoken_line(words, k, style))))
        }),
{
    let n = words.len() as int;
    lemma_pop_line_spoken(words, k, n, style);
    assert(pop_line(words, k, n, style) == spoken_line(words, k, style));
    let w = words[k];
    let ws = max_int(w.start_ms - clip_start, 0);
    let we = max_int(w.end_ms - clip_start, ws + 100);
    let ev = dialogue(ws, we, width / 2, y, seq![], trim_end(spoken_line(words, k, style)));
    let a = pop_events(words, k, clip_start, style, y, width);
    let b = pop_events(words, k + 1, clip_start, style, y, width);
    let all = pop_events(words, n, clip_start, style, y, width);
    assert(b == a + ev);
    lemma_pop_events_prefix(words, k + 1, n, clip_start, style, y, width);
    let p = a.len() as int;
    assert(all.take(b.len() as int) == b);
    assert forall|i: int| 0 <= i < b.len() implies all[i] == b[i] by {
        assert(all.take(b.len() as int)[i] == all[i]);
    }
    assert(all.subrange(p, p + ev.len()) =~= b.subrange(p, p + ev.len()));
    assert(b.subrange(p, p + ev.len()) =~= ev);
    assert(occurs_at(all, ev, p));
    assert(line_events(words, clip_start, style, y, width) == all);
}

/// A static caption line of a clip stays on screen while each of its words
/// is spoken: one event from the first word's start (relative to the clip)
/// until the latest of the words' ends and 100 ms after the start, when the
/// words come in time order.
pub proof fn lemma_static_line_covers_words(words: Seq<DeepgramWord>, clip_start: int, style: StyleSpec, y: nat, width: nat)
    requires
        !style.word_pop,
        words.len() > 0,
        forall|i: int, j: int| 0 <= i < j < words.len() ==> words[i].end_ms <= words[j].end_ms,
    ensures
        exists|e: int, tag: Seq<char>, text: Seq<char>|
            line_events(words, clip_start, style, y, width)
                == #[trigger] dialogue(words[0].start_ms - clip_start, e, width / 2, y, tag, text)
            && e >= words[0].start_ms - clip_start + 100
            && (forall|j: int| 0 <= j < words.len() ==> (#[trigger] words[j]).end_ms - clip_start <= e)
            && (e == words[0].start_ms - clip_start + 100 || exists|j: int| 0 <= j < words.len() && e == (#[trigger] words[j]).end_ms - clip_start),
{
    let ls = words[0].start_ms - clip_start;
    let le = words.last().end_ms - clip_start;
    let e = max_int(le, ls + 100);
    assert(forall|j: int| 0 <= j < words.len() ==> (#[trigger] words[j]).end_ms <= words.last().end_ms);
    if e != ls + 100 {
        assert(e == words[words.len() - 1].end_ms - clip_start);
    }
    let tag = "\\c"@ + style.primary_color;
    let text = escape(join_space(line_texts(words, style.uppercase)));
    assert(line_events(words, clip_start, style, y, width) == dialogue(ls, e, width / 2, y, tag, text));
}

/// A static line of the scripted video's captions likewise stays on screen
/// from its first word's start until the latest of its words' ends (and at
/// least 100 ms), when the words come in time order.
pub proof fn lemma_static_stamp_line_covers_words(line: Seq<WordTimestamp>, emoji: Option<Seq<char>>, style: StyleSpec, y: nat, width: nat)
    requires
        !style.word_pop,
        line.len() > 0,
        forall|i: int, j: int| 0 <= i < j < line.len() ==> line[i].end_ms <= line[j].end_ms,
    ensures
        exists|e: int, tag: Seq<char>, text: Seq<char>|
            stamp_line_events(line, emoji, style, y, width)
                == #[trigger] dialogue(line[0].start_ms as int, e, width / 2, y, tag, text)
            && e >= line[0].start_ms + 100
            && (forall|j: int| 0 <= j < line.len() ==> (#[trigger] line[j]).end_ms <= e)
            && (e == line[0].start_ms + 100 || exists|j: int| 0 <= j < line.len() && e == (#[trigger] line[j]).end_ms),
{
    let st = line[0].start_ms as int;
    let e = max_int(line.last().end_ms as int, st + 100);
    assert(forall|j: int| 0 <= j < line.len() ==> (#[trigger] line[j]).end_ms <= line.last().end_ms);
    if e != st + 100 {
        assert(e == line[line.len() - 1].end_ms);
    }
    let tag = "\\c"@ + style.primary_color;
    let text = escape(join_space(stamp_texts(line, emoji, style.uppercase)));
    assert(stamp_line_events(line, emoji, style, y, width) == dialogue(st, e, width / 2, y, tag, text));
}


/// Words `a..b` of a scripted line in the primary colour, each followed by a
/// space.
pub open spec fn stamp_primary_run(line: Seq<WordTimestamp>, a: int, b: int, style: StyleSpec) -> Seq<char>
    decreases b - a,
{
    if b <= a {
        seq![]
    } else {
        stamp_primary_run(line, a, b - 1, style) + "{\\c"@ + style.primary_color + "}"@
            + escape(stamp_text(line[b - 1], style.uppercase, None)) + " "@
    }
}

/// A scripted word-pop line while word `k` is spoken: word `k` alone
/// highlighted and zoomed (carrying the sentence's emoji when it is the last
/// word), every other word in the primary colour.
pub open spec fn stamp_spoken_line(line: Seq<WordTimestamp>, k: int, emoji: Option<Seq<char>>, style: StyleSpec) -> Seq<char> {
    stamp_primary_run(line, 0, k, style) + "{\\c"@ + style.highlight_color + "\\fscx110\\fscy110}"@
        + escape(stamp_text(line[k], style.uppercase, if k == line.len() - 1 { emoji } else { None })) + "{\\r} "@
        + stamp_primary_run(line, k + 1, line.len() as int, style)
}

proof fn lemma_stamp_pop_line_spoken(line: Seq<WordTimestamp>, k: int, n: int, emoji: Option<Seq<char>>, style: StyleSpec)
    requires
        0 <= k < line.len(),
        0 <= n <= line.len(),
    ensures
        n <= k ==> stamp_pop_line(line, k, n, emoji, style) == stamp_primary_run(line, 0, n, style),
        n > k ==> stamp_pop_line(line, k, n, emoji, style) == stamp_primary_run(line, 0, k, style) + "{\\c"@
            + style.highlight_color + "\\fscx110\\fscy110}"@
            + escape(stamp_text(line[k], style.uppercase, if k == line.len() - 1 { emoji } else { None })) + "{\\r} "@
            + stamp_primary_run(line, k + 1, n, style),
    decreases n,
{
    reveal(pop_token);
    if n > 0 {
        lemma_stamp_pop_line_spoken(line, k, n - 1, emoji, style);
        if n - 1 == k {
            assert(stamp_primary_run(line, k + 1, n, style) =~= Seq::<char>::empty());
        }
    }
}

proof fn lemma_stamp_pop_events_prefix(line: Seq<WordTimestamp>, k: int, n: int, emoji: Option<Seq<char>>, style: StyleSpec, y: nat, width: nat)
    requires
        0 <= k <= n,
    ensures
        stamp_pop_events(line, k, emoji, style, y, width).len() <= stamp_pop_events(line, n, emoji, style, y, width).len(),
        stamp_pop_events(line, n, emoji, style, y, width).take(stamp_pop_events(line, k, emoji, style, y, width).len() as int)
            == stamp_pop_events(line, k, emoji, style, y, width),
    decreases n,
{
    let a = stamp_pop_events(line, k, emoji, style, y, width);
    if n > k {
        lemma_stamp_pop_events_prefix(line, k, n - 1, emoji, style, y, width);
        let b = stamp_pop_events(line, n - 1, emoji, style, y, width);
        let c = stamp_pop_events(line, n, emoji, style, y, width);
        assert(b.len() <= c.len());
        assert(c.take(b.len() as int) =~= b);
        assert(c.take(a.len() as int) =~= b.take(a.len() as int));
    } else {
        assert(a.take(a.len() as int) =~= a);
    }
}

/// The scripted video's karaoke captions follow the voice-over too: in a
/// word-pop line, the events hold one timed to word `k` (its start to its
/// end, at least 100 ms) that shows word `k` highlighted and every other word
/// in the primary colour.
pub proof fn lemma_stamp_pop_event_highlights_spoken_word(line: Seq<WordTimestamp>, k: int, emoji: Option<Seq<char>>, style: StyleSpec, y: nat, width: nat)
    requires
        style.word_pop,
        0 <= k < line.len(),
    ensures
        contains(stamp_line_events(line, emoji, style, y, width),
            dialogue(line[k].start_ms as int, max_int(line[k].end_ms as int, line[k].start_ms + 100), width / 2, y, seq![],
                trim_end(stamp_spoken_line(line, k, emoji, style)))),
{
    let n = line.len() as int;
    lemma_stamp_pop_line_spoken(line, k, n, emoji, style);
    assert(stamp_pop_line(line, k, n, emoji, style) == stamp_spoken_line(line, k, emoji, style));
    let ev = dialogue(line[k].start_ms as int, max_int(line[k].end_ms as int, line[k].start_ms + 100), width / 2, y, seq![],
        trim_end(stamp_spoken_line(line, k, emoji, style)));
    let a = stamp_pop_events(line, k, emoji, style, y, width);
    let b = stamp_pop_events(line, k + 1, emoji, style, y, width);
    let all = stamp_pop_events(line, n, emoji, style, y, width);
    assert(b == a + ev);
    lemma_stamp_pop_events_prefix(line, k + 1, n, emoji, style, y, width);
    let p = a.len() as int;
    assert(all.take(b.len() as int) == b);
    assert forall|i: int| 0 <= i < b.len() implies all[i] == b[i] by {
        assert(all.take(b.len() as int)[i] == all[i]);
    }
    assert(all.subrange(p, p + ev.len()) =~= b.subrange(p, p + ev.len()));
    assert(b.subrange(p, p + ev.len()) =~= ev);
    assert(occurs_at(all, ev, p));
    assert(stamp_line_events(line, emoji, style, y, width) == all);
}

} // verus!
