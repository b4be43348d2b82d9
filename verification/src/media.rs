//! Incoming media: uploads and their names, YouTube ids, multipart forms and
//! the JSON a model reply carries.
use vstd::prelude::*;
use crate::text::{chars_of, string_of, owned, push_str, str_eq, trim, starts_with, ends_with, str_starts_with, str_ends_with, lowercase, to_lower, trim_start_matches, trim_end_matches, trim_start_matches_chars, trim_end_matches_chars, trim_chars, index_of_char, lemma_index_of_char};
use crate::codec::{parse_url, url_reading, url_parts_view};

verus! {

// ---------------------------------------------------------------------------
// Uploaded files
// ---------------------------------------------------------------------------

/// Where an uploaded video lies: `upload://name` names a file in the
/// uploads folder of the temporary directory.
pub open spec fn upload_path(url: Seq<char>, temp_dir: Seq<char>) -> Seq<char> {
    let name = if starts_with(url, "upload://"@) { url.skip(9) } else { url };
    temp_dir + "/uploads/"@ + name
}

pub fn resolve_upload_path(url: &str, temp_dir: &str) -> (r: String)
    ensures
        r@ == upload_path(url@, temp_dir@),
{
    let cs = chars_of(url);
    let is_upload = str_starts_with(url, "upload://");
    let mut name: Vec<char> = Vec::new();
    let start: usize = if is_upload {
        proof {
            reveal_strlit("upload://");
        }
        9
    } else {
        0
    };
    let mut i: usize = start;
    while i < cs.len()
        invariant
            start <= i <= cs.len(),
            start <= cs.len(),
            name@ == cs@.subrange(start as int, i as int),
        decreases cs.len() - i,
    {
        name.push(cs[i]);
        i += 1;
        assert(cs@.subrange(start as int, i as int) =~= cs@.subrange(start as int, i - 1).push(cs@[i - 1]));
    }
    assert(cs@.subrange(start as int, cs.len() as int) =~= cs@.skip(start as int));
    let mut out = owned(temp_dir);
    push_str(&mut out, "/uploads/");
    let n = string_of(&name);
    push_str(&mut out, n.as_str());
    out
}

/// The last component of a `/`-separated path (none when it is empty, `.` or
/// `..`).
pub open spec fn base_name(path: Seq<char>) -> Option<Seq<char>> {
    let k = last_slash(path);
    let name = path.skip(k + 1);
    if name.len() == 0 || name == "."@ || name == ".."@ { None } else { Some(name) }
}

/// Position of the last `/`, or -1.
pub open spec fn last_slash(s: Seq<char>) -> int
    decreases s.len(),
{
    if s.len() == 0 { -1 } else if s.last() == '/' { s.len() - 1 } else { last_slash(s.drop_last()) }
}

/// Position of the last `.`, or -1.
pub open spec fn last_dot(s: Seq<char>) -> int
    decreases s.len(),
{
    if s.len() == 0 { -1 } else if s.last() == '.' { s.len() - 1 } else { last_dot(s.drop_last()) }
}

/// A file's extension: what follows the last `.` of its name, when that `.`
/// is not the name's first character.
pub open spec fn extension_of(path: Seq<char>) -> Option<Seq<char>> {
    match base_name(path) {
        None => None,
        Some(name) => {
            let d = last_dot(name);
            if d <= 0 { None } else { Some(name.skip(d + 1)) }
        },
    }
}

proof fn lemma_last_of(s: Seq<char>, c: char, k: int)
    requires
        -1 <= k < s.len(),
        forall|j: int| k < j < s.len() ==> s[j] != c,
        k == -1 || s[k] == c,
    ensures
        c == '/' ==> last_slash(s) == k,
        c == '.' ==> last_dot(s) == k,
    decreases s.len(),
{
    if s.len() > 0 && k < s.len() - 1 {
        lemma_last_of(s.drop_last(), c, k);
    }
}

fn last_index(s: &Vec<char>, c: char) -> (r: Option<usize>)
    requires
        c == '/' || c == '.',
    ensures
        c == '/' ==> (match r { Some(k) => last_slash(s@) == k, None => last_slash(s@) == -1 }),
        c == '.' ==> (match r { Some(k) => last_dot(s@) == k, None => last_dot(s@) == -1 }),
        r matches Some(k) ==> k < s.len(),
{
    let mut k: usize = s.len();
    while k > 0 && s[k - 1] != c
        invariant
            k <= s.len(),
            forall|j: int| k <= j < s.len() ==> s@[j] != c,
        decreases k,
    {
        k -= 1;
    }
    proof {
        lemma_last_of(s@, c, k - 1);
    }
    if k == 0 { None } else { Some(k - 1) }
}

fn skip_from(s: &Vec<char>, k: usize) -> (r: Vec<char>)
    requires
        k <= s.len(),
    ensures
        r@ == s@.skip(k as int),
{
    let mut r: Vec<char> = Vec::new();
    let mut i: usize = k;
    while i < s.len()
        invariant
            k <= i <= s.len(),
            r@ == s@.subrange(k as int, i as int),
        decreases s.len() - i,
    {
        r.push(s[i]);
        i += 1;
        assert(s@.subrange(k as int, i as int) =~= s@.subrange(k as int, i - 1).push(s@[i - 1]));
    }
    assert(s@.subrange(k as int, s.len() as int) =~= s@.skip(k as int));
    r
}

/// The extension of a file name or path (`Path::extension`).
pub fn file_extension(path: &str) -> (r: Option<String>)
    ensures
        match r {
            Some(e) => extension_of(path@) == Some(e@),
            None => extension_of(path@) is None,
        },
{
    let cs = chars_of(path);
    let start: usize = match last_index(&cs, '/') { Some(k) => k + 1, None => 0 };
    let name = skip_from(&cs, start);
    let ns = string_of(&name);
    if name.len() == 0 || str_eq(ns.as_str(), ".") || str_eq(ns.as_str(), "..") {
        return None;
    }
    let d = match last_index(&name, '.') { Some(d) => d, None => return None };
    if d == 0 {
        return None;
    }
    let ext = skip_from(&name, d + 1);
    Some(string_of(&ext))
}

/// The media type of a video file by its (case-insensitive) extension; MP4
/// when it is none of the known ones.
pub open spec fn video_mime(name: Seq<char>) -> Seq<char> {
    let l = lowercase(name);
    if ends_with(l, ".mov"@) {
        "video/quicktime"@
    } else if ends_with(l, ".webm"@) {
        "video/webm"@
    } else if ends_with(l, ".mkv"@) {
        "video/x-matroska"@
    } else if ends_with(l, ".mpg"@) || ends_with(l, ".mpeg"@) {
        "video/mpeg"@
    } else if ends_with(l, ".avi"@) {
        "video/x-msvideo"@
    } else {
        "video/mp4"@
    }
}

pub fn mime_for_filename(filename: &str) -> (r: String)
    ensures
        r@ == video_mime(filename@),
{
    let l = to_lower(filename);
    let s = l.as_str();
    if str_ends_with(s, ".mov") {
        owned("video/quicktime")
    } else if str_ends_with(s, ".webm") {
        owned("video/webm")
    } else if str_ends_with(s, ".mkv") {
        owned("video/x-matroska")
    } else if str_ends_with(s, ".mpg") || str_ends_with(s, ".mpeg") {
        owned("video/mpeg")
    } else if str_ends_with(s, ".avi") {
        owned("video/x-msvideo")
    } else {
        owned("video/mp4")
    }
}

/// The name an upload is stored under: a fresh id and the upload's extension
/// (MP4 when it has none).
pub open spec fn stored_upload_name(id: Seq<char>, filename: Seq<char>) -> Seq<char> {
    id + "."@ + match extension_of(filename) { Some(e) => e, None => "mp4"@ }
}

pub fn upload_name(id: &str, filename: &str) -> (r: String)
    ensures
        r@ == stored_upload_name(id@, filename@),
{
    let mut out = owned(id);
    push_str(&mut out, ".");
    match file_extension(filename) {
        Some(e) => push_str(&mut out, e.as_str()),
        None => push_str(&mut out, "mp4"),
    }
    out
}

/// Whether an upload is over the size limit.
pub fn upload_too_large(len: u64, limit: u64) -> (r: bool)
    ensures
        r == (len > limit),
{
    len > limit
}

// ---------------------------------------------------------------------------
// YouTube ids
// ---------------------------------------------------------------------------

/// The video id of a YouTube URL: the first path segment of a `youtu.be`
/// link, else the first `v` query value; none when the URL does not parse.
pub open spec fn youtube_id(url: Seq<char>) -> Option<Seq<char>> {
    match url_reading(url) {
        None => None,
        Some((host, segs, query)) => {
            if host == Some("youtu.be"@) {
                match segs {
                    Some(s) => if s.len() > 0 { Some(s[0]) } else { None },
                    None => None,
                }
            } else {
                first_v(query)
            }
        },
    }
}

/// The first value of a `v` query pair.
pub open spec fn first_v(q: Seq<(Seq<char>, Seq<char>)>) -> Option<Seq<char>>
    decreases q.len(),
{
    if q.len() == 0 { None } else if q[0].0 == "v"@ { Some(q[0].1) } else { first_v(q.drop_first()) }
}

pub fn extract_video_id(url: &str) -> (r: Option<String>)
    ensures
        match r {
            Some(id) => youtube_id(url@) == Some(id@),
            None => youtube_id(url@) is None,
        },
{
    let parts = match parse_url(url) {
        Some(p) => p,
        None => return None,
    };
    let is_short = match &parts.host {
        Some(h) => str_eq(h.as_str(), "youtu.be"),
        None => false,
    };
    if is_short {
        return match &parts.segments {
            Some(s) => if s.len() > 0 { Some(s[0].clone()) } else { None },
            None => None,
        };
    }
    let ghost qv = parts.query@.map_values(|q: (String, String)| (q.0@, q.1@));
    assert(qv.skip(0) =~= qv);
    assert(url_parts_view(parts).0 != Some("youtu.be"@));
    let mut i: usize = 0;
    while i < parts.query.len()
        invariant
            i <= parts.query.len(),
            qv == parts.query@.map_values(|q: (String, String)| (q.0@, q.1@)),
            first_v(qv) == first_v(qv.skip(i as int)),
            url_reading(url@) == Some(url_parts_view(parts)),
            url_parts_view(parts).0 != Some("youtu.be"@),
        decreases parts.query.len() - i,
    {
        proof {
            assert(qv.skip(i as int).drop_first() =~= qv.skip(i + 1));
        }
        if str_eq(parts.query[i].0.as_str(), "v") {
            proof {
                assert(qv.skip(i as int)[0] == qv[i as int]);
            }
            return Some(parts.query[i].1.clone());
        }
        i += 1;
    }
    None
}

// ---------------------------------------------------------------------------
// Multipart forms
// ---------------------------------------------------------------------------

/// A file part of a form.
pub struct FilePart {
    pub name: String,
    pub filename: String,
    pub mime: String,
    pub bytes: Vec<u8>,
}

/// A submitted multipart form: its text fields (a later field of the same
/// name replaces an earlier one) and its files in order.
pub struct MultiForm {
    pub fields: Vec<(String, String)>,
    pub files: Vec<FilePart>,
}

/// Text parts have no content type or `text/plain`; all others are files.
pub open spec fn is_file_part(mime: Seq<char>) -> bool {
    mime.len() > 0 && mime != "text/plain"@
}

pub fn file_part(mime: &str) -> (r: bool)
    ensures
        r == is_file_part(mime@),
{
    !mime.is_empty() && !str_eq(mime, "text/plain")
}

/// Uploaded files may be at most 150 MiB.
pub open spec fn file_part_too_large(len: nat) -> bool {
    len > 150 * 1024 * 1024
}

pub fn part_too_large(len: usize) -> (r: bool)
    ensures
        r == file_part_too_large(len as nat),
{
    len > 150 * 1024 * 1024
}

/// The value stored for a field name, if any.
pub open spec fn field_value(fields: Seq<(String, String)>, name: Seq<char>) -> Option<Seq<char>>
    decreases fields.len(),
{
    if fields.len() == 0 {
        None
    } else if fields.last().0@ == name {
        Some(fields.last().1@)
    } else {
        field_value(fields.drop_last(), name)
    }
}

impl MultiForm {
    pub fn new() -> (f: MultiForm)
        ensures
            f.fields.len() == 0,
            f.files.len() == 0,
    {
        MultiForm { fields: Vec::new(), files: Vec::new() }
    }

    /// Records a text field; it replaces an earlier field of the same name.
    pub fn insert_field(&mut self, name: String, value: String)
        ensures
            forall|n: Seq<char>| field_value(final(self).fields@, n) == (if n == name@ { Some(value@) } else { field_value(old(self).fields@, n) }),
            final(self).files@ == old(self).files@,
    {
        let ghost n0 = name@;
        let ghost v0 = value@;
        self.fields.push((name, value));
        assert(self.fields@.drop_last() =~= old(self).fields@);
        assert forall|n: Seq<char>| field_value(self.fields@, n) == (if n == n0 { Some(v0) } else { field_value(old(self).fields@, n) }) by {
            assert(self.fields@.last().0@ == n0);
            assert(self.fields@.last().1@ == v0);
        }
    }

    /// A text field's value when it is non-empty.
    pub fn text(&self, name: &str) -> (r: Option<String>)
        ensures
            match field_value(self.fields@, name@) {
                Some(v) if v.len() > 0 => r matches Some(s) && s@ == v,
                _ => r is None,
            },
    {
        let mut i: usize = self.fields.len();
        assert(self.fields@.take(i as int) =~= self.fields@);
        while i > 0
            invariant
                i <= self.fields.len(),
                field_value(self.fields@, name@) == field_value(self.fields@.take(i as int), name@),
            decreases i,
        {
            proof {
                assert(self.fields@.take(i as int).drop_last() =~= self.fields@.take(i - 1));
            }
            if str_eq(self.fields[i - 1].0.as_str(), name) {
                let v = &self.fields[i - 1].1;
                if v.as_str().is_empty() {
                    return None;
                }
                return Some(v.clone());
            }
            i -= 1;
        }
        None
    }

    /// The first file part of that name with some content.
    pub fn file(&self, name: &str) -> (r: Option<usize>)
        ensures
            match r {
                Some(k) => k < self.files.len() && self.files[k as int].name@ == name@ && self.files[k as int].bytes.len() > 0
                    && forall|j: int| 0 <= j < k ==> !(self.files[j].name@ == name@ && self.files[j].bytes.len() > 0),
                None => forall|j: int| 0 <= j < self.files.len() ==> !(#[trigger] self.files[j].name@ == name@ && self.files[j].bytes.len() > 0),
            },
    {
        let mut i: usize = 0;
        while i < self.files.len()
            invariant
                i <= self.files.len(),
                forall|j: int| 0 <= j < i ==> !(#[trigger] self.files[j].name@ == name@ && self.files[j].bytes.len() > 0),
            decreases self.files.len() - i,
        {
            if str_eq(self.files[i].name.as_str(), name) && self.files[i].bytes.len() > 0 {
                return Some(i);
            }
            i += 1;
        }
        None
    }
}

// ---------------------------------------------------------------------------
// JSON in model replies
// ---------------------------------------------------------------------------

/// Where the JSON object of a model reply lies.
pub enum JsonSpan {
    /// No `{` or no `}` in the reply.
    NoObject,
    /// The last `}` comes before the first `{`, a span that cannot be cut.
    Reversed,
    /// The text from the first `{` to the last `}`.
    Span(String),
}

/// A reply with code fences removed: trimmed, every leading "```json" and
/// then every leading "```" dropped, every trailing "```" dropped, trimmed
/// again.
pub open spec fn defenced(text: Seq<char>) -> Seq<char> {
    trim(trim_end_matches(trim_start_matches(trim_start_matches(trim(text), "```json"@), "```"@), "```"@))
}

/// Removes the code fences around a model's reply (see [`defenced`]).
pub fn clean_reply(text: &str) -> (r: String)
    ensures
        r@ == defenced(text@),
{
    let cs = chars_of(text);
    let t1 = trim_chars(&cs);
    let json_fence: Vec<char> = vec!['`', '`', '`', 'j', 's', 'o', 'n'];
    let fence: Vec<char> = vec!['`', '`', '`'];
    proof {
        reveal_strlit("```json");
        reveal_strlit("```");
        assert(json_fence@ =~= "```json"@);
        assert(fence@ =~= "```"@);
    }
    let t2 = trim_start_matches_chars(&t1, &json_fence);
    let t3 = trim_start_matches_chars(&t2, &fence);
    let t4 = trim_end_matches_chars(&t3, &fence);
    let c = trim_chars(&t4);
    string_of(&c)
}

/// Position of the last `}`, or -1.
pub open spec fn last_close(s: Seq<char>) -> int
    decreases s.len(),
{
    if s.len() == 0 { -1 } else if s.last() == '}' { s.len() - 1 } else { last_close(s.drop_last()) }
}

proof fn lemma_last_close(s: Seq<char>, k: int)
    requires
        -1 <= k < s.len(),
        forall|j: int| k < j < s.len() ==> s[j] != '}',
        k == -1 || s[k] == '}',
    ensures
        last_close(s) == k,
    decreases s.len(),
{
    if s.len() > 0 && k < s.len() - 1 {
        lemma_last_close(s.drop_last(), k);
    }
}

/// Finds the span of the JSON object in a model reply: from its first `{`
/// to its last `}`. Parsing the span is the caller's.
pub fn json_block_span(text: &str) -> (r: JsonSpan)
    ensures
        ({
            let c = defenced(text@);
            let s = index_of_char(c, '{');
            let e = last_close(c);
            match r {
                JsonSpan::NoObject => s < 0 || e < 0,
                JsonSpan::Reversed => s >= 0 && e >= 0 && e < s,
                JsonSpan::Span(t) => s >= 0 && e >= s && t@ == c.subrange(s, e + 1),
            }
        }),
{
    let cs = chars_of(text);
    let t1 = trim_chars(&cs);
    let json_fence: Vec<char> = vec!['`', '`', '`', 'j', 's', 'o', 'n'];
    let fence: Vec<char> = vec!['`', '`', '`'];
    proof {
        reveal_strlit("```json");
        reveal_strlit("```");
        assert(json_fence@ =~= "```json"@);
        assert(fence@ =~= "```"@);
    }
    let t2 = trim_start_matches_chars(&t1, &json_fence);
    let t3 = trim_start_matches_chars(&t2, &fence);
    let t4 = trim_end_matches_chars(&t3, &fence);
    let c = trim_chars(&t4);
    let mut s: usize = 0;
    while s < c.len() && c[s] != '{'
        invariant
            s <= c.len(),
            forall|j: int| 0 <= j < s ==> c@[j] != '{',
        decreases c.len() - s,
    {
        s += 1;
    }
    proof {
        lemma_index_of_char(c@, '{', s as int);
    }
    let mut e: usize = c.len();
    while e > 0 && c[e - 1] != '}'
        invariant
            e <= c.len(),
            forall|j: int| e <= j < c.len() ==> c@[j] != '}',
        decreases e,
    {
        e -= 1;
    }
    proof {
        lemma_last_close(c@, e - 1);
    }
    if s == c.len() || e == 0 {
        return JsonSpan::NoObject;
    }
    let last = e - 1;
    if last < s {
        return JsonSpan::Reversed;
    }
    let mut out: Vec<char> = Vec::new();
    let mut i: usize = s;
    while i <= last
        invariant
            s <= i <= last + 1,
            last < c.len(),
            out@ == c@.subrange(s as int, i as int),
        decreases last + 1 - i,
    {
        out.push(c[i]);
        i += 1;
        assert(c@.subrange(s as int, i as int) =~= c@.subrange(s as int, i - 1).push(c@[i - 1]));
    }
    JsonSpan::Span(string_of(&out))
}

/// Where an uploaded watermark is kept: `watermark.` and the upload's
/// extension (`png` when it has none).
pub fn watermark_file_name(file_name: &str) -> (r: String)
    ensures
        r@ == "watermark."@ + (match extension_of(file_name@) { Some(e) => e, None => "png"@ }),
{
    let mut out = owned("watermark.");
    match file_extension(file_name) {
        Some(e) => push_str(&mut out, e.as_str()),
        None => push_str(&mut out, "png"),
    }
    out
}

/// The caption templates offered to users (JSON text).
pub open spec fn caption_templates_text() -> Seq<char> {
    r##"{"templates":[{"id":"default","name":"Default","description":"Punchy word-by-word captions with pop highlight and emojis","animation":"karaoke","highlight_color":"#FFE000"},{"id":"hormozi","name":"Hormozi","description":"Bold green highlight with pill behind active word","animation":"karaoke","highlight_color":"#00FF66"},{"id":"mrbeast","name":"MrBeast","description":"Large yellow text with red pop highlights","animation":"karaoke","highlight_color":"#FF2D2D"},{"id":"minimal","name":"Minimal","description":"Clean, subtle captions with soft background","animation":"fade","highlight_color":"#FFFFFF"},{"id":"tiktok","name":"TikTok","description":"TikTok-style with pink pop highlights","animation":"karaoke","highlight_color":"#FE2C55"},{"id":"neon","name":"Neon","description":"Glowing neon text with magenta highlights","animation":"karaoke","highlight_color":"#FF00FF"},{"id":"podcast","name":"Podcast","description":"Professional podcast-style captions","animation":"karaoke","highlight_color":"#FFB800"}]}"##@
}

pub fn caption_templates() -> (r: &'static str)
    ensures
        r@ == caption_templates_text(),
{
    r##"{"templates":[{"id":"default","name":"Default","description":"Punchy word-by-word captions with pop highlight and emojis","animation":"karaoke","highlight_color":"#FFE000"},{"id":"hormozi","name":"Hormozi","description":"Bold green highlight with pill behind active word","animation":"karaoke","highlight_color":"#00FF66"},{"id":"mrbeast","name":"MrBeast","description":"Large yellow text with red pop highlights","animation":"karaoke","highlight_color":"#FF2D2D"},{"id":"minimal","name":"Minimal","description":"Clean, subtle captions with soft background","animation":"fade","highlight_color":"#FFFFFF"},{"id":"tiktok","name":"TikTok","description":"TikTok-style with pink pop highlights","animation":"karaoke","highlight_color":"#FE2C55"},{"id":"neon","name":"Neon","description":"Glowing neon text with magenta highlights","animation":"karaoke","highlight_color":"#FF00FF"},{"id":"podcast","name":"Podcast","description":"Professional podcast-style captions","animation":"karaoke","highlight_color":"#FFB800"}]}"##
}

/// The caption fonts bundled with the app (JSON text).
pub open spec fn caption_fonts_text() -> Seq<char> {
    r##"{"fonts":[{"name":"THEBOLDFONT","display_name":"The Bold Font","format":"ttf"},{"name":"TikTokSans-Regular","display_name":"TikTok Sans Regular","format":"ttf"},{"name":"TikTokSans-Bold","display_name":"TikTok Sans Bold","format":"ttf"}]}"##@
}

pub fn caption_fonts() -> (r: &'static str)
    ensures
        r@ == caption_fonts_text(),
{
    r##"{"fonts":[{"name":"THEBOLDFONT","display_name":"The Bold Font","format":"ttf"},{"name":"TikTokSans-Regular","display_name":"TikTok Sans Regular","format":"ttf"},{"name":"TikTokSans-Bold","display_name":"TikTok Sans Bold","format":"ttf"}]}"##
}

} // verus!
