//! YouTube studio: the requests for thumbnails, titles and descriptions.
//! What the routes decide (which model, how many variants, which refusal)
//! and the prompts they send are verified here; the HTTP exchanges with
//! Gemini are the application's.
use vstd::prelude::*;
use crate::text::{owned, push_str, str_eq, str_trim, trim, parse_unsigned, parse_unsigned_str, decimal};
use crate::caption::push_nat;
use crate::codec::{base64_encode, b64_encode, image_data_url, data_url};
use crate::media::FilePart;

verus! {

pub open spec fn opt_str(o: Option<&str>) -> Option<Seq<char>> {
    match o { Some(s) => Some(s@), None => None }
}

/// A form value that is present and not blank.
pub open spec fn given(o: Option<Seq<char>>) -> Option<Seq<char>> {
    match o { Some(v) if trim(v).len() > 0 => Some(v), _ => None }
}

fn given_str<'a>(o: Option<&'a str>) -> (r: Option<&'a str>)
    ensures
        opt_str(r) == given(opt_str(o)),
{
    match o {
        Some(v) => {
            let t = str_trim(v);
            if t.as_str().is_empty() { None } else { Some(v) }
        },
        None => None,
    }
}

/// The image model a thumbnail is drawn with: the form's `image_model`, else
/// its `llm_provider`, else the configured thumbnail model, else the default
/// image model.
pub open spec fn image_model_of(image_model: Option<Seq<char>>, llm_provider: Option<Seq<char>>, configured: Option<Seq<char>>) -> Seq<char> {
    match given(image_model) {
        Some(m) => m,
        None => match given(llm_provider) {
            Some(m) => m,
            None => match configured { Some(c) => c, None => "gemini-3.1-flash-image-preview"@ },
        },
    }
}

pub fn image_model(requested: Option<&str>, llm_provider: Option<&str>, configured: Option<&str>) -> (r: String)
    ensures
        r@ == image_model_of(opt_str(requested), opt_str(llm_provider), opt_str(configured)),
{
    match given_str(requested) {
        Some(m) => owned(m),
        None => match given_str(llm_provider) {
            Some(m) => owned(m),
            None => match configured { Some(c) => owned(c), None => owned("gemini-3.1-flash-image-preview") },
        },
    }
}

/// The text model: the request's `llm_provider` when not blank, else the
/// configured model, else the default.
pub open spec fn text_model_of(llm_provider: Option<Seq<char>>, configured: Option<Seq<char>>) -> Seq<char> {
    match given(llm_provider) {
        Some(m) => m,
        None => match configured { Some(c) => c, None => "gemini-3.1-flash-lite"@ },
    }
}

pub fn text_model(llm_provider: Option<&str>, configured: Option<&str>) -> (r: String)
    ensures
        r@ == text_model_of(opt_str(llm_provider), opt_str(configured)),
{
    match given_str(llm_provider) {
        Some(m) => owned(m),
        None => match configured { Some(c) => owned(c), None => owned("gemini-3.1-flash-lite") },
    }
}

/// The look asked of a thumbnail, by its style name (`viral` by default).
pub open spec fn thumbnail_style_of(style: Seq<char>) -> Seq<char> {
    if style == "comparison"@ {
        "before/after split comparison thumbnail style"@
    } else if style == "text"@ {
        "bold text overlay with high contrast"@
    } else if style == "minimal"@ {
        "clean minimal design with one focal element"@
    } else if style == "step"@ {
        "numbered step-by-step layout"@
    } else {
        "viral YouTube reaction-style thumbnail with face and bold text"@
    }
}

pub fn thumbnail_style(style: &str) -> (r: String)
    ensures
        r@ == thumbnail_style_of(style@),
{
    if str_eq(style, "comparison") {
        owned("before/after split comparison thumbnail style")
    } else if str_eq(style, "text") {
        owned("bold text overlay with high contrast")
    } else if str_eq(style, "minimal") {
        owned("clean minimal design with one focal element")
    } else if str_eq(style, "step") {
        owned("numbered step-by-step layout")
    } else {
        owned("viral YouTube reaction-style thumbnail with face and bold text")
    }
}

/// The title style asked for, by tone (`viral` by default).
pub open spec fn tone_of(tone: Seq<char>) -> Seq<char> {
    if tone == "educational"@ {
        "educational how-to style"@
    } else if tone == "story"@ {
        "story-driven curiosity gap style"@
    } else if tone == "controversial"@ {
        "controversial debate-sparking style"@
    } else if tone == "listicle"@ {
        "listicle top-N style"@
    } else {
        "viral clickbaity style"@
    }
}

pub fn tone_description(tone: &str) -> (r: String)
    ensures
        r@ == tone_of(tone@),
{
    if str_eq(tone, "educational") {
        owned("educational how-to style")
    } else if str_eq(tone, "story") {
        owned("story-driven curiosity gap style")
    } else if str_eq(tone, "controversial") {
        owned("controversial debate-sparking style")
    } else if str_eq(tone, "listicle") {
        owned("listicle top-N style")
    } else {
        owned("viral clickbaity style")
    }
}

/// A count field: the number it holds (`default` when absent or not a
/// number), held within `lo..=hi`.
pub open spec fn count_of(field: Option<Seq<char>>, default: nat, lo: nat, hi: nat) -> nat {
    let n = match field {
        Some(v) => match parse_unsigned(v, usize::MAX as nat) { Some(n) => n, None => default },
        None => default,
    };
    if n < lo { lo } else if n > hi { hi } else { n }
}

pub fn count_field(field: Option<&str>, default: usize, lo: usize, hi: usize) -> (r: usize)
    requires
        lo <= hi,
    ensures
        r as nat == count_of(opt_str(field), default as nat, lo as nat, hi as nat),
{
    let n: u64 = match field {
        Some(v) => match parse_unsigned_str(v, usize::MAX as u64) { Some(n) => n, None => default as u64 },
        None => default as u64,
    };
    if n < lo as u64 { lo } else if n > hi as u64 { hi } else { n as usize }
}

/// The title a thumbnail is designed around: the form's title, else its
/// topic; refused when neither holds anything but blanks.
pub fn thumbnail_title(title: Option<&str>, topic: Option<&str>) -> (r: Result<String, String>)
    ensures
        ({
            let t = match title { Some(x) => x@, None => match topic { Some(y) => y@, None => ""@ } };
            match r {
                Ok(s) => s@ == t && trim(t).len() > 0,
                Err(e) => e@ == "A video title or topic is required"@ && trim(t).len() == 0,
            }
        }),
{
    proof {
        reveal_strlit("");
    }
    let t = match title { Some(x) => owned(x), None => match topic { Some(y) => owned(y), None => owned("") } };
    let tt = str_trim(t.as_str());
    if tt.as_str().is_empty() {
        Err(owned("A video title or topic is required"))
    } else {
        Ok(t)
    }
}

/// The thumbnail request: the title, the video's context and the user's own
/// instructions when given, the text and design rules, and the use of the
/// face and background images when attached.
pub open spec fn thumbnail_prompt_text(title: Seq<char>, context: Seq<char>, extra: Seq<char>, style: Seq<char>, has_face: bool, has_bg: bool) -> Seq<char> {
    "Generate a professional, eye-catching YouTube thumbnail image.\n\nVIDEO TITLE (for reference — do NOT put the full title on the thumbnail): \""@
        + title + "\"\n\n"@
        + (if trim(context).len() > 0 { "VIDEO CONTEXT (use this to understand the video and design a relevant thumbnail):\n"@ + context + "\n\n"@ } else { seq![] })
        + "TEXT ON THE THUMBNAIL:\n- Create a SHORT visual hook: 1 to 5 words maximum, based on the title and context\n- The thumbnail text should COMPLEMENT the title, not repeat it\n- Use ALL CAPS for maximum impact, split into 2-3 lines\n"@
        + (if trim(extra).len() > 0 { "MANDATORY USER INSTRUCTIONS (MUST follow these exactly — they override any default behavior):\n"@ + extra + "\n\n"@ } else { seq![] })
        + "DESIGN REQUIREMENTS:\n- "@ + style
        + "\n- The text MUST be large, bold, and high-contrast (readable at small sizes)\n- Use vibrant, eye-catching colors that match the video's mood\n- Professional YouTube thumbnail aesthetic\n- Clean composition — text and face/subject as clear focal points\n- NO clutter, NO small text, NO watermarks\n- The image should be exactly 16:9."@
        + (if has_face { "\n- Include the provided face/person prominently with an exaggerated expression (surprise, excitement, shock)"@ } else { seq![] })
        + (if has_bg { "\n- Use the provided background image as the base/backdrop"@ } else { seq![] })
}

#[verifier::rlimit(40)]
pub fn thumbnail_prompt(title: &str, context: &str, extra: &str, style: &str, has_face: bool, has_bg: bool) -> (r: String)
    ensures
        r@ == thumbnail_prompt_text(title@, context@, extra@, style@, has_face, has_bg),
{
    let mut out = owned("Generate a professional, eye-catching YouTube thumbnail image.\n\nVIDEO TITLE (for reference — do NOT put the full title on the thumbnail): \"");
    push_str(&mut out, title);
    push_str(&mut out, "\"\n\n");
    let ghost a = out@;
    if !str_trim(context).as_str().is_empty() {
        push_str(&mut out, "VIDEO CONTEXT (use this to understand the video and design a relevant thumbnail):\n");
        push_str(&mut out, context);
        push_str(&mut out, "\n\n");
    } else {
        assert(a + Seq::<char>::empty() =~= a);
    }
    push_str(&mut out, "TEXT ON THE THUMBNAIL:\n- Create a SHORT visual hook: 1 to 5 words maximum, based on the title and context\n- The thumbnail text should COMPLEMENT the title, not repeat it\n- Use ALL CAPS for maximum impact, split into 2-3 lines\n");
    let ghost b = out@;
    if !str_trim(extra).as_str().is_empty() {
        push_str(&mut out, "MANDATORY USER INSTRUCTIONS (MUST follow these exactly — they override any default behavior):\n");
        push_str(&mut out, extra);
        push_str(&mut out, "\n\n");
    } else {
        assert(b + Seq::<char>::empty() =~= b);
    }
    push_str(&mut out, "DESIGN REQUIREMENTS:\n- ");
    push_str(&mut out, style);
    push_str(&mut out, "\n- The text MUST be large, bold, and high-contrast (readable at small sizes)\n- Use vibrant, eye-catching colors that match the video's mood\n- Professional YouTube thumbnail aesthetic\n- Clean composition — text and face/subject as clear focal points\n- NO clutter, NO small text, NO watermarks\n- The image should be exactly 16:9.");
    let ghost c = out@;
    if has_face {
        push_str(&mut out, "\n- Include the provided face/person prominently with an exaggerated expression (surprise, excitement, shock)");
    } else {
        assert(c + Seq::<char>::empty() =~= c);
    }
    let ghost d = out@;
    if has_bg {
        push_str(&mut out, "\n- Use the provided background image as the base/backdrop");
    } else {
        assert(d + Seq::<char>::empty() =~= d);
    }
    assert(out@ =~= thumbnail_prompt_text(title@, context@, extra@, style@, has_face, has_bg));
    out
}

/// An attached image as the model receives it inline: its media type and its
/// bytes in standard Base64.
pub fn inline_image(part: &FilePart) -> (r: (String, String))
    ensures
        r.0@ == part.mime@,
        r.1@ == b64_encode(part.bytes@),
{
    (part.mime.clone(), base64_encode(&part.bytes))
}

/// The refusal when a thumbnail variant came back without an image.
pub open spec fn no_image_text(variant: nat, model: Seq<char>) -> Seq<char> {
    "Gemini returned no image for variant "@ + decimal(variant) + " — the model '"@ + model
        + "' cannot generate images. Use a Gemini image model (e.g. gemini-3.1-flash-image-preview)."@
}

pub fn no_image_message(index: u32, model: &str) -> (r: String)
    ensures
        r@ == no_image_text(index as nat + 1, model@),
{
    let mut out = owned("Gemini returned no image for variant ");
    push_nat(&mut out, index as u64 + 1);
    push_str(&mut out, " — the model '");
    push_str(&mut out, model);
    push_str(&mut out, "' cannot generate images. Use a Gemini image model (e.g. gemini-3.1-flash-image-preview).");
    out
}

/// A generated thumbnail as a `data:` URL.
pub fn thumbnail_url(mime: &str, image_b64: &str) -> (r: String)
    ensures
        r@ == data_url(mime@, image_b64@),
{
    image_data_url(mime, image_b64)
}

// ---------------------------------------------------------------------------
// Titles and descriptions
// ---------------------------------------------------------------------------

/// The reference material of a title or description request, each part only
/// when it is not blank.
pub open spec fn context_text(transcript: Seq<char>, video_url: Seq<char>, topic: Seq<char>) -> Seq<char> {
    (if trim(transcript).len() > 0 { "TRANSCRIPT:\n"@ + transcript + "\n"@ } else { seq![] })
        + (if trim(video_url).len() > 0 { "VIDEO URL: "@ + video_url + "\n"@ } else { seq![] })
        + (if trim(topic).len() > 0 { "VIDEO TOPIC: "@ + topic + "\n"@ } else { seq![] })
}

pub fn context_block(transcript: &str, video_url: &str, topic: &str) -> (r: String)
    ensures
        r@ == context_text(transcript@, video_url@, topic@),
{
    let mut out = String::new();
    proof {
        reveal_strlit("");
    }
    let ghost e = out@;
    if !str_trim(transcript).as_str().is_empty() {
        push_str(&mut out, "TRANSCRIPT:\n");
        push_str(&mut out, transcript);
        push_str(&mut out, "\n");
    }
    let ghost a = out@;
    if !str_trim(video_url).as_str().is_empty() {
        push_str(&mut out, "VIDEO URL: ");
        push_str(&mut out, video_url);
        push_str(&mut out, "\n");
    }
    let ghost b = out@;
    if !str_trim(topic).as_str().is_empty() {
        push_str(&mut out, "VIDEO TOPIC: ");
        push_str(&mut out, topic);
        push_str(&mut out, "\n");
    }
    assert(out@ =~= context_text(transcript@, video_url@, topic@));
    out
}

/// Whether a title or description request has anything to work from.
pub fn has_material(topic: &str, transcript: &str, video_url: &str, has_video: bool) -> (r: bool)
    ensures
        r == (trim(topic@).len() > 0 || trim(transcript@).len() > 0 || trim(video_url@).len() > 0 || has_video),
{
    !str_trim(topic).as_str().is_empty() || !str_trim(transcript).as_str().is_empty()
        || !str_trim(video_url).as_str().is_empty() || has_video
}

/// The titles request: how many titles, the reference material, and the
/// style asked for.
pub open spec fn titles_prompt_text(count: nat, context: Seq<char>, tone: Seq<char>) -> Seq<char> {
    "You are a YouTube title expert who creates viral, click-worthy titles.\n\nAnalyze the video and its transcript, then suggest "@
        + decimal(count) + " YouTube titles that would maximize CTR (click-through rate).\n\n"@ + context
        + "\nRULES:\n- Titles must be under 70 characters\n- Use power words, curiosity gaps, and emotional triggers\n- Mix styles: how-to, listicle, story-driven, controversial, question-based ("@
        + tone + ")\n- Make them specific to the actual content, not generic\n- Include numbers where appropriate\n- Titles should be in the SAME LANGUAGE as the video\n\nAlso provide a brief summary of the video content (2-3 sentences), and pick the TOP 2 most recommended titles with concise reasons (reference them by their 0-based index in the titles array).\n\nOUTPUT JSON: {\"titles\": [\"title1\", \"title2\", ...], \"transcript_summary\": \"Brief summary...\", \"language\": \"...\", \"recommended\": [{\"index\": 0, \"reason\": \"Why this title is best...\"}]}"@
}

pub fn titles_prompt(count: u64, context: &str, tone: &str) -> (r: String)
    ensures
        r@ == titles_prompt_text(count as nat, context@, tone@),
{
    let mut out = owned("You are a YouTube title expert who creates viral, click-worthy titles.\n\nAnalyze the video and its transcript, then suggest ");
    push_nat(&mut out, count);
    push_str(&mut out, " YouTube titles that would maximize CTR (click-through rate).\n\n");
    push_str(&mut out, context);
    push_str(&mut out, "\nRULES:\n- Titles must be under 70 characters\n- Use power words, curiosity gaps, and emotional triggers\n- Mix styles: how-to, listicle, story-driven, controversial, question-based (");
    push_str(&mut out, tone);
    push_str(&mut out, ")\n- Make them specific to the actual content, not generic\n- Include numbers where appropriate\n- Titles should be in the SAME LANGUAGE as the video\n\nAlso provide a brief summary of the video content (2-3 sentences), and pick the TOP 2 most recommended titles with concise reasons (reference them by their 0-based index in the titles array).\n\nOUTPUT JSON: {\"titles\": [\"title1\", \"title2\", ...], \"transcript_summary\": \"Brief summary...\", \"language\": \"...\", \"recommended\": [{\"index\": 0, \"reason\": \"Why this title is best...\"}]}");
    out
}

/// The current titles numbered from 1, one per line.
pub open spec fn numbered_titles(ts: Seq<Seq<char>>) -> Seq<char>
    decreases ts.len(),
{
    if ts.len() == 0 {
        seq![]
    } else if ts.len() == 1 {
        "1. "@ + ts[0]
    } else {
        numbered_titles(ts.drop_last()) + "\n"@ + decimal(ts.len() as nat) + ". "@ + ts.last()
    }
}

pub fn number_titles(ts: &Vec<String>) -> (r: String)
    ensures
        r@ == numbered_titles(ts@.map_values(|s: String| s@)),
{
    let ghost tv = ts@.map_values(|s: String| s@);
    let mut out = String::new();
    let mut i: usize = 0;
    proof {
        reveal_strlit("");
    }
    while i < ts.len()
        invariant
            i <= ts.len(),
            tv == ts@.map_values(|s: String| s@),
            out@ == numbered_titles(tv.take(i as int)),
        decreases ts.len() - i,
    {
        let ghost before = out@;
        if i > 0 {
            push_str(&mut out, "\n");
        }
        push_nat(&mut out, i as u64 + 1);
        push_str(&mut out, ". ");
        push_str(&mut out, ts[i].as_str());
        proof {
            assert(tv.take(i + 1).drop_last() =~= tv.take(i as int));
            assert(tv[i as int] == ts@[i as int]@);
            if i == 0 {
                assert(decimal(1) =~= seq!['1']) by {
                    reveal_with_fuel(decimal, 2);
                }
                reveal_strlit("1. ");
                reveal_strlit(". ");
                assert(before.len() == 0);
                assert(out@ =~= "1. "@ + tv.take(1)[0]);
            }
        }
        i += 1;
    }
    assert(tv.take(i as int) =~= tv);
    out
}

/// The request to refine titles along a user's instruction.
pub open spec fn refine_prompt_text(topic: Seq<char>, titles: Seq<char>, instruction: Seq<char>) -> Seq<char> {
    "Current YouTube titles for topic \""@ + topic + "\":\n"@ + titles + "\n\nUser instruction: \""@ + instruction
        + "\"\n\nRefine these titles based on the instruction. Return the full refined list. Return JSON: {\"titles\": [\"refined title 1\", ...], \"response\": \"friendly confirmation message\"}"@
}

pub fn refine_prompt(topic: &str, titles: &Vec<String>, instruction: &str) -> (r: String)
    ensures
        r@ == refine_prompt_text(topic@, numbered_titles(titles@.map_values(|s: String| s@)), instruction@),
{
    let list = number_titles(titles);
    let mut out = owned("Current YouTube titles for topic \"");
    push_str(&mut out, topic);
    push_str(&mut out, "\":\n");
    push_str(&mut out, list.as_str());
    push_str(&mut out, "\n\nUser instruction: \"");
    push_str(&mut out, instruction);
    push_str(&mut out, "\"\n\nRefine these titles based on the instruction. Return the full refined list. Return JSON: {\"titles\": [\"refined title 1\", ...], \"response\": \"friendly confirmation message\"}");
    out
}

/// The description request around the reference material.
pub open spec fn description_prompt_text(context: Seq<char>) -> Seq<char> {
    "You are a YouTube SEO expert. Generate a complete YouTube video description with chapter markers.\n\nVIDEO REFERENCE:\n"@
        + context
        + "\nREQUIREMENTS:\n1. Start with a compelling 2-3 sentence summary hook\n2. Add relevant CTAs (subscribe, like, comment)\n3. Generate YouTube CHAPTERS based on the video/transcript timestamps: first chapter MUST start at 0:00, minimum 3 chapters, each at least 10 seconds apart, concise descriptive titles\n4. Add 5-10 relevant hashtags at the end\n5. Keep the total description under 5000 characters\n6. Write the description in the SAME LANGUAGE as the video\n\nOUTPUT JSON: {\"description\": \"full description text with formatting and chapters\", \"chapters\": [{\"time\": \"0:00\", \"title\": \"Introduction\"}]}"@
}

pub fn description_prompt(context: &str) -> (r: String)
    ensures
        r@ == description_prompt_text(context@),
{
    let mut out = owned("You are a YouTube SEO expert. Generate a complete YouTube video description with chapter markers.\n\nVIDEO REFERENCE:\n");
    push_str(&mut out, context);
    push_str(&mut out, "\nREQUIREMENTS:\n1. Start with a compelling 2-3 sentence summary hook\n2. Add relevant CTAs (subscribe, like, comment)\n3. Generate YouTube CHAPTERS based on the video/transcript timestamps: first chapter MUST start at 0:00, minimum 3 chapters, each at least 10 seconds apart, concise descriptive titles\n4. Add 5-10 relevant hashtags at the end\n5. Keep the total description under 5000 characters\n6. Write the description in the SAME LANGUAGE as the video\n\nOUTPUT JSON: {\"description\": \"full description text with formatting and chapters\", \"chapters\": [{\"time\": \"0:00\", \"title\": \"Introduction\"}]}");
    out
}

/// At most `count` of the generated titles, the first ones.
pub fn keep_titles(titles: &Vec<String>, count: usize) -> (r: Vec<String>)
    ensures
        r@.map_values(|s: String| s@) == titles@.map_values(|s: String| s@).take(if count < titles.len() { count as int } else { titles.len() as int }),
{
    let n = if count < titles.len() { count } else { titles.len() };
    let mut out: Vec<String> = Vec::new();
    let mut i: usize = 0;
    while i < n
        invariant
            i <= n,
            n <= titles.len(),
            out.len() == i,
            forall|k: int| 0 <= k < i ==> #[trigger] out@[k]@ == titles@[k]@,
        decreases n - i,
    {
        out.push(titles[i].clone());
        i += 1;
    }
    assert(out@.map_values(|s: String| s@) =~= titles@.map_values(|s: String| s@).take(n as int));
    out
}

// ---------------------------------------------------------------------------
// Video uploads to the Gemini Files API
// ---------------------------------------------------------------------------

/// The endpoint that starts a resumable upload.
pub fn upload_start_url(key: &str) -> (r: String)
    ensures
        r@ == "https://generativelanguage.googleapis.com/upload/v1beta/files?key="@ + key@,
{
    let mut out = owned("https://generativelanguage.googleapis.com/upload/v1beta/files?key=");
    push_str(&mut out, key);
    out
}

/// The URI an uploaded file is referred to by.
pub fn uploaded_file_uri(name: &str) -> (r: String)
    ensures
        r@ == "https://generativelanguage.googleapis.com/v1beta/"@ + name@,
{
    let mut out = owned("https://generativelanguage.googleapis.com/v1beta/");
    push_str(&mut out, name);
    out
}

/// The endpoint that reports an uploaded file's state.
pub fn file_status_url(name: &str, key: &str) -> (r: String)
    ensures
        r@ == "https://generativelanguage.googleapis.com/v1beta/"@ + name@ + "?key="@ + key@,
{
    let mut out = owned("https://generativelanguage.googleapis.com/v1beta/");
    push_str(&mut out, name);
    push_str(&mut out, "?key=");
    push_str(&mut out, key);
    out
}

/// The number of times an upload's state is checked before giving up.
pub open spec fn upload_checks() -> nat {
    30
}

/// What one check of an uploaded file tells the caller.
#[derive(PartialEq, Eq, Structural, Clone, Copy, Debug)]
pub enum UploadState {
    Active,
    Failed,
    Pending,
}

/// The next step of an upload after its `attempt`-th check (from 0) read
/// `state`: the file is ready, refused, still processing, or, after the
/// thirtieth check, given up on. The refusals carry their messages.
pub fn upload_check(state: Option<&str>, attempt: u32) -> (r: (UploadState, Option<String>))
    ensures
        match opt_str(state) {
            Some(s) if s == "ACTIVE"@ => r.0 == UploadState::Active && r.1 is None,
            Some(s) if s == "FAILED"@ => r.0 == UploadState::Failed && (r.1 matches Some(m) && m@ == "Gemini rejected the uploaded video"@),
            _ => r.0 == UploadState::Pending && (if attempt + 1 >= upload_checks() {
                r.1 matches Some(m) && m@ == "Timed out waiting for Gemini to process the video"@
            } else {
                r.1 is None
            }),
        },
{
    match state {
        Some(s) => {
            if str_eq(s, "ACTIVE") {
                return (UploadState::Active, None);
            }
            if str_eq(s, "FAILED") {
                return (UploadState::Failed, Some(owned("Gemini rejected the uploaded video")));
            }
        },
        None => {},
    }
    if attempt >= 29 {
        (UploadState::Pending, Some(owned("Timed out waiting for Gemini to process the video")))
    } else {
        (UploadState::Pending, None)
    }
}

/// A count field always lands within its bounds, and a count already within
/// them is kept.
pub proof fn lemma_count_in_bounds(field: Option<Seq<char>>, default: nat, lo: nat, hi: nat)
    requires
        lo <= hi,
    ensures
        lo <= count_of(field, default, lo, hi) <= hi,
        (field matches Some(v) && parse_unsigned(v, usize::MAX as nat) matches Some(n) && lo <= n <= hi) ==> count_of(field, default, lo, hi) == parse_unsigned(field.unwrap(), usize::MAX as nat).unwrap(),
{
}

} // verus!
