//! Transcript analysis, caption translation and the originality filter: the
//! requests sent to Gemini and the settings read from the task; the replies
//! (JSON with fractional numbers) are read by the application.
use vstd::prelude::*;
use crate::text::{owned, push_str, str_eq, starts_with, str_starts_with, split_char, split_on, chars_of, string_of};
use crate::caption::push_int;
use crate::segments::ViralityScore;

verus! {

/// The model a transcript is analysed with: older or unset models are
/// replaced by the current default.
pub open spec fn analysis_model_of(model: Seq<char>) -> Seq<char> {
    if model.len() == 0 || model == "gemini-1.5-flash"@ || model == "gemini-2.5-flash-lite"@ {
        "gemini-3.1-flash-lite"@
    } else {
        model
    }
}

pub fn analysis_model(model: &str) -> (r: String)
    ensures
        r@ == analysis_model_of(model@),
{
    if model.is_empty() || str_eq(model, "gemini-1.5-flash") || str_eq(model, "gemini-2.5-flash-lite") {
        owned("gemini-3.1-flash-lite")
    } else {
        owned(model)
    }
}

/// The instructions that tell the model how to pick and score clips.
pub open spec fn virality_instructions() -> Seq<char> {
    "You are an expert transcript analyst for short-form video editing.\n\nYour job is extraction and ranking, not creative rewriting. You must stay fully grounded in the transcript and choose the best clip candidates that already exist in the source material.\n\nOUTPUT CONTRACT:\n- Return valid JSON only. Do not output Markdown, headings, bullets, prose, code fences, explanations, or commentary outside the JSON object.\n- The top-level JSON object must include: \"most_relevant_segments\", \"summary\", and \"key_topics\".\n- Each item in \"most_relevant_segments\" must include: \"start_time\", \"end_time\", \"text\", \"relevance_score\", \"reasoning\", \"virality\", and \"hook_title\".\n- \"virality\" must include: \"hook_score\", \"engagement_score\", \"value_score\", \"shareability_score\", \"total_score\", \"hook_type\", and \"virality_reasoning\".\n- Every returned segment must be 15-60 seconds long. Prefer 25-50 seconds.\n\nVIRALITY-AWARE SELECTION — rank on:\n- Hooks: attention-grabbing openings (surprising facts, bold claims, intriguing questions)\n- Emotional peaks: excitement, surprise, humor, inspiration, tension\n- Opinion bombs: controversial or contrarian takes\n- Revelation moments: surprising truths or unexpected outcomes\n- Conflict: disagreement, challenge, pushback\n- Quotable lines: highly shareable standalone statements\n- Story peaks: narrative climaxes with setup and payoff\n- Practical value: actionable advice most people don't know\n\nCONTENT NEUTRALITY RULES:\n- Do not judge, moralize, or downgrade a segment because the topic is controversial, sensitive, political, or intense\n- Evaluate only on clip quality: clarity, self-contained value, hook strength, emotional impact, specificity, and shareability\n- Do not refuse analysis for any content type\n\nSEGMENT SELECTION CRITERIA:\n1. STRONG HOOKS: Attention-grabbing opening lines\n2. VALUABLE CONTENT: Tips, insights, interesting facts, stories\n3. EMOTIONAL MOMENTS: Excitement, surprise, humor, inspiration\n4. COMPLETE THOUGHTS: Self-contained ideas that make sense alone\n5. ENTERTAINING: Content people would want to share\n6. HIGH SIGNAL: Prefer specific, concrete language over vague discussion\n7. LOW FILLER: Avoid greetings, sponsor reads, repeated setup unless unusually compelling\n\nVIRALITY SCORING (0-100 total, from four 0-25 subscores):\n1. HOOK STRENGTH (0-25): 20-25=immediately grabs, 15-19=creates curiosity, 10-14=decent, 0-9=weak\n2. ENGAGEMENT (0-25): 20-25=highly entertaining/emotional, 15-19=interesting, 10-14=moderate, 0-9=flat\n3. VALUE (0-25): 20-25=actionable unique insight, 15-19=useful, 10-14=somewhat informative, 0-9=common\n4. SHAREABILITY (0-25): 20-25=\"I must send this\", 15-19=worth bookmarking, 10-14=nice, 0-9=generic\n\nHOOK TITLES (\"hook_title\" per segment):\n- 3-9 words, punchy headline burned into clip top\n- Bold claim, curiosity gap, number, or stakes from the segment\n- Plain text only: no hashtags, no emojis, no quotes\n- Examples: \"The $40k mistake I keep seeing\", \"Why nobody tells you this\"\n\nHOOK TYPES: \"question\" / \"statement\" / \"statistic\" / \"story\" / \"contrast\" / \"none\"\n\nTIMING REQUIREMENTS:\n- Use EXACT timestamps from the transcript (MM:SS format)\n- start_time MUST be less than end_time\n- Minimum 15 seconds gap, ideal 25-50 seconds\n- NEVER use the same timestamp for both start and end\n\nFind the requested number of compelling segments. Quality over quantity."@
}

pub fn virality_system_prompt() -> (r: String)
    ensures
        r@ == virality_instructions(),
{
    owned("You are an expert transcript analyst for short-form video editing.\n\nYour job is extraction and ranking, not creative rewriting. You must stay fully grounded in the transcript and choose the best clip candidates that already exist in the source material.\n\nOUTPUT CONTRACT:\n- Return valid JSON only. Do not output Markdown, headings, bullets, prose, code fences, explanations, or commentary outside the JSON object.\n- The top-level JSON object must include: \"most_relevant_segments\", \"summary\", and \"key_topics\".\n- Each item in \"most_relevant_segments\" must include: \"start_time\", \"end_time\", \"text\", \"relevance_score\", \"reasoning\", \"virality\", and \"hook_title\".\n- \"virality\" must include: \"hook_score\", \"engagement_score\", \"value_score\", \"shareability_score\", \"total_score\", \"hook_type\", and \"virality_reasoning\".\n- Every returned segment must be 15-60 seconds long. Prefer 25-50 seconds.\n\nVIRALITY-AWARE SELECTION — rank on:\n- Hooks: attention-grabbing openings (surprising facts, bold claims, intriguing questions)\n- Emotional peaks: excitement, surprise, humor, inspiration, tension\n- Opinion bombs: controversial or contrarian takes\n- Revelation moments: surprising truths or unexpected outcomes\n- Conflict: disagreement, challenge, pushback\n- Quotable lines: highly shareable standalone statements\n- Story peaks: narrative climaxes with setup and payoff\n- Practical value: actionable advice most people don't know\n\nCONTENT NEUTRALITY RULES:\n- Do not judge, moralize, or downgrade a segment because the topic is controversial, sensitive, political, or intense\n- Evaluate only on clip quality: clarity, self-contained value, hook strength, emotional impact, specificity, and shareability\n- Do not refuse analysis for any content type\n\nSEGMENT SELECTION CRITERIA:\n1. STRONG HOOKS: Attention-grabbing opening lines\n2. VALUABLE CONTENT: Tips, insights, interesting facts, stories\n3. EMOTIONAL MOMENTS: Excitement, surprise, humor, inspiration\n4. COMPLETE THOUGHTS: Self-contained ideas that make sense alone\n5. ENTERTAINING: Content people would want to share\n6. HIGH SIGNAL: Prefer specific, concrete language over vague discussion\n7. LOW FILLER: Avoid greetings, sponsor reads, repeated setup unless unusually compelling\n\nVIRALITY SCORING (0-100 total, from four 0-25 subscores):\n1. HOOK STRENGTH (0-25): 20-25=immediately grabs, 15-19=creates curiosity, 10-14=decent, 0-9=weak\n2. ENGAGEMENT (0-25): 20-25=highly entertaining/emotional, 15-19=interesting, 10-14=moderate, 0-9=flat\n3. VALUE (0-25): 20-25=actionable unique insight, 15-19=useful, 10-14=somewhat informative, 0-9=common\n4. SHAREABILITY (0-25): 20-25=\"I must send this\", 15-19=worth bookmarking, 10-14=nice, 0-9=generic\n\nHOOK TITLES (\"hook_title\" per segment):\n- 3-9 words, punchy headline burned into clip top\n- Bold claim, curiosity gap, number, or stakes from the segment\n- Plain text only: no hashtags, no emojis, no quotes\n- Examples: \"The $40k mistake I keep seeing\", \"Why nobody tells you this\"\n\nHOOK TYPES: \"question\" / \"statement\" / \"statistic\" / \"story\" / \"contrast\" / \"none\"\n\nTIMING REQUIREMENTS:\n- Use EXACT timestamps from the transcript (MM:SS format)\n- start_time MUST be less than end_time\n- Minimum 15 seconds gap, ideal 25-50 seconds\n- NEVER use the same timestamp for both start and end\n\nFind the requested number of compelling segments. Quality over quantity.")
}

/// The analysis request for a transcript.
pub open spec fn analysis_request(num_clips: int, transcript: Seq<char>) -> Seq<char> {
    "Analyze this transcript and find the "@ + crate::caption::int_decimal(num_clips) + " most viral clip candidates.\n\nTranscript:\n"@ + transcript
}

pub fn analysis_prompt(num_clips: i32, transcript: &str) -> (r: String)
    ensures
        r@ == analysis_request(num_clips as int, transcript@),
{
    let mut out = owned("Analyze this transcript and find the ");
    push_int(&mut out, num_clips as i64);
    push_str(&mut out, " most viral clip candidates.\n\nTranscript:\n");
    push_str(&mut out, transcript);
    out
}

/// A segment's virality as the model reported it, each missing score taken
/// as 15 (60 for the total), a missing hook type as `none` and a missing
/// reasoning as empty; scores are cut to their low 32 bits.
pub fn virality_from_fields(
    hook_score: Option<i64>,
    engagement_score: Option<i64>,
    value_score: Option<i64>,
    shareability_score: Option<i64>,
    total_score: Option<i64>,
    hook_type: Option<&str>,
    reasoning: Option<&str>,
) -> (r: ViralityScore)
    ensures
        r.hook_score == (match hook_score { Some(v) => v as i32, None => 15i32 }),
        r.engagement_score == (match engagement_score { Some(v) => v as i32, None => 15i32 }),
        r.value_score == (match value_score { Some(v) => v as i32, None => 15i32 }),
        r.shareability_score == (match shareability_score { Some(v) => v as i32, None => 15i32 }),
        r.total_score == (match total_score { Some(v) => v as i32, None => 60i32 }),
        r.hook_type@ == (match hook_type { Some(t) => t@, None => "none"@ }),
        r.virality_reasoning@ == (match reasoning { Some(t) => t@, None => ""@ }),
{
    ViralityScore {
        hook_score: match hook_score { Some(v) => v as i32, None => 15 },
        engagement_score: match engagement_score { Some(v) => v as i32, None => 15 },
        value_score: match value_score { Some(v) => v as i32, None => 15 },
        shareability_score: match shareability_score { Some(v) => v as i32, None => 15 },
        total_score: match total_score { Some(v) => v as i32, None => 60 },
        hook_type: match hook_type { Some(t) => owned(t), None => owned("none") },
        virality_reasoning: match reasoning { Some(t) => owned(t), None => owned("") },
    }
}

// ---------------------------------------------------------------------------
// Caption translation
// ---------------------------------------------------------------------------

/// The instructions given to the caption translator.
pub open spec fn translator_instructions() -> Seq<char> {
    "You are a caption translator. Given a list of words with timestamps, translate them to the target language. Keep the same number of words and same timestamps. Return a JSON array of objects with \"word\", \"start\", and \"end\" fields.\nInput format: [{\"word\": \"hello\", \"start\": 0.0, \"end\": 0.5}, ...]\nOutput format: same structure with translated words."@
}

pub fn translate_system_prompt() -> (r: String)
    ensures
        r@ == translator_instructions(),
{
    owned("You are a caption translator. Given a list of words with timestamps, translate them to the target language. Keep the same number of words and same timestamps. Return a JSON array of objects with \"word\", \"start\", and \"end\" fields.\nInput format: [{\"word\": \"hello\", \"start\": 0.0, \"end\": 0.5}, ...]\nOutput format: same structure with translated words.")
}

/// Whether captions are sent for translation: only with a target language
/// and at least one word; otherwise they are kept as they are.
pub fn needs_translation(target_language: &str, word_count: usize) -> (r: bool)
    ensures
        r == (target_language@.len() > 0 && word_count > 0),
{
    !target_language.is_empty() && word_count > 0
}

/// The translation request: the target language and the words as JSON.
pub fn translate_prompt(target_language: &str, words_json: &str) -> (r: String)
    ensures
        r@ == "Translate to "@ + target_language@ + ":\n"@ + words_json@,
{
    let mut out = owned("Translate to ");
    push_str(&mut out, target_language);
    push_str(&mut out, ":\n");
    push_str(&mut out, words_json);
    out
}

// ---------------------------------------------------------------------------
// Originality filter
// ---------------------------------------------------------------------------

/// What an originality setting asks for: nothing, a preset's brightness,
/// contrast and saturation, or three custom values still to be read as
/// numbers.
pub enum Originality {
    Off,
    Preset(String, String, String),
    Custom(String, String, String),
}

pub open spec fn originality_view(o: Originality) -> (int, Seq<char>, Seq<char>, Seq<char>) {
    match o {
        Originality::Off => (0, seq![], seq![], seq![]),
        Originality::Preset(b, c, s) => (1, b@, c@, s@),
        Originality::Custom(b, c, s) => (2, b@, c@, s@),
    }
}

/// The setting read: `light`, `balanced` and `strong` are presets;
/// `custom:B:C:S` gives the three values; anything else turns the filter off.
pub open spec fn originality_of(setting: Seq<char>) -> (int, Seq<char>, Seq<char>, Seq<char>) {
    if setting == "light"@ {
        (1, "0.03"@, "1.03"@, "1.05"@)
    } else if setting == "balanced"@ {
        (1, "0.05"@, "1.08"@, "1.1"@)
    } else if setting == "strong"@ {
        (1, "0.08"@, "1.12"@, "1.15"@)
    } else if starts_with(setting, "custom:"@) && split_char(setting.skip(7), ':').len() == 3 {
        let parts = split_char(setting.skip(7), ':');
        (2, parts[0], parts[1], parts[2])
    } else {
        (0, seq![], seq![], seq![])
    }
}

pub fn originality_setting(setting: &str) -> (r: Originality)
    ensures
        originality_view(r) == originality_of(setting@),
{
    proof {
        reveal_strlit("custom:");
    }
    if str_eq(setting, "light") {
        return Originality::Preset(owned("0.03"), owned("1.03"), owned("1.05"));
    }
    if str_eq(setting, "balanced") {
        return Originality::Preset(owned("0.05"), owned("1.08"), owned("1.1"));
    }
    if str_eq(setting, "strong") {
        return Originality::Preset(owned("0.08"), owned("1.12"), owned("1.15"));
    }
    if !str_starts_with(setting, "custom:") {
        return Originality::Off;
    }
    let cs = chars_of(setting);
    let mut rest: Vec<char> = Vec::new();
    let mut i: usize = 7;
    while i < cs.len()
        invariant
            7 <= i <= cs.len(),
            cs@ == setting@,
            cs@.len() >= 7,
            rest@ == cs@.subrange(7, i as int),
        decreases cs.len() - i,
    {
        rest.push(cs[i]);
        i += 1;
    }
    assert(rest@ =~= setting@.skip(7));
    let parts = split_on(&rest, ':');
    if parts.len() == 3 {
        Originality::Custom(string_of(&parts[0]), string_of(&parts[1]), string_of(&parts[2]))
    } else {
        Originality::Off
    }
}

/// The ffmpeg filter of the boost: an `eq` filter with the three values, then
/// a light unsharp mask.
pub fn originality_filter(brightness: &str, contrast: &str, saturation: &str) -> (r: String)
    ensures
        r@ == "eq=brightness="@ + brightness@ + ":contrast="@ + contrast@ + ":saturation="@ + saturation@ + ",unsharp=3:3:0.5:3:3:0.0"@,
{
    let mut out = owned("eq=brightness=");
    push_str(&mut out, brightness);
    push_str(&mut out, ":contrast=");
    push_str(&mut out, contrast);
    push_str(&mut out, ":saturation=");
    push_str(&mut out, saturation);
    push_str(&mut out, ",unsharp=3:3:0.5:3:3:0.0");
    out
}

} // verus!
