//! Nova Repurpose: turning one source into platform versions. What is
//! verified here is the text handling: the copy request sent to the model and
//! the cleaning of the copy it returns; rendering and storage are the
//! application's.
use vstd::prelude::*;
use crate::caption::push_nat;
use crate::text::{decimal, owned, push_str, chars_of, string_of, trim, trim_chars, is_ascii_char};

verus! {

/// The aspect ratio a platform version gets when none is asked for.
pub fn default_ratio() -> (r: String)
    ensures
        r@ == "9:16"@,
{
    owned("9:16")
}

/// The characters of `s` kept in generated copy: the ASCII ones.
pub open spec fn kept_chars(s: Seq<char>) -> Seq<char>
    decreases s.len(),
{
    if s.len() == 0 {
        seq![]
    } else {
        kept_chars(s.drop_last()) + (if is_ascii_char(s.last()) { seq![s.last()] } else { seq![] })
    }
}

/// Generated copy made plain: every character outside ASCII is dropped
/// (emoji, curly quotes, dashes, exotic spaces), then the text is trimmed.
pub fn sanitize_text(s: &str) -> (r: String)
    ensures
        r@ == trim(kept_chars(s@)),
{
    let cs = chars_of(s);
    let mut kept: Vec<char> = Vec::new();
    let mut i: usize = 0;
    while i < cs.len()
        invariant
            i <= cs.len(),
            cs@ == s@,
            kept@ == kept_chars(cs@.take(i as int)),
        decreases cs.len() - i,
    {
        let c = cs[i];
        assert(cs@.take(i + 1).drop_last() =~= cs@.take(i as int));
        if (c as u32) < 128 {
            kept.push(c);
        }
        proof {
            assert(is_ascii_char(c) == ((c as u32) < 128));
            assert(kept@ =~= kept_chars(cs@.take(i + 1)));
        }
        i += 1;
    }
    assert(cs@.take(cs.len() as int) =~= cs@);
    let t = trim_chars(&kept);
    string_of(&t)
}

/// The platform ids joined by `, `.
pub open spec fn joined_ids(ids: Seq<Seq<char>>) -> Seq<char>
    decreases ids.len(),
{
    if ids.len() == 0 {
        seq![]
    } else if ids.len() == 1 {
        ids[0]
    } else {
        joined_ids(ids.drop_last()) + ", "@ + ids.last()
    }
}

pub fn join_ids(ids: &Vec<String>) -> (r: String)
    ensures
        r@ == joined_ids(ids@.map_values(|s: String| s@)),
{
    let ghost iv = ids@.map_values(|s: String| s@);
    let mut out = String::new();
    let mut i: usize = 0;
    while i < ids.len()
        invariant
            i <= ids.len(),
            iv == ids@.map_values(|s: String| s@),
            out@ == joined_ids(iv.take(i as int)),
        decreases ids.len() - i,
    {
        if i > 0 {
            push_str(&mut out, ", ");
        }
        push_str(&mut out, ids[i].as_str());
        proof {
            assert(iv.take(i + 1).drop_last() =~= iv.take(i as int));
            assert(iv[i as int] == ids@[i as int]@);
            if i == 0 {
                reveal_strlit("");
                assert(out@ =~= iv.take(1)[0]);
            }
        }
        i += 1;
    }
    assert(iv.take(i as int) =~= iv);
    out
}

/// The request for a campaign's written copy: the campaign's brief, the
/// platforms asked for (their ids joined by `, `), the writing and format
/// standards, each platform's fields, and the source transcript.
pub open spec fn campaign_prompt_text(campaign: Seq<char>, source_title: Seq<char>, audience: Seq<char>, goal: Seq<char>, tone: Seq<char>, core_message: Seq<char>, cta: Seq<char>, instructions: Seq<char>, platform_ids: Seq<char>, transcript: Seq<char>) -> Seq<char> {
    "You are a senior professional content strategist and copywriter. Produce complete, publish-ready, human-sounding content for each selected platform, varying in length and structure to meet each platform's industry-standard best practices.\n\nCampaign: "@ + campaign + "\nSource: "@ + source_title + "\nAudience: "@ + audience + "\nGoal: "@ + goal + "\nTone: "@ + tone + "\nCore message: "@ + core_message + "\nCTA: "@ + cta + "\nInstructions: "@ + instructions + "\nPlatforms: "@ + platform_ids + "\n\nReturn a strict JSON object whose top-level keys are EXACTLY the lowercase platform ids: "@ + platform_ids + ". Do NOT wrap them under \"platforms\" or any other key, and do not include campaign/audience/goal/tone/source metadata keys in the output object.\n\nWRITING STANDARDS (apply to every platform):\n- Write like a talented human marketer, never like AI. Use varied sentence length, concrete detail, and a natural rhythm.\n- Follow standard professional grammar, spelling, and punctuation.\n- Content must be sufficiently long and complete. Do not summarize or truncate; deliver the full publish-ready piece.\n- Give each platform meaningfully different content and angles derived from the source facts below.\n- For every selected platform also include a \"strategy_note\" field (one paragraph) explaining the best posting approach.\n\nFORMATTING (strict):\n- Use ONLY plain ASCII characters. No emojis, no em-dashes (—), no smart/curly quotes, no ellipsis characters, no exotic unicode symbols. Use straight quotes and regular hyphens.\n- Arrays are plain lists of strings. Never use Markdown code fences or JSON wrappers in output.\n\nPLATFORM SPECIFICS (follow these industry-standard lengths and structures):\n- tiktok: \"caption\" (120-220 words), \"hooks\" (5), \"hashtags\" (8-15), \"cta\", \"onscreen_text\" (3), \"pinned_comment\", \"strategy_note\".\n- instagram: \"reel_caption\" (180-300 words), \"short_caption\" (60-100 words), \"hooks\" (5), \"hashtags\" (10-15), \"story_sequence\" (3-5 short lines), \"carousel_outline\" (5-8 headings), \"cta\", \"strategy_note\".\n- youtube: \"titles\" (8), \"description\" (300-500 words), \"short_description\" (1-2 sentences), \"tags\" (10-15), \"thumbnail_text\" (5), \"chapters\" (list of timestamp headings), \"pinned_comment\", \"cta\", \"strategy_note\".\n- linkedin: \"post\" (350-600 words), \"short_post\" (120-200 words), \"hooks\" (5), \"discussion_questions\" (3), \"cta\", \"hashtags\" (5), \"strategy_note\".\n- x: \"tweets\" (5 standalone posts), \"thread\" (6-10 complete posts), \"hashtags\", \"cta\", \"strategy_note\".\n- newsletter: \"subject_lines\" (8), \"preview_text\" (5), \"body\" (600-1000 words with section headings), \"short_version\" (250-400 words), \"cta\", \"strategy_note\".\n- blog: \"headlines\" (8), \"seo_description\", \"introduction\" (250-400 words), \"outline\" (6-10 section headings), \"talking_points\" (map of each section to key bullet points), \"conclusion\" (200-300 words), \"cta\", \"strategy_note\".\n\nReturn strict JSON only. Provide every platform and every listed field; omit nothing.\n\nTranscript:\n"@ + transcript
}

/// Builds the campaign copy request.
pub fn campaign_prompt(campaign: &str, source_title: &str, audience: &str, goal: &str, tone: &str, core_message: &str, cta: &str, instructions: &str, platform_ids: &str, transcript: &str) -> (r: String)
    ensures
        r@ == campaign_prompt_text(campaign@, source_title@, audience@, goal@, tone@, core_message@, cta@, instructions@, platform_ids@, transcript@),
{
    let mut out = owned("You are a senior professional content strategist and copywriter. Produce complete, publish-ready, human-sounding content for each selected platform, varying in length and structure to meet each platform's industry-standard best practices.\n\nCampaign: ");
    push_str(&mut out, campaign);
    push_str(&mut out, "\nSource: ");
    push_str(&mut out, source_title);
    push_str(&mut out, "\nAudience: ");
    push_str(&mut out, audience);
    push_str(&mut out, "\nGoal: ");
    push_str(&mut out, goal);
    push_str(&mut out, "\nTone: ");
    push_str(&mut out, tone);
    push_str(&mut out, "\nCore message: ");
    push_str(&mut out, core_message);
    push_str(&mut out, "\nCTA: ");
    push_str(&mut out, cta);
    push_str(&mut out, "\nInstructions: ");
    push_str(&mut out, instructions);
    push_str(&mut out, "\nPlatforms: ");
    push_str(&mut out, platform_ids);
    push_str(&mut out, "\n\nReturn a strict JSON object whose top-level keys are EXACTLY the lowercase platform ids: ");
    push_str(&mut out, platform_ids);
    push_str(&mut out, ". Do NOT wrap them under \"platforms\" or any other key, and do not include campaign/audience/goal/tone/source metadata keys in the output object.\n\nWRITING STANDARDS (apply to every platform):\n- Write like a talented human marketer, never like AI. Use varied sentence length, concrete detail, and a natural rhythm.\n- Follow standard professional grammar, spelling, and punctuation.\n- Content must be sufficiently long and complete. Do not summarize or truncate; deliver the full publish-ready piece.\n- Give each platform meaningfully different content and angles derived from the source facts below.\n- For every selected platform also include a \"strategy_note\" field (one paragraph) explaining the best posting approach.\n\nFORMATTING (strict):\n- Use ONLY plain ASCII characters. No emojis, no em-dashes (—), no smart/curly quotes, no ellipsis characters, no exotic unicode symbols. Use straight quotes and regular hyphens.\n- Arrays are plain lists of strings. Never use Markdown code fences or JSON wrappers in output.\n\nPLATFORM SPECIFICS (follow these industry-standard lengths and structures):\n- tiktok: \"caption\" (120-220 words), \"hooks\" (5), \"hashtags\" (8-15), \"cta\", \"onscreen_text\" (3), \"pinned_comment\", \"strategy_note\".\n- instagram: \"reel_caption\" (180-300 words), \"short_caption\" (60-100 words), \"hooks\" (5), \"hashtags\" (10-15), \"story_sequence\" (3-5 short lines), \"carousel_outline\" (5-8 headings), \"cta\", \"strategy_note\".\n- youtube: \"titles\" (8), \"description\" (300-500 words), \"short_description\" (1-2 sentences), \"tags\" (10-15), \"thumbnail_text\" (5), \"chapters\" (list of timestamp headings), \"pinned_comment\", \"cta\", \"strategy_note\".\n- linkedin: \"post\" (350-600 words), \"short_post\" (120-200 words), \"hooks\" (5), \"discussion_questions\" (3), \"cta\", \"hashtags\" (5), \"strategy_note\".\n- x: \"tweets\" (5 standalone posts), \"thread\" (6-10 complete posts), \"hashtags\", \"cta\", \"strategy_note\".\n- newsletter: \"subject_lines\" (8), \"preview_text\" (5), \"body\" (600-1000 words with section headings), \"short_version\" (250-400 words), \"cta\", \"strategy_note\".\n- blog: \"headlines\" (8), \"seo_description\", \"introduction\" (250-400 words), \"outline\" (6-10 section headings), \"talking_points\" (map of each section to key bullet points), \"conclusion\" (200-300 words), \"cta\", \"strategy_note\".\n\nReturn strict JSON only. Provide every platform and every listed field; omit nothing.\n\nTranscript:\n");
    push_str(&mut out, transcript);
    out
}

/// The filter that fills a `w`×`h` frame with the source: a blurred copy
/// scaled to cover the frame behind the source scaled to fit, centred.
pub open spec fn variant_filter_text(w: nat, h: nat) -> Seq<char> {
    let ws = decimal(w);
    let hs = decimal(h);
    "[0:v]split=2[bg][fg];[bg]scale="@ + ws + ":"@ + hs + ":force_original_aspect_ratio=increase,crop="@ + ws + ":"@ + hs
        + ",boxblur=20:4,setsar=1[bgb];[fg]scale="@ + ws + ":"@ + hs
        + ":force_original_aspect_ratio=decrease,setsar=1[fgf];[bgb][fgf]overlay=(W-w)/2:(H-h)/2,setsar=1,format=yuv420p[vout]"@
}

pub fn variant_filter(w: u32, h: u32) -> (r: String)
    ensures
        r@ == variant_filter_text(w as nat, h as nat),
{
    let mut out = owned("[0:v]split=2[bg][fg];[bg]scale=");
    push_nat(&mut out, w as u64);
    push_str(&mut out, ":");
    push_nat(&mut out, h as u64);
    push_str(&mut out, ":force_original_aspect_ratio=increase,crop=");
    push_nat(&mut out, w as u64);
    push_str(&mut out, ":");
    push_nat(&mut out, h as u64);
    push_str(&mut out, ",boxblur=20:4,setsar=1[bgb];[fg]scale=");
    push_nat(&mut out, w as u64);
    push_str(&mut out, ":");
    push_nat(&mut out, h as u64);
    push_str(&mut out, ":force_original_aspect_ratio=decrease,setsar=1[fgf];[bgb][fgf]overlay=(W-w)/2:(H-h)/2,setsar=1,format=yuv420p[vout]");
    out
}

/// The progress shown after the `done`-th of `total` platform videos: from
/// 50 up to 80.
pub open spec fn variant_progress_of(done: nat, total: nat) -> int {
    50 + ((done * 30) as int) / (if total == 0 { 1int } else { total as int })
}

pub fn variant_progress(done: u32, total: u32) -> (r: u64)
    ensures
        r == variant_progress_of(done as nat, total as nat),
{
    let t: u64 = if total == 0 { 1 } else { total as u64 };
    50 + (done as u64 * 30) / t
}

} // verus!
