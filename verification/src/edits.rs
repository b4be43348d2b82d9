//! Editing clips: the AI edit assistant's request and how it reads the
//! actions it gets back, and the names and filters of clip downloads and
//! exports. The database and ffmpeg are the application's.
use vstd::prelude::*;
use crate::text::{owned, push_str, str_eq, str_replace, replace_all};
use crate::repurpose::{join_ids, joined_ids};

verus! {

/// The assistant's instructions, with the user's instruction and the clip ids
/// still to be filled in.
pub open spec fn edit_template() -> Seq<char> {
    "You are an AI video editing assistant. Given a user instruction and available clip IDs, output a JSON object describing the action(s) to perform.\n\nAvailable actions:\n1. {\"action\": \"trim\", \"clip_id\": \"<uuid>\", \"start_offset\": <float>, \"end_offset\": <float>}\n   - Trims the clip by removing start_offset seconds from beginning and end_offset seconds from end.\n2. {\"action\": \"reframe\", \"clip_id\": \"<uuid>\", \"preset\": \"talking_head\"|\"sports\"|\"pets\"|\"cars\"}\n   - Applies AI vertical reframe with subject tracking.\n3. {\"action\": \"change_captions\", \"clip_id\": \"<uuid>\", \"style\": \"default\"|\"bold\"|\"vibrant\"|\"tiktok\"|\"neon\"|\"podcast\"|\"minimal\"|\"cinematic\"|\"cyber\"|\"clean\"}\n   - Changes caption preset style.\n4. {\"action\": \"translate_captions\", \"clip_id\": \"<uuid>\", \"language\": \"en\"|\"ko\"|\"ja\"|\"zh\"|\"es\"|\"fr\"|\"de\"|\"pt\"}\n   - Translates captions to the specified language.\n5. {\"action\": \"boost_originality\", \"clip_id\": \"<uuid>\", \"intensity\": \"light\"|\"balanced\"|\"strong\"}\n   - Applies visual transformations for originality (brightness/contrast/saturation).\n6. {\"action\": \"add_meme\", \"clip_id\": \"<uuid>\", \"mood\": \"<keyword>\"}\n   - Overlays a reaction emoji matching the mood. Mood options: shocked, funny, sad, angry, love, mindblown, fire, micdrop, clown, flex, sus, cringe, cool, pray, nerd, scared, boring.\n7. {\"action\": \"merge\", \"clip_ids\": [\"<uuid>\", \"<uuid>\", ...]}\n   - Merges multiple clips into one.\n8. {\"action\": \"delete\", \"clip_id\": \"<uuid>\"}\n   - Deletes the clip.\n\nYou may also output an array of actions if multiple edits are needed.\nIf the instruction is unclear or impossible, respond with:\n{\"action\": \"error\", \"message\": \"explanation\"}\n\nReturn ONLY valid JSON. No markdown, no explanations.\nUser instruction: \"INSTRUCTION_PLACEHOLDER\"\nAvailable clip IDs: [CLIP_IDS_PLACEHOLDER]"@
}

/// The assistant's instructions for an instruction and the clips it may touch
/// (their ids joined by `, `): the instruction placeholder is filled first,
/// then the clip ids placeholder.
pub open spec fn edit_instructions(instruction: Seq<char>, ids: Seq<Seq<char>>) -> Seq<char> {
    replace_all(replace_all(edit_template(), "INSTRUCTION_PLACEHOLDER"@, instruction), "CLIP_IDS_PLACEHOLDER"@, joined_ids(ids))
}

pub fn ai_edit_prompt(instruction: &str, clip_ids: &Vec<String>) -> (r: String)
    ensures
        r@ == edit_instructions(instruction@, clip_ids@.map_values(|s: String| s@)),
{
    proof {
        reveal_strlit("INSTRUCTION_PLACEHOLDER");
        reveal_strlit("CLIP_IDS_PLACEHOLDER");
    }
    let ids = join_ids(clip_ids);
    let t = owned("You are an AI video editing assistant. Given a user instruction and available clip IDs, output a JSON object describing the action(s) to perform.\n\nAvailable actions:\n1. {\"action\": \"trim\", \"clip_id\": \"<uuid>\", \"start_offset\": <float>, \"end_offset\": <float>}\n   - Trims the clip by removing start_offset seconds from beginning and end_offset seconds from end.\n2. {\"action\": \"reframe\", \"clip_id\": \"<uuid>\", \"preset\": \"talking_head\"|\"sports\"|\"pets\"|\"cars\"}\n   - Applies AI vertical reframe with subject tracking.\n3. {\"action\": \"change_captions\", \"clip_id\": \"<uuid>\", \"style\": \"default\"|\"bold\"|\"vibrant\"|\"tiktok\"|\"neon\"|\"podcast\"|\"minimal\"|\"cinematic\"|\"cyber\"|\"clean\"}\n   - Changes caption preset style.\n4. {\"action\": \"translate_captions\", \"clip_id\": \"<uuid>\", \"language\": \"en\"|\"ko\"|\"ja\"|\"zh\"|\"es\"|\"fr\"|\"de\"|\"pt\"}\n   - Translates captions to the specified language.\n5. {\"action\": \"boost_originality\", \"clip_id\": \"<uuid>\", \"intensity\": \"light\"|\"balanced\"|\"strong\"}\n   - Applies visual transformations for originality (brightness/contrast/saturation).\n6. {\"action\": \"add_meme\", \"clip_id\": \"<uuid>\", \"mood\": \"<keyword>\"}\n   - Overlays a reaction emoji matching the mood. Mood options: shocked, funny, sad, angry, love, mindblown, fire, micdrop, clown, flex, sus, cringe, cool, pray, nerd, scared, boring.\n7. {\"action\": \"merge\", \"clip_ids\": [\"<uuid>\", \"<uuid>\", ...]}\n   - Merges multiple clips into one.\n8. {\"action\": \"delete\", \"clip_id\": \"<uuid>\"}\n   - Deletes the clip.\n\nYou may also output an array of actions if multiple edits are needed.\nIf the instruction is unclear or impossible, respond with:\n{\"action\": \"error\", \"message\": \"explanation\"}\n\nReturn ONLY valid JSON. No markdown, no explanations.\nUser instruction: \"INSTRUCTION_PLACEHOLDER\"\nAvailable clip IDs: [CLIP_IDS_PLACEHOLDER]");
    let a = str_replace(t.as_str(), "INSTRUCTION_PLACEHOLDER", instruction);
    str_replace(a.as_str(), "CLIP_IDS_PLACEHOLDER", ids.as_str())
}

/// An action the assistant asked for.
#[derive(PartialEq, Eq, Structural, Clone, Copy, Debug)]
pub enum EditAction {
    Trim,
    Delete,
    ChangeCaptions,
    Reframe,
    BoostOriginality,
    AddMeme,
    Merge,
    Refuse,
    Unknown,
}

pub open spec fn edit_action_of(name: Seq<char>) -> EditAction {
    if name == "trim"@ { EditAction::Trim }
    else if name == "delete"@ { EditAction::Delete }
    else if name == "change_captions"@ { EditAction::ChangeCaptions }
    else if name == "reframe"@ { EditAction::Reframe }
    else if name == "boost_originality"@ { EditAction::BoostOriginality }
    else if name == "add_meme"@ { EditAction::AddMeme }
    else if name == "merge"@ { EditAction::Merge }
    else if name == "error"@ { EditAction::Refuse }
    else { EditAction::Unknown }
}

/// The action an `action` field names (`unknown` when it is missing).
pub fn edit_action(name: Option<&str>) -> (r: EditAction)
    ensures
        r == edit_action_of(match name { Some(n) => n@, None => "unknown"@ }),
{
    let n = match name { Some(n) => n, None => "unknown" };
    if str_eq(n, "trim") { EditAction::Trim }
    else if str_eq(n, "delete") { EditAction::Delete }
    else if str_eq(n, "change_captions") { EditAction::ChangeCaptions }
    else if str_eq(n, "reframe") { EditAction::Reframe }
    else if str_eq(n, "boost_originality") { EditAction::BoostOriginality }
    else if str_eq(n, "add_meme") { EditAction::AddMeme }
    else if str_eq(n, "merge") { EditAction::Merge }
    else if str_eq(n, "error") { EditAction::Refuse }
    else { EditAction::Unknown }
}

/// The status reported for an action: edits made at once are `applied`,
/// those left for a later render `queued`, others `unknown_action`; a
/// refusal reports nothing (the request fails with its message).
pub open spec fn action_status_of(a: EditAction) -> Seq<char> {
    match a {
        EditAction::Trim | EditAction::Delete | EditAction::ChangeCaptions | EditAction::BoostOriginality => "applied"@,
        EditAction::Reframe | EditAction::AddMeme | EditAction::Merge => "queued"@,
        EditAction::Refuse => seq![],
        EditAction::Unknown => "unknown_action"@,
    }
}

pub fn action_status(a: EditAction) -> (r: String)
    ensures
        r@ == action_status_of(a),
{
    proof {
        reveal_strlit("");
    }
    match a {
        EditAction::Trim | EditAction::Delete | EditAction::ChangeCaptions | EditAction::BoostOriginality => owned("applied"),
        EditAction::Reframe | EditAction::AddMeme | EditAction::Merge => owned("queued"),
        EditAction::Refuse => owned(""),
        EditAction::Unknown => owned("unknown_action"),
    }
}

/// The value an action's parameter takes when the assistant left it out.
pub open spec fn action_default_of(a: EditAction) -> Seq<char> {
    match a {
        EditAction::ChangeCaptions => "default"@,
        EditAction::Reframe => "talking_head"@,
        EditAction::BoostOriginality => "balanced"@,
        EditAction::AddMeme => "funny"@,
        EditAction::Refuse => "Unknown error"@,
        _ => seq![],
    }
}

/// An action's parameter: the given one, else its default.
pub fn action_parameter(a: EditAction, given: Option<&str>) -> (r: String)
    ensures
        r@ == (match given { Some(g) => g@, None => action_default_of(a) }),
{
    proof {
        reveal_strlit("");
    }
    match given {
        Some(g) => owned(g),
        None => match a {
            EditAction::ChangeCaptions => owned("default"),
            EditAction::Reframe => owned("talking_head"),
            EditAction::BoostOriginality => owned("balanced"),
            EditAction::AddMeme => owned("funny"),
            EditAction::Refuse => owned("Unknown error"),
            _ => owned(""),
        },
    }
}

// ---------------------------------------------------------------------------
// Clip downloads and exports
// ---------------------------------------------------------------------------

/// The `Content-Disposition` of a clip shown in the browser.
pub fn inline_disposition(filename: &str) -> (r: String)
    ensures
        r@ == "inline; filename=\""@ + filename@ + "\""@,
{
    let mut out = owned("inline; filename=\"");
    push_str(&mut out, filename);
    push_str(&mut out, "\"");
    out
}

/// The `Content-Disposition` of a downloaded file.
pub fn attachment_disposition(filename: &str) -> (r: String)
    ensures
        r@ == "attachment; filename=\""@ + filename@ + "\""@,
{
    let mut out = owned("attachment; filename=\"");
    push_str(&mut out, filename);
    push_str(&mut out, "\"");
    out
}

/// An export preset's frame and bitrate: `reels` at 12 Mbit/s, anything
/// else (`tiktok` by default, `shorts`) at 10 Mbit/s, all 1080×1920.
pub fn export_preset(preset: &str) -> (r: (u32, u32, String))
    ensures
        r.0 == 1080 && r.1 == 1920,
        r.2@ == (if preset@ == "reels"@ { "12M"@ } else { "10M"@ }),
{
    if str_eq(preset, "reels") { (1080, 1920, owned("12M")) } else { (1080, 1920, owned("10M")) }
}

/// The export's scaling: fit inside the frame (Lanczos), pad to it centred.
pub open spec fn export_scale_text(w: nat, h: nat) -> Seq<char> {
    "scale="@ + crate::text::decimal(w) + ":"@ + crate::text::decimal(h) + ":force_original_aspect_ratio=decrease:flags=lanczos,pad="@
        + crate::text::decimal(w) + ":"@ + crate::text::decimal(h) + ":(ow-iw)/2:(oh-ih)/2,setsar=1"@
}

pub fn export_scale(w: u32, h: u32) -> (r: String)
    ensures
        r@ == export_scale_text(w as nat, h as nat),
{
    let mut out = owned("scale=");
    crate::caption::push_nat(&mut out, w as u64);
    push_str(&mut out, ":");
    crate::caption::push_nat(&mut out, h as u64);
    push_str(&mut out, ":force_original_aspect_ratio=decrease:flags=lanczos,pad=");
    crate::caption::push_nat(&mut out, w as u64);
    push_str(&mut out, ":");
    crate::caption::push_nat(&mut out, h as u64);
    push_str(&mut out, ":(ow-iw)/2:(oh-ih)/2,setsar=1");
    out
}

/// The name an exported clip is downloaded under: its file name without
/// `.mp4`, the preset, and `.mp4`.
pub open spec fn export_name_of(filename: Seq<char>, preset: Seq<char>) -> Seq<char> {
    replace_all(filename, ".mp4"@, ""@) + "_"@ + preset + ".mp4"@
}

pub fn export_file_name(filename: &str, preset: &str) -> (r: String)
    ensures
        r@ == export_name_of(filename@, preset@),
{
    proof {
        reveal_strlit(".mp4");
        reveal_strlit("");
    }
    let mut out = str_replace(filename, ".mp4", "");
    push_str(&mut out, "_");
    push_str(&mut out, preset);
    push_str(&mut out, ".mp4");
    out
}

/// The health report: healthy with the database connected, else degraded.
pub fn health_status(db_ok: bool) -> (r: (String, String))
    ensures
        r.0@ == (if db_ok { "healthy"@ } else { "degraded"@ }),
        r.1@ == (if db_ok { "connected"@ } else { "disconnected"@ }),
{
    if db_ok { (owned("healthy"), owned("connected")) } else { (owned("degraded"), owned("disconnected")) }
}

} // verus!
