//! The studio's script writer: which language-model service a request goes
//! to, and the prompts it sends. The requests themselves are made by the
//! application.
use vstd::prelude::*;
use crate::text::{owned, push_str, contains, str_contains};
use crate::caption::{int_decimal, push_int};

verus! {

/// The studio's language-model settings.
pub struct StudioLlmProcessor {
    pub api_key: String,
    pub provider_or_model: String,
    pub openrouter_key: String,
}

/// The service a studio request goes to.
#[derive(PartialEq, Eq, Structural, Clone, Copy, Debug)]
pub enum LlmService {
    OpenRouter,
    Gemini,
}

pub open spec fn default_gemini_model() -> Seq<char> {
    "gemini-3.1-flash-lite"@
}

impl StudioLlmProcessor {
    pub fn new(api_key: String, provider_or_model: String, openrouter_key: String) -> (r: Self)
        ensures
            r.api_key@ == api_key@,
            r.provider_or_model@ == provider_or_model@,
            r.openrouter_key@ == openrouter_key@,
    {
        StudioLlmProcessor { api_key, provider_or_model, openrouter_key }
    }

    /// OpenRouter serves a model named with a `/`, and every request once an
    /// OpenRouter key is set; Gemini serves the rest.
    pub open spec fn service_of(self) -> LlmService {
        if contains(self.provider_or_model@, "/"@) || self.openrouter_key@.len() > 0 {
            LlmService::OpenRouter
        } else {
            LlmService::Gemini
        }
    }

    pub fn service(&self) -> (r: LlmService)
        ensures
            r == self.service_of(),
    {
        if str_contains(self.provider_or_model.as_str(), "/") || !self.openrouter_key.as_str().is_empty() {
            LlmService::OpenRouter
        } else {
            LlmService::Gemini
        }
    }

    /// The Gemini model asked: the configured one, else the default.
    pub fn gemini_model(&self) -> (r: String)
        ensures
            r@ == (if self.provider_or_model@.len() == 0 { default_gemini_model() } else { self.provider_or_model@ }),
    {
        if self.provider_or_model.as_str().is_empty() {
            owned("gemini-3.1-flash-lite")
        } else {
            self.provider_or_model.clone()
        }
    }

    /// The OpenRouter model asked: the configured one, else `openrouter/free`.
    pub fn openrouter_model(&self) -> (r: String)
        ensures
            r@ == (if self.provider_or_model@.len() == 0 { "openrouter/free"@ } else { self.provider_or_model@ }),
    {
        if self.provider_or_model.as_str().is_empty() {
            owned("openrouter/free")
        } else {
            self.provider_or_model.clone()
        }
    }
}

/// The endpoint of a Gemini `generateContent` call.
pub open spec fn gemini_endpoint(model: Seq<char>, key: Seq<char>) -> Seq<char> {
    "https://generativelanguage.googleapis.com/v1beta/models/"@ + model + ":generateContent?key="@ + key
}

pub fn gemini_url(model: &str, key: &str) -> (r: String)
    ensures
        r@ == gemini_endpoint(model@, key@),
{
    let mut out = owned("https://generativelanguage.googleapis.com/v1beta/models/");
    push_str(&mut out, model);
    push_str(&mut out, ":generateContent?key=");
    push_str(&mut out, key);
    out
}

/// The number of scenes asked for a video of `secs` seconds: one per six
/// seconds, rounded up.
pub open spec fn scene_count(secs: int) -> int {
    -((-secs) / 6)
}

pub fn scene_target(secs: i32) -> (r: i32)
    ensures
        r == scene_count(secs as int),
{
    let n = -(secs as i64);
    let q = if n % 6 < 0 { n / 6 - 1 } else { n / 6 };
    assert(q == (n as int) / 6);
    (-q) as i32
}

/// The system prompt that asks for a script split into scenes with a search
/// keyword each.
pub open spec fn decompose_text(secs: int) -> Seq<char> {
    let m = int_decimal(scene_count(secs));
    "You are an AI video producer. Break down the user's script into individual sentences or natural thought chunks.\nFor each sentence, provide a specific visual stock video search keyword (1-3 words) to search on stock footage sites (Pexels, Pixabay, Pinterest).\n\nTarget: ~"@
        + m + " scenes for a "@ + int_decimal(secs) + "-second video. Each scene = one sentence + one keyword.\nAim for "@
        + m + " items total (fewer for slow pace, more for fast-paced).\n\nOUTPUT FORMAT:\nReturn a JSON array of objects only. Do NOT output markdown formatting or extra text.\nEach object must have:\n- \"sentence\": \"The exact sentence text\"\n- \"keyword\": \"1-3 word visual search term\"\n\nExample:\n[\n  {\"sentence\": \"Space is vastly empty yet full of mystery.\", \"keyword\": \"galaxy stars\"},\n  {\"sentence\": \"Black holes consume everything in their path.\", \"keyword\": \"black hole space\"}\n]"@
}

pub fn decompose_prompt(secs: i32) -> (r: String)
    ensures
        r@ == decompose_text(secs as int),
{
    let m = scene_target(secs);
    let mut out = owned("You are an AI video producer. Break down the user's script into individual sentences or natural thought chunks.\nFor each sentence, provide a specific visual stock video search keyword (1-3 words) to search on stock footage sites (Pexels, Pixabay, Pinterest).\n\nTarget: ~");
    push_int(&mut out, m as i64);
    push_str(&mut out, " scenes for a ");
    push_int(&mut out, secs as i64);
    push_str(&mut out, "-second video. Each scene = one sentence + one keyword.\nAim for ");
    push_int(&mut out, m as i64);
    push_str(&mut out, " items total (fewer for slow pace, more for fast-paced).\n\nOUTPUT FORMAT:\nReturn a JSON array of objects only. Do NOT output markdown formatting or extra text.\nEach object must have:\n- \"sentence\": \"The exact sentence text\"\n- \"keyword\": \"1-3 word visual search term\"\n\nExample:\n[\n  {\"sentence\": \"Space is vastly empty yet full of mystery.\", \"keyword\": \"galaxy stars\"},\n  {\"sentence\": \"Black holes consume everything in their path.\", \"keyword\": \"black hole space\"}\n]");
    out
}

/// Words asked of a script `secs` seconds long: 2.8 per second, rounded
/// toward zero (and held within `i32`).
pub open spec fn word_target(secs: int) -> int {
    let w = if secs >= 0 { (28 * secs) / 10 } else { -((28 * (-secs)) / 10) };
    if w > i32::MAX { i32::MAX as int } else if w < i32::MIN { i32::MIN as int } else { w }
}

/// The most scenes asked of such a script: one per eight seconds (rounded
/// toward zero), at least two.
pub open spec fn scene_cap(secs: int) -> int {
    let q = if secs >= 0 { secs / 8 } else { -((-secs) / 8) };
    if q > 2 { q } else { 2 }
}

/// The prompt that asks for a whole script on a topic.
pub open spec fn topic_text(topic: Seq<char>, vibe: Seq<char>, secs: int) -> Seq<char> {
    "Write an engaging "@ + int_decimal(secs) + "-second faceless short video script on the topic: '"@ + topic
        + "'. Vibe: "@ + vibe + ". Target ~"@ + int_decimal(word_target(secs)) + " words total. Break into 5-"@
        + int_decimal(scene_cap(secs)) + " short punchy sentences, each a separate scene. Hook in first 3 seconds. Plain text script only."@
}

pub fn topic_prompt(topic: &str, vibe: &str, secs: i32) -> (r: String)
    ensures
        r@ == topic_text(topic@, vibe@, secs as int),
{
    let s = secs as i64;
    let w0: i64 = if s >= 0 { (28 * s) / 10 } else { -((28 * (-s)) / 10) };
    let w: i64 = if w0 > i32::MAX as i64 { i32::MAX as i64 } else if w0 < i32::MIN as i64 { i32::MIN as i64 } else { w0 };
    let q: i64 = if s >= 0 { s / 8 } else { -((-s) / 8) };
    let cap: i64 = if q > 2 { q } else { 2 };
    assert(w == word_target(secs as int));
    assert(cap == scene_cap(secs as int));
    let mut out = owned("Write an engaging ");
    push_int(&mut out, s);
    push_str(&mut out, "-second faceless short video script on the topic: '");
    push_str(&mut out, topic);
    push_str(&mut out, "'. Vibe: ");
    push_str(&mut out, vibe);
    push_str(&mut out, ". Target ~");
    push_int(&mut out, w);
    push_str(&mut out, " words total. Break into 5-");
    push_int(&mut out, cap);
    push_str(&mut out, " short punchy sentences, each a separate scene. Hook in first 3 seconds. Plain text script only.");
    assert(out@ =~= topic_text(topic@, vibe@, secs as int));
    out
}

} // verus!
