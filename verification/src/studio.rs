//! Scripted ("studio") videos: lining a script up with its synthesised
//! voice-over, and the choices that turn the studio settings into a render.
//!
//! Times are milliseconds of voice-over audio.
use vstd::prelude::*;
use vstd::utf8::*;
use crate::text::{chars_of, string_of, owned, push_str, alphanumeric, is_alnum, lowercase, to_lower, words, split_words, utf8, byte_len, trim, trim_chars, str_trim, str_eq, index_of_char, lemma_index_of_char, lemma_utf8_empty_iff};
use crate::caption::{WordTimestamp, WordRange, stamps_bounded, TIME_BOUND, join_space};

verus! {

// ---------------------------------------------------------------------------
// Script items
// ---------------------------------------------------------------------------

/// One sentence of a script with the keyword its footage is searched by.
pub struct ScriptItem {
    pub sentence: String,
    pub keyword: String,
}

impl Clone for ScriptItem {
    fn clone(&self) -> (r: Self)
        ensures
            r == *self,
    {
        ScriptItem { sentence: self.sentence.clone(), keyword: self.keyword.clone() }
    }
}

/// The sentences of the items, in order.
pub open spec fn sentences_of(items: Seq<ScriptItem>) -> Seq<Seq<char>> {
    Seq::new(items.len(), |i: int| items[i].sentence@)
}

/// The whole script read aloud: the sentences joined by single spaces.
pub fn join_sentences(items: &Vec<ScriptItem>) -> (r: String)
    ensures
        r@ == join_space(sentences_of(items@)),
{
    let mut joined = String::new();
    let mut j: usize = 0;
    while j < items.len()
        invariant
            j <= items.len(),
            joined@ == join_space(sentences_of(items@).take(j as int)),
        decreases items.len() - j,
    {
        if j > 0 {
            push_str(&mut joined, " ");
        }
        push_str(&mut joined, items[j].sentence.as_str());
        proof {
            let ss = sentences_of(items@);
            assert(ss.take(j + 1).drop_last() =~= ss.take(j as int));
            if j == 0 {
                assert(joined@ =~= ss.take(1)[0]);
            }
        }
        j += 1;
    }
    proof {
        assert(sentences_of(items@).take(items.len() as int) =~= sentences_of(items@));
    }
    joined
}

// ---------------------------------------------------------------------------
// Word tokens: lower-cased, with non-alphanumeric characters trimmed off both ends
// ---------------------------------------------------------------------------

/// Drops leading characters that are not alphanumeric.
pub open spec fn strip_lead(s: Seq<char>) -> Seq<char>
    decreases s.len(),
{
    if s.len() > 0 && !alphanumeric(s[0]) {
        strip_lead(s.drop_first())
    } else {
        s
    }
}

/// Drops trailing characters that are not alphanumeric.
pub open spec fn strip_trail(s: Seq<char>) -> Seq<char>
    decreases s.len(),
{
    if s.len() > 0 && !alphanumeric(s.last()) {
        strip_trail(s.drop_last())
    } else {
        s
    }
}

/// `str::trim_matches(|c| !c.is_alphanumeric())`.
pub open spec fn strip_non_alnum(s: Seq<char>) -> Seq<char> {
    strip_trail(strip_lead(s))
}

proof fn lemma_strip_lead_skip(s: Seq<char>, i: int)
    requires
        0 <= i <= s.len(),
        forall|j: int| 0 <= j < i ==> !alphanumeric(#[trigger] s[j]),
    ensures
        strip_lead(s) == strip_lead(s.skip(i)),
    decreases i,
{
    if i > 0 {
        assert(s.drop_first().skip(i - 1) =~= s.skip(i));
        lemma_strip_lead_skip(s.drop_first(), i - 1);
    } else {
        assert(s.skip(0) =~= s);
    }
}

proof fn lemma_strip_trail_take(s: Seq<char>, i: int)
    requires
        0 <= i <= s.len(),
        forall|j: int| i <= j < s.len() ==> !alphanumeric(#[trigger] s[j]),
    ensures
        strip_trail(s) == strip_trail(s.take(i)),
    decreases s.len() - i,
{
    if i < s.len() {
        assert(s.drop_last().take(i) =~= s.take(i));
        lemma_strip_trail_take(s.drop_last(), i);
    } else {
        assert(s.take(i) =~= s);
    }
}

/// Trims non-alphanumeric characters from both ends of a character vector.
pub fn strip_non_alnum_chars(s: &Vec<char>) -> (out: Vec<char>)
    ensures
        out@ == strip_non_alnum(s@),
{
    let mut i: usize = 0;
    while i < s.len() && !is_alnum(s[i])
        invariant
            i <= s.len(),
            forall|j: int| 0 <= j < i ==> !alphanumeric(#[trigger] s@[j]),
        decreases s.len() - i,
    {
        i += 1;
    }
    proof {
        lemma_strip_lead_skip(s@, i as int);
    }
    let ghost t = s@.skip(i as int);
    let mut e: usize = s.len();
    while e > i && !is_alnum(s[e - 1])
        invariant
            i <= e <= s.len(),
            t == s@.skip(i as int),
            forall|j: int| e - i <= j < t.len() ==> !alphanumeric(#[trigger] t[j]),
        decreases e,
    {
        e -= 1;
    }
    proof {
        lemma_strip_trail_take(t, e - i);
    }
    let mut out: Vec<char> = Vec::new();
    let mut k: usize = i;
    while k < e
        invariant
            i <= k <= e <= s.len(),
            out@ == s@.subrange(i as int, k as int),
        decreases e - k,
    {
        out.push(s[k]);
        k += 1;
    }
    proof {
        assert(out@ =~= t.take(e - i));
        let tt = t.take(e - i);
        if tt.len() > 0 {
            assert(alphanumeric(tt.last()));
        }
        assert(strip_lead(t) == t);
        assert(strip_trail(tt) == tt);
    }
    out
}

/// The token a voice-over word is compared by.
pub open spec fn token(w: Seq<char>) -> Seq<char> {
    strip_non_alnum(lowercase(w))
}

/// The tokens of the voice-over words.
pub open spec fn stamp_tokens(ws: Seq<WordTimestamp>) -> Seq<Seq<char>> {
    Seq::new(ws.len(), |i: int| token(ws[i].word@))
}

/// The tokens of a script sentence: its lower-cased white-space separated words,
/// each trimmed to its alphanumeric core.
pub open spec fn sentence_tokens(s: Seq<char>) -> Seq<Seq<char>> {
    let w = words(lowercase(s));
    Seq::new(w.len(), |i: int| strip_non_alnum(w[i]))
}

fn token_of(w: &str) -> (r: Vec<char>)
    ensures
        r@ == token(w@),
{
    let l = to_lower(w);
    let cs = chars_of(l.as_str());
    strip_non_alnum_chars(&cs)
}

fn sentence_tokens_of(s: &str) -> (r: Vec<Vec<char>>)
    ensures
        r.len() == sentence_tokens(s@).len(),
        forall|i: int| 0 <= i < r.len() ==> #[trigger] r[i]@ == sentence_tokens(s@)[i],
{
    let l = to_lower(s);
    let cs = chars_of(l.as_str());
    let ws = split_words(&cs);
    let mut r: Vec<Vec<char>> = Vec::new();
    let mut i: usize = 0;
    while i < ws.len()
        invariant
            i <= ws.len(),
            ws.len() == words(lowercase(s@)).len(),
            forall|j: int| 0 <= j < ws.len() ==> #[trigger] ws[j]@ == words(lowercase(s@))[j],
            r.len() == i,
            forall|j: int| 0 <= j < i ==> #[trigger] r[j]@ == strip_non_alnum(words(lowercase(s@))[j]),
        decreases ws.len() - i,
    {
        let t = strip_non_alnum_chars(&ws[i]);
        r.push(t);
        i += 1;
    }
    r
}

/// Character-wise equality of two vectors.
pub fn same_chars(a: &Vec<char>, b: &Vec<char>) -> (r: bool)
    ensures
        r == (a@ == b@),
{
    if a.len() != b.len() {
        return false;
    }
    let mut i: usize = 0;
    while i < a.len()
        invariant
            a.len() == b.len(),
            i <= a.len(),
            forall|j: int| 0 <= j < i ==> a@[j] == b@[j],
        decreases a.len() - i,
    {
        if a[i] != b[i] {
            return false;
        }
        i += 1;
    }
    assert(a@ =~= b@);
    true
}

// ---------------------------------------------------------------------------
// Lining sentences up with the voice-over
// ---------------------------------------------------------------------------

/// Whether one of the next three voice-over tokens after `idx` is `s`.
pub open spec fn ahead_match(tw: Seq<Seq<char>>, idx: int, s: Seq<char>) -> bool {
    ||| (idx + 1 < tw.len() && tw[idx + 1] == s)
    ||| (idx + 2 < tw.len() && tw[idx + 2] == s)
    ||| (idx + 3 < tw.len() && tw[idx + 3] == s)
}

/// How many sentence tokens count as matched after looking at voice-over token
/// `idx` with `m` matched before: an equal (or empty) token advances the match;
/// a mismatch in the middle of a match restarts it unless the expected token
/// turns up within the next three voice-over tokens.
pub open spec fn next_matched(tw: Seq<Seq<char>>, sw: Seq<Seq<char>>, idx: int, m: int) -> int {
    let t = tw[idx];
    let s = sw[m];
    if t == s || t.len() == 0 {
        m + 1
    } else if m > 0 && !ahead_match(tw, idx, s) {
        0
    } else {
        m
    }
}

/// Where the scan for one sentence stops: voice-over tokens are consumed until
/// all of the sentence's tokens are matched or the voice-over runs out.
pub open spec fn scan_end(tw: Seq<Seq<char>>, sw: Seq<Seq<char>>, idx: int, m: int) -> int
    decreases tw.len() - idx,
{
    if 0 <= idx < tw.len() && 0 <= m < sw.len() {
        scan_end(tw, sw, idx + 1, next_matched(tw, sw, idx, m))
    } else {
        idx
    }
}

/// The first voice-over word of sentence `k`: sentences take consecutive runs
/// of words, each starting where the previous scan stopped.
pub open spec fn item_start(tw: Seq<Seq<char>>, sents: Seq<Seq<Seq<char>>>, k: int) -> int
    decreases k,
{
    if k <= 0 {
        0
    } else {
        scan_end(tw, sents[k - 1], item_start(tw, sents, k - 1), 0)
    }
}

/// The tokens of every sentence of the items.
pub open spec fn item_tokens(items: Seq<ScriptItem>) -> Seq<Seq<Seq<char>>> {
    Seq::new(items.len(), |i: int| sentence_tokens(items[i].sentence@))
}

/// The running byte offset of voice-over word `i`: each earlier word counts its
/// UTF-8 length plus one separator.
pub open spec fn offset_before(ws: Seq<WordTimestamp>, i: int) -> int
    decreases i,
{
    if i <= 0 {
        0
    } else {
        offset_before(ws, i - 1) + utf8(ws[i - 1].word@).len() + 1
    }
}

/// The length of the voice-over: the end of its last word, or ten seconds when
/// it has no words.
pub open spec fn voice_total_ms(ws: Seq<WordTimestamp>) -> int {
    if ws.len() == 0 {
        10000
    } else {
        ws.last().end_ms as int
    }
}

/// A time estimated from a byte offset into the script, in proportion to the
/// whole voice-over (rounded down, and capped at `u64::MAX`); an empty script
/// gives 0.
pub open spec fn estimate_ms(offset: int, total: int, script_len: int) -> int {
    if script_len <= 0 {
        0
    } else {
        let v = offset * total / script_len;
        if v > u64::MAX { u64::MAX as int } else { v }
    }
}

/// The audio a sentence covers: from the start of its first word to the end of
/// its last; a sentence that got no words is placed by its byte offset in the
/// script.
pub open spec fn sentence_span(
    ws: Seq<WordTimestamp>,
    start: int,
    end: int,
    script_len: int,
    sentence_len: int,
) -> (int, int) {
    if start == end {
        let o = offset_before(ws, start);
        let total = voice_total_ms(ws);
        (estimate_ms(o, total, script_len), estimate_ms(o + sentence_len, total, script_len))
    } else {
        (ws[start].start_ms as int, ws[end - 1].end_ms as int)
    }
}

/// The word range of sentence `k`, as `match_sentences` computes it.
pub open spec fn sentence_range_ok(
    r: WordRange,
    items: Seq<ScriptItem>,
    ws: Seq<WordTimestamp>,
    script: Seq<char>,
    k: int,
) -> bool {
    let tw = stamp_tokens(ws);
    let sents = item_tokens(items);
    let start = item_start(tw, sents, k);
    let end = item_start(tw, sents, k + 1);
    let span = sentence_span(ws, start, end, utf8(script).len() as int, utf8(items[k].sentence@).len() as int);
    &&& r.start_idx == start
    &&& r.end_idx == end
    &&& r.start_ms == span.0
    &&& r.end_ms == span.1
}

proof fn lemma_scan_bounds(tw: Seq<Seq<char>>, sw: Seq<Seq<char>>, idx: int, m: int)
    requires
        0 <= idx <= tw.len(),
    ensures
        idx <= scan_end(tw, sw, idx, m) <= tw.len(),
    decreases tw.len() - idx,
{
    if 0 <= idx < tw.len() && 0 <= m < sw.len() {
        lemma_scan_bounds(tw, sw, idx + 1, next_matched(tw, sw, idx, m));
    }
}

proof fn lemma_offset_mono(ws: Seq<WordTimestamp>, i: int, j: int)
    requires
        0 <= i <= j,
    ensures
        offset_before(ws, i) <= offset_before(ws, j),
    decreases j - i,
{
    if i < j {
        lemma_offset_mono(ws, i, j - 1);
    }
}

/// Voice-over tokens, computed once.
fn stamp_tokens_of(stamps: &Vec<WordTimestamp>) -> (r: Vec<Vec<char>>)
    ensures
        r.len() == stamps.len(),
        forall|i: int| 0 <= i < r.len() ==> #[trigger] r[i]@ == stamp_tokens(stamps@)[i],
{
    let mut r: Vec<Vec<char>> = Vec::new();
    let mut i: usize = 0;
    while i < stamps.len()
        invariant
            i <= stamps.len(),
            r.len() == i,
            forall|j: int| 0 <= j < i ==> #[trigger] r[j]@ == stamp_tokens(stamps@)[j],
        decreases stamps.len() - i,
    {
        r.push(token_of(stamps[i].word.as_str()));
        i += 1;
    }
    r
}

fn estimate(offset: u128, total: u64, script_len: usize) -> (r: u64)
    requires
        offset < 0x4_0000_0000_0000_0000,
        total < TIME_BOUND,
    ensures
        r == estimate_ms(offset as int, total as int, script_len as int),
{
    if script_len == 0 {
        return 0;
    }
    assert(offset * total < 0x4_0000_0000_0000_0000 * 0x4000_0000_0000_0000) by (nonlinear_arith)
        requires
            offset < 0x4_0000_0000_0000_0000,
            total < 0x4000_0000_0000_0000,
    ;
    let v: u128 = offset * (total as u128) / (script_len as u128);
    if v > 0xffff_ffff_ffff_ffff {
        0xffff_ffff_ffff_ffff
    } else {
        v as u64
    }
}

/// Whether voice-over tokens `idx+1 ..= idx+3` hold `s`.
fn ahead(tw: &Vec<Vec<char>>, idx: usize, s: &Vec<char>) -> (r: bool)
    requires
        idx < tw.len(),
    ensures
        r == ahead_match(Seq::new(tw.len() as nat, |i: int| tw[i]@), idx as int, s@),
{
    let ghost v = Seq::new(tw.len() as nat, |i: int| tw[i]@);
    let mut look: usize = 1;
    while look <= 3
        invariant
            1 <= look <= 4,
            idx < tw.len(),
            v == Seq::new(tw.len() as nat, |i: int| tw[i]@),
            forall|l: int| 1 <= l < look ==> !(idx + l < tw.len() && #[trigger] v[idx + l] == s@),
        decreases 4 - look,
    {
        if look < tw.len() - idx && same_chars(&tw[idx + look], s) {
            return true;
        }
        look += 1;
    }
    assert(!(idx + 1 < tw.len() && v[idx + 1] == s@));
    assert(!(idx + 2 < tw.len() && v[idx + 2] == s@));
    assert(!(idx + 3 < tw.len() && v[idx + 3] == s@));
    false
}

/// Lines each script sentence up with the run of voice-over words that speaks
/// it, and with the stretch of audio those words cover.
pub fn match_sentences(items: &Vec<ScriptItem>, stamps: &Vec<WordTimestamp>, script: &str) -> (r: Vec<WordRange>)
    requires
        stamps_bounded(stamps@),
        offset_before(stamps@, stamps.len() as int) <= u64::MAX,
    ensures
        r.len() == items.len(),
        forall|k: int| 0 <= k < r.len() ==> #[trigger] sentence_range_ok(r[k], items@, stamps@, script@, k),
{
    let ghost ws = stamps@;
    let tw = stamp_tokens_of(stamps);
    let ghost twv = Seq::new(tw.len() as nat, |i: int| tw[i]@);
    assert(twv =~= stamp_tokens(ws));
    let ghost sents = item_tokens(items@);
    let n = stamps.len();
    let total: u64 = if n == 0 { 10000 } else { stamps[n - 1].end_ms };
    let script_len = byte_len(script);
    let mut r: Vec<WordRange> = Vec::new();
    let mut word_idx: usize = 0;
    let mut char_offset: u64 = 0;
    let mut k: usize = 0;
    while k < items.len()
        invariant
            k <= items.len(),
            n == stamps.len(),
            ws == stamps@,
            stamps_bounded(ws),
            offset_before(ws, n as int) <= u64::MAX,
            tw.len() == n,
            twv == Seq::new(tw.len() as nat, |i: int| tw[i]@),
            twv == stamp_tokens(ws),
            sents == item_tokens(items@),
            total == voice_total_ms(ws),
            total < TIME_BOUND,
            script_len == utf8(script@).len(),
            r.len() == k,
            word_idx == item_start(twv, sents, k as int),
            word_idx <= n,
            char_offset == offset_before(ws, word_idx as int),
            forall|j: int| 0 <= j < k ==> #[trigger] sentence_range_ok(r[j], items@, ws, script@, j),
        decreases items.len() - k,
    {
        let sw = sentence_tokens_of(items[k].sentence.as_str());
        let ghost swv = Seq::new(sw.len() as nat, |i: int| sw[i]@);
        assert(swv =~= sents[k as int]);
        let start_idx = word_idx;
        let mut matched: usize = 0;
        while word_idx < n && matched < sw.len()
            invariant
                start_idx <= word_idx <= n,
                n == stamps.len(),
                ws == stamps@,
                tw.len() == n,
                twv == Seq::new(tw.len() as nat, |i: int| tw[i]@),
                swv == Seq::new(sw.len() as nat, |i: int| sw[i]@),
                matched <= sw.len(),
                scan_end(twv, swv, word_idx as int, matched as int) == scan_end(twv, swv, start_idx as int, 0),
                offset_before(ws, n as int) <= u64::MAX,
                char_offset == offset_before(ws, word_idx as int),
            decreases n - word_idx,
        {
            let ghost before = next_matched(twv, swv, word_idx as int, matched as int);
            let t = &tw[word_idx];
            let s = &sw[matched];
            if same_chars(t, s) || t.len() == 0 {
                matched += 1;
            } else if matched > 0 {
                if !ahead(&tw, word_idx, s) {
                    matched = 0;
                }
            }
            assert(matched == before);
            proof {
                lemma_offset_mono(ws, word_idx + 1, n as int);
            }
            let wlen = byte_len(stamps[word_idx].word.as_str());
            char_offset = char_offset + wlen as u64 + 1;
            word_idx += 1;
        }
        let end_idx = word_idx;
        proof {
            lemma_offset_mono(ws, 0, end_idx as int);
            assert(item_start(twv, sents, k + 1) == scan_end(twv, sents[k as int], item_start(twv, sents, k as int), 0));
        }
        let (st, et) = if start_idx == end_idx {
            let slen = byte_len(items[k].sentence.as_str());
            (estimate(char_offset as u128, total, script_len), estimate(char_offset as u128 + slen as u128, total, script_len))
        } else {
            (stamps[start_idx].start_ms, stamps[end_idx - 1].end_ms)
        };
        r.push(WordRange { start_idx, end_idx, start_ms: st, end_ms: et });
        proof {
            assert(sentence_range_ok(r[k as int], items@, ws, script@, k as int));
            assert forall|j: int| 0 <= j < k + 1 implies #[trigger] sentence_range_ok(r[j], items@, ws, script@, j) by {
                if j < k {
                    assert(r[j] == r@.drop_last()[j]);
                }
            }
        }
        k += 1;
    }
    r
}

proof fn lemma_item_start_bounds(tw: Seq<Seq<char>>, sents: Seq<Seq<Seq<char>>>, k: int)
    requires
        0 <= k,
    ensures
        0 <= item_start(tw, sents, k) <= item_start(tw, sents, k + 1) <= tw.len(),
    decreases k,
{
    if k > 0 {
        lemma_item_start_bounds(tw, sents, k - 1);
    }
    lemma_scan_bounds(tw, sents[k], item_start(tw, sents, k), 0);
}

/// The sentences take consecutive runs of voice-over words, in order and
/// without overlap: the first starts at word 0, each starts where the previous
/// one ended, and none reaches past the last word. (So the ranges are fit for
/// the whole-video captions.)
pub proof fn lemma_sentence_ranges_tile(items: Seq<ScriptItem>, ws: Seq<WordTimestamp>, script: Seq<char>, r: Seq<WordRange>)
    requires
        r.len() == items.len(),
        forall|k: int| 0 <= k < r.len() ==> #[trigger] sentence_range_ok(r[k], items, ws, script, k),
    ensures
        r.len() > 0 ==> r[0].start_idx == 0,
        forall|k: int| 0 <= k < r.len() ==> (#[trigger] r[k]).start_idx <= r[k].end_idx <= ws.len(),
        forall|k: int| 0 <= k < r.len() - 1 ==> (#[trigger] r[k]).end_idx == r[k + 1].start_idx,
        crate::caption::ranges_ok(r, ws.len()),
{
    let tw = stamp_tokens(ws);
    let sents = item_tokens(items);
    assert forall|k: int| 0 <= k < r.len() implies (#[trigger] r[k]).start_idx <= r[k].end_idx <= ws.len() by {
        assert(sentence_range_ok(r[k], items, ws, script, k));
        lemma_item_start_bounds(tw, sents, k);
    }
    assert forall|k: int| 0 <= k < r.len() - 1 implies (#[trigger] r[k]).end_idx == r[k + 1].start_idx by {
        assert(sentence_range_ok(r[k], items, ws, script, k));
        assert(sentence_range_ok(r[k + 1], items, ws, script, k + 1));
    }
    if r.len() > 0 {
        assert(sentence_range_ok(r[0], items, ws, script, 0));
    }
}

// ---------------------------------------------------------------------------
// Studio settings
// ---------------------------------------------------------------------------

/// API keys a studio request may carry.
pub struct StudioApiKeys {
    pub gemini_key: Option<String>,
    pub openrouter_key: Option<String>,
    pub deepgram_key: Option<String>,
    pub elevenlabs_key: Option<String>,
    pub pexels_key: Option<String>,
    pub pixabay_key: Option<String>,
    pub wavespeed_key: Option<String>,
    pub uploadpost_key: Option<String>,
}

/// A studio (faceless video) request as submitted; absent settings take their
/// defaults when the job is resolved.
pub struct StudioPayload {
    pub script: Option<String>,
    pub mode: Option<String>,
    pub duration: Option<i64>,
    pub llm_provider: Option<String>,
    pub tts_provider: Option<String>,
    pub voice: Option<String>,
    pub source: Option<String>,
    pub media_type: Option<String>,
    pub vibe: Option<String>,
    pub subtitle_style: Option<String>,
    pub bg_music: Option<String>,
    pub api_keys: StudioApiKeys,
}

/// Everything a studio render runs with, every default filled in.
pub struct StudioPlan {
    pub script: String,
    pub mode: String,
    pub llm_provider: String,
    pub tts_provider: String,
    pub voice: String,
    pub duration_secs: i32,
    pub source: String,
    pub media_type: String,
    pub vibe: String,
    pub subtitle_style: String,
    pub bg_music: String,
    pub caption_template: String,
    pub gemini_key: String,
    pub deepgram_key: String,
    pub openrouter_key: String,
    pub elevenlabs_key: String,
    pub pexels_key: String,
    pub pixabay_key: String,
    pub wavespeed_key: String,
}

/// Why a studio request cannot run.
#[derive(PartialEq, Eq, Structural, Clone, Copy)]
pub enum StudioError {
    MissingScript,
    /// The AI modes generate footage with WaveSpeed and need its key.
    WavespeedKeyRequired { ai_broll: bool },
}

impl StudioError {
    pub open spec fn text(self) -> Seq<char> {
        match self {
            StudioError::MissingScript => "Missing script in studio_payload"@,
            StudioError::WavespeedKeyRequired { ai_broll } => if ai_broll {
                "AI B-Roll mode requires a WaveSpeed API key. Add it in Settings."@
            } else {
                "AI Shorts mode requires a WaveSpeed API key. Add it in Settings."@
            },
        }
    }

    /// The error message shown to the user.
    pub fn message(&self) -> (r: String)
        ensures
            r@ == self.text(),
    {
        match self {
            StudioError::MissingScript => owned("Missing script in studio_payload"),
            StudioError::WavespeedKeyRequired { ai_broll } => if *ai_broll {
                owned("AI B-Roll mode requires a WaveSpeed API key. Add it in Settings.")
            } else {
                owned("AI Shorts mode requires a WaveSpeed API key. Add it in Settings.")
            },
        }
    }
}

/// The value given, or the default.
pub open spec fn or_default(o: Option<String>, d: Seq<char>) -> Seq<char> {
    match o {
        Some(s) => s@,
        None => d,
    }
}

/// The value given when it is non-empty, or the fallback.
pub open spec fn nonempty_or(o: Option<String>, fallback: Seq<char>) -> Seq<char> {
    match o {
        Some(s) if s@.len() > 0 => s@,
        _ => fallback,
    }
}

pub fn value_or(o: &Option<String>, d: &str) -> (r: String)
    ensures
        r@ == or_default(*o, d@),
{
    match o {
        Some(s) => s.clone(),
        None => owned(d),
    }
}

pub fn nonempty_value_or(o: &Option<String>, fallback: &str) -> (r: String)
    ensures
        r@ == nonempty_or(*o, fallback@),
{
    match o {
        Some(s) => {
            proof {
                lemma_utf8_empty_iff(s@);
            }
            if byte_len(s.as_str()) > 0 {
                s.clone()
            } else {
                owned(fallback)
            }
        }
        None => owned(fallback),
    }
}

/// The caption template a studio subtitle style stands for.
pub open spec fn template_for_style(style: Seq<char>) -> Seq<char> {
    if style == "yellow_box"@ {
        "vibrant"@
    } else if style == "bold_outline"@ {
        "bold"@
    } else if style == "minimal"@ {
        "minimal"@
    } else {
        "default"@
    }
}

pub fn caption_template_for(style: &str) -> (r: &'static str)
    ensures
        r@ == template_for_style(style@),
{
    if str_eq(style, "yellow_box") {
        "vibrant"
    } else if str_eq(style, "bold_outline") {
        "bold"
    } else if str_eq(style, "minimal") {
        "minimal"
    } else {
        "default"
    }
}

/// The voice engine a studio mode runs with: AI B-roll needs word timings, so
/// anything but ElevenLabs or Deepgram Aura becomes Deepgram Aura there.
pub open spec fn effective_tts(mode: Seq<char>, tts: Seq<char>) -> Seq<char> {
    if mode == "ai"@ && tts != "elevenlabs"@ && tts != "deepgram-aura"@ {
        "deepgram-aura"@
    } else {
        tts
    }
}

/// The WaveSpeed key: the request's when non-empty, else the environment's when
/// non-empty, else none.
pub open spec fn wavespeed_key_of(p: Option<String>, env: Option<String>) -> Seq<char> {
    nonempty_or(p, nonempty_or(env, Seq::empty()))
}

/// Fills in a studio request's defaults and checks it can run. `cfg_*` are the
/// task's own keys, `env_wavespeed` the WaveSpeed key from the environment.
pub fn resolve_studio(
    p: &StudioPayload,
    cfg_gemini: &str,
    cfg_deepgram: &str,
    cfg_pexels: &Option<String>,
    cfg_pixabay: &Option<String>,
    env_wavespeed: &Option<String>,
) -> (r: Result<StudioPlan, StudioError>)
    ensures
        p.script is None ==> r == Err::<StudioPlan, StudioError>(StudioError::MissingScript),
        p.script is Some ==> {
            let mode = or_default(p.mode, "stock"@);
            let ws = wavespeed_key_of(p.api_keys.wavespeed_key, *env_wavespeed);
            if (mode == "ai"@ || mode == "ai-shorts"@) && ws.len() == 0 {
                r == Err::<StudioPlan, StudioError>(StudioError::WavespeedKeyRequired { ai_broll: mode == "ai"@ })
            } else {
                r matches Ok(plan) && {
                    &&& plan.script@ == p.script.unwrap()@
                    &&& plan.mode@ == mode
                    &&& plan.llm_provider@ == or_default(p.llm_provider, "gemini-3.1-flash-lite"@)
                    &&& plan.tts_provider@ == effective_tts(mode, or_default(p.tts_provider, "edge-tts"@))
                    &&& plan.voice@ == or_default(p.voice, "en-US-ChristopherNeural"@)
                    &&& plan.duration_secs == (match p.duration { Some(d) => d as i32, None => 60i32 })
                    &&& plan.source@ == or_default(p.source, "all"@)
                    &&& plan.media_type@ == or_default(p.media_type, "video"@)
                    &&& plan.vibe@ == or_default(p.vibe, "aesthetic"@)
                    &&& plan.subtitle_style@ == or_default(p.subtitle_style, "high_retention"@)
                    &&& plan.bg_music@ == or_default(p.bg_music, "none"@)
                    &&& plan.caption_template@ == template_for_style(plan.subtitle_style@)
                    &&& plan.gemini_key@ == nonempty_or(p.api_keys.gemini_key, cfg_gemini@)
                    &&& plan.deepgram_key@ == nonempty_or(p.api_keys.deepgram_key, cfg_deepgram@)
                    &&& plan.openrouter_key@ == or_default(p.api_keys.openrouter_key, ""@)
                    &&& plan.elevenlabs_key@ == or_default(p.api_keys.elevenlabs_key, ""@)
                    &&& plan.pexels_key@ == nonempty_or(p.api_keys.pexels_key, or_default(*cfg_pexels, ""@))
                    &&& plan.pixabay_key@ == nonempty_or(p.api_keys.pixabay_key, or_default(*cfg_pixabay, ""@))
                    &&& plan.wavespeed_key@ == ws
                }
            }
        },
{
    let script = match &p.script {
        Some(s) => s.clone(),
        None => return Err(StudioError::MissingScript),
    };
    let mode = value_or(&p.mode, "stock");
    let llm_provider = value_or(&p.llm_provider, "gemini-3.1-flash-lite");
    let requested_tts = value_or(&p.tts_provider, "edge-tts");
    let is_ai = str_eq(mode.as_str(), "ai");
    let tts_provider = if is_ai && !str_eq(requested_tts.as_str(), "elevenlabs") && !str_eq(requested_tts.as_str(), "deepgram-aura") {
        owned("deepgram-aura")
    } else {
        requested_tts
    };
    let voice = value_or(&p.voice, "en-US-ChristopherNeural");
    let duration_secs: i32 = match p.duration {
        Some(d) => d as i32,
        None => 60,
    };
    let source = value_or(&p.source, "all");
    let media_type = value_or(&p.media_type, "video");
    let vibe = value_or(&p.vibe, "aesthetic");
    let subtitle_style = value_or(&p.subtitle_style, "high_retention");
    let bg_music = value_or(&p.bg_music, "none");
    let gemini_key = nonempty_value_or(&p.api_keys.gemini_key, cfg_gemini);
    let deepgram_key = nonempty_value_or(&p.api_keys.deepgram_key, cfg_deepgram);
    let openrouter_key = value_or(&p.api_keys.openrouter_key, "");
    let elevenlabs_key = value_or(&p.api_keys.elevenlabs_key, "");
    let pexels_fallback = value_or(cfg_pexels, "");
    let pexels_key = nonempty_value_or(&p.api_keys.pexels_key, pexels_fallback.as_str());
    let pixabay_fallback = value_or(cfg_pixabay, "");
    let pixabay_key = nonempty_value_or(&p.api_keys.pixabay_key, pixabay_fallback.as_str());
    let env_key = nonempty_value_or(env_wavespeed, "");
    let wavespeed_key = nonempty_value_or(&p.api_keys.wavespeed_key, env_key.as_str());
    proof {
        reveal_strlit("");
    }
    let needs_key = is_ai || str_eq(mode.as_str(), "ai-shorts");
    proof {
        lemma_utf8_empty_iff(wavespeed_key@);
    }
    if needs_key && byte_len(wavespeed_key.as_str()) == 0 {
        return Err(StudioError::WavespeedKeyRequired { ai_broll: is_ai });
    }
    let caption_template = owned(caption_template_for(subtitle_style.as_str()));
    Ok(StudioPlan {
        script,
        mode,
        llm_provider,
        tts_provider,
        voice,
        duration_secs,
        source,
        media_type,
        vibe,
        subtitle_style,
        bg_music,
        caption_template,
        gemini_key,
        deepgram_key,
        openrouter_key,
        elevenlabs_key,
        pexels_key,
        pixabay_key,
        wavespeed_key,
    })
}

// ---------------------------------------------------------------------------
// Publishing a finished AI short
// ---------------------------------------------------------------------------

/// What to do with a finished studio video.
pub enum PublishDecision {
    /// Only AI shorts are published.
    NotShorts,
    /// The request did not ask for publishing.
    NotRequested,
    /// Publishing was asked for but no Upload-Post key was given.
    MissingKey,
    Publish { title: String, description: String },
}

/// The text before the first line break.
pub open spec fn first_line(s: Seq<char>) -> Seq<char> {
    let k = index_of_char(s, '\n');
    if k < 0 { s } else { s.take(k) }
}

/// The title of a published short: the first line of the product description,
/// trimmed and cut to 70 characters, or "AI Short" when that is empty.
pub open spec fn short_title(product: Seq<char>) -> Seq<char> {
    let t = trim(first_line(product));
    if t.len() == 0 {
        "AI Short"@
    } else if t.len() > 70 {
        t.take(70)
    } else {
        t
    }
}

/// The description of a published short: the script and three hashtags.
pub open spec fn short_description(script: Seq<char>) -> Seq<char> {
    trim(script) + "\n\n#shorts #ai #product"@
}

/// The decision for a finished studio video.
pub open spec fn publish_decision_ok(
    d: PublishDecision,
    mode: Option<String>,
    publish: Option<bool>,
    key: Option<String>,
    script: Option<String>,
    product: Option<String>,
) -> bool {
    if !(mode matches Some(m) && m@ == "ai-shorts"@) {
        d is NotShorts
    } else if publish != Some(true) {
        d is NotRequested
    } else if !(key matches Some(k) && trim(k@).len() > 0) {
        d is MissingKey
    } else {
        d matches PublishDecision::Publish { title, description }
            && title@ == short_title(or_default(product, ""@))
            && description@ == short_description(or_default(script, ""@))
    }
}

fn first_line_chars(s: &Vec<char>) -> (r: Vec<char>)
    ensures
        r@ == first_line(s@),
{
    let mut k: usize = 0;
    while k < s.len() && s[k] != '\n'
        invariant
            k <= s.len(),
            forall|j: int| 0 <= j < k ==> s@[j] != '\n',
        decreases s.len() - k,
    {
        k += 1;
    }
    proof {
        lemma_index_of_char(s@, '\n', k as int);
    }
    let mut r: Vec<char> = Vec::new();
    let mut i: usize = 0;
    while i < k
        invariant
            i <= k <= s.len(),
            r@ == s@.take(i as int),
        decreases k - i,
    {
        r.push(s[i]);
        i += 1;
        assert(s@.take(i as int) =~= s@.take(i - 1).push(s@[i - 1]));
    }
    if k == s.len() {
        assert(s@.take(k as int) =~= s@);
    }
    r
}

/// Decides whether and how a finished AI short is published.
pub fn plan_publish(
    mode: &Option<String>,
    publish: Option<bool>,
    key: &Option<String>,
    script: &Option<String>,
    product: &Option<String>,
) -> (d: PublishDecision)
    ensures
        publish_decision_ok(d, *mode, publish, *key, *script, *product),
{
    let is_shorts = match mode {
        Some(m) => str_eq(m.as_str(), "ai-shorts"),
        None => false,
    };
    if !is_shorts {
        return PublishDecision::NotShorts;
    }
    match publish {
        Some(true) => {},
        _ => return PublishDecision::NotRequested,
    }
    let has_key = match key {
        Some(k) => {
            let t = str_trim(k.as_str());
            !t.as_str().is_empty()
        }
        None => false,
    };
    if !has_key {
        return PublishDecision::MissingKey;
    }
    let product_text = value_or(product, "");
    let script_text = value_or(script, "");
    let pcs = chars_of(product_text.as_str());
    let line = first_line_chars(&pcs);
    let t = trim_chars(&line);
    let title = if t.len() == 0 {
        owned("AI Short")
    } else if t.len() > 70 {
        let mut cut: Vec<char> = Vec::new();
        let mut i: usize = 0;
        while i < 70
            invariant
                i <= 70,
                t.len() > 70,
                cut@ == t@.take(i as int),
            decreases 70 - i,
        {
            cut.push(t[i]);
            i += 1;
            assert(t@.take(i as int) =~= t@.take(i - 1).push(t@[i - 1]));
        }
        string_of(&cut)
    } else {
        string_of(&t)
    };
    let mut description = str_trim(script_text.as_str());
    push_str(&mut description, "\n\n#shorts #ai #product");
    PublishDecision::Publish { title, description }
}

// ---------------------------------------------------------------------------
// AI shorts: the actor portrait and the hook scene
// ---------------------------------------------------------------------------

/// The prompt for the AI actor's portrait: the actor description when there is
/// one, else a creator promoting the product, else a generic creator.
pub open spec fn portrait_prompt(actor: Seq<char>, product: Seq<char>) -> Seq<char> {
    if trim(actor).len() > 0 {
        trim(actor) + ". Front-facing waist-up portrait, eyes on camera, mouth relaxed and visible, photorealistic, professional studio lighting, clean blurred background, 9:16 vertical."@
    } else if trim(product).len() > 0 {
        "Professional UGC creator portrait, front-facing waist-up, eyes on camera, mouth relaxed and visible, promoting: "@
            + trim(product) + ". Photorealistic, studio lighting, clean blurred background, 9:16 vertical."@
    } else {
        "Professional UGC creator portrait, front-facing waist-up, eyes on camera, mouth relaxed and visible, friendly confident expression, photorealistic, studio lighting, clean blurred background, 9:16 vertical."@
    }
}

pub fn build_portrait_prompt(actor: &str, product: &str) -> (r: String)
    ensures
        r@ == portrait_prompt(actor@, product@),
{
    let a = str_trim(actor);
    if !a.as_str().is_empty() {
        let mut out = a;
        push_str(&mut out, ". Front-facing waist-up portrait, eyes on camera, mouth relaxed and visible, photorealistic, professional studio lighting, clean blurred background, 9:16 vertical.");
        return out;
    }
    let p = str_trim(product);
    if !p.as_str().is_empty() {
        let mut out = owned("Professional UGC creator portrait, front-facing waist-up, eyes on camera, mouth relaxed and visible, promoting: ");
        push_str(&mut out, p.as_str());
        push_str(&mut out, ". Photorealistic, studio lighting, clean blurred background, 9:16 vertical.");
        return out;
    }
    owned("Professional UGC creator portrait, front-facing waist-up, eyes on camera, mouth relaxed and visible, friendly confident expression, photorealistic, studio lighting, clean blurred background, 9:16 vertical.")
}

/// The length of a span in milliseconds (0 when it is reversed).
pub open spec fn span_ms(r: WordRange) -> int {
    if r.end_ms >= r.start_ms { r.end_ms - r.start_ms } else { 0 }
}

/// How long the talking-head hook runs, in whole seconds: the first sentence's
/// length held between 5 and 15 seconds, or 8 seconds without sentences.
pub open spec fn hook_seconds(ranges: Seq<WordRange>) -> int {
    if ranges.len() == 0 {
        8
    } else {
        let d = span_ms(ranges[0]);
        let c = if d < 5000 { 5000 } else if d > 15000 { 15000 } else { d };
        c / 1000
    }
}

pub fn hook_duration_secs(ranges: &Vec<WordRange>) -> (r: i32)
    ensures
        r == hook_seconds(ranges@),
{
    if ranges.len() == 0 {
        return 8;
    }
    let r = ranges[0];
    let d: u64 = if r.end_ms >= r.start_ms { r.end_ms - r.start_ms } else { 0 };
    let c: u64 = if d < 5000 { 5000 } else if d > 15000 { 15000 } else { d };
    (c / 1000) as i32
}

// ---------------------------------------------------------------------------
// Scene timing
// ---------------------------------------------------------------------------

/// How long scene `i` lasts when its footage is missing and a black placeholder
/// stands in: its sentence's span, or an even share of the voice-over, at
/// least two seconds either way.
pub open spec fn placeholder_ms(ranges: Seq<WordRange>, i: int, total_ms: int, n_items: int) -> int {
    let d = if i < ranges.len() { span_ms(ranges[i]) } else if n_items > 0 { total_ms / n_items } else { 0 };
    if d < 2000 { 2000 } else { d }
}

pub fn placeholder_duration_ms(ranges: &Vec<WordRange>, i: usize, total_ms: u64, n_items: usize) -> (r: u64)
    ensures
        r == placeholder_ms(ranges@, i as int, total_ms as int, n_items as int),
{
    let d: u64 = if i < ranges.len() {
        let r = ranges[i];
        if r.end_ms >= r.start_ms { r.end_ms - r.start_ms } else { 0 }
    } else if n_items > 0 {
        total_ms / (n_items as u64)
    } else {
        0
    };
    if d < 2000 { 2000 } else { d }
}

/// The scenes that are assembled: one per fetched clip, as far as there are
/// sentences, each lasting its sentence's span but at least a second.
pub open spec fn scene_lengths(ranges: Seq<WordRange>, n_items: int, n_media: int) -> Seq<u64> {
    let n = if n_media < ranges.len() { n_media } else { ranges.len() as int };
    let n = if n < n_items { n } else { n_items };
    Seq::new(if n < 0 { 0 } else { n as nat }, |i: int| {
        let d = span_ms(ranges[i]);
        (if d < 1000 { 1000 } else { d }) as u64
    })
}

pub fn scene_durations_ms(ranges: &Vec<WordRange>, n_items: usize, n_media: usize) -> (r: Vec<u64>)
    ensures
        r@ == scene_lengths(ranges@, n_items as int, n_media as int),
{
    let ghost want = scene_lengths(ranges@, n_items as int, n_media as int);
    let mut n = if n_media < ranges.len() { n_media } else { ranges.len() };
    if n_items < n {
        n = n_items;
    }
    let mut r: Vec<u64> = Vec::new();
    let mut i: usize = 0;
    while i < n
        invariant
            i <= n,
            n <= ranges.len(),
            want == scene_lengths(ranges@, n_items as int, n_media as int),
            want.len() == n,
            r@ == want.take(i as int),
        decreases n - i,
    {
        let g = ranges[i];
        let d: u64 = if g.end_ms >= g.start_ms { g.end_ms - g.start_ms } else { 0 };
        r.push(if d < 1000 { 1000 } else { d });
        i += 1;
        assert(want.take(i as int) =~= want.take(i - 1).push(r@[i - 1]));
    }
    assert(want.take(i as int) =~= want);
    r
}

/// Progress while footage is fetched: from 20% to 40% over the scenes.
pub open spec fn fetch_percent(i: int, total: int) -> int {
    20 + i * 20 / (if total < 1 { 1 } else { total })
}

pub fn fetch_progress(i: usize, total: usize) -> (r: i32)
    requires
        i <= total,
    ensures
        r == fetch_percent(i as int, total as int),
{
    let d: usize = if total < 1 { 1 } else { total };
    assert((i as int) * 20 / (d as int) <= 20) by (nonlinear_arith)
        requires
            i <= d,
            1 <= d,
    ;
    (20 + (i as u128 * 20 / d as u128)) as i32
}

} // verus!
