//! Transcripts: the timed text the language models read, the windows long
//! transcripts are cut into, speaker turns, and raw audio samples.
//!
//! Times are milliseconds.
use vstd::prelude::*;
use crate::text::{owned, push_str, padded, trim};
use crate::caption::join_space;
use crate::caption::{DeepgramWord, push_pad, shown_text, word_text, words_bounded, TIME_BOUND};

verus! {

/// `MM:SS` of the whole seconds in `ms` (minutes keep counting past an hour).
pub open spec fn mmss(ms: nat) -> Seq<char> {
    let total = ms / 1000;
    padded(total / 60, 2) + ":"@ + padded(total % 60, 2)
}

pub fn push_mmss(out: &mut String, ms: u64)
    ensures
        final(out)@ == old(out)@ + mmss(ms as nat),
{
    let ghost o = out@;
    let total = ms / 1000;
    push_pad(out, total / 60, 2);
    push_str(out, ":");
    push_pad(out, total % 60, 2);
    assert(out@ =~= o + mmss(ms as nat));
}

pub fn seconds_to_mmss(ms: u64) -> (r: String)
    ensures
        r@ == mmss(ms as nat),
{
    let mut out = String::new();
    push_mmss(&mut out, ms);
    assert(out@ =~= mmss(ms as nat));
    out
}

// ---------------------------------------------------------------------------
// The transcript a language model reads
// ---------------------------------------------------------------------------

/// The shown texts of some words joined by spaces.
pub open spec fn joined(ws: Seq<DeepgramWord>) -> Seq<char>
    decreases ws.len(),
{
    if ws.len() == 0 {
        seq![]
    } else if ws.len() == 1 {
        shown_text(ws[0], false)
    } else {
        joined(ws.drop_last()) + " "@ + shown_text(ws.last(), false)
    }
}

/// A prompt line for the span `a..b` (milliseconds) and its text.
pub open spec fn timed_line(a: nat, b: nat, text: Seq<char>) -> Seq<char> {
    "["@ + mmss(a) + " - "@ + mmss(b) + "] "@ + text
}

/// One line of the prompt transcript: `[start - end] text` for a run of words.
pub open spec fn chunk_line(ws: Seq<DeepgramWord>) -> Seq<char> {
    "["@ + mmss(ws[0].start_ms as nat) + " - "@ + mmss(ws.last().end_ms as nat) + "] "@ + joined(ws)
}

/// The lines for the words, forty words to a line, joined by line breaks.
pub open spec fn chunk_lines(ws: Seq<DeepgramWord>) -> Seq<char>
    decreases ws.len(),
{
    if ws.len() <= 40 {
        chunk_line(ws)
    } else {
        chunk_line(ws.take(40)) + "\n"@ + chunk_lines(ws.skip(40))
    }
}

/// The transcript as the analysis prompt shows it: timed lines of forty words,
/// or the plain text when there are no word timings.
pub open spec fn prompt_transcript(ws: Seq<DeepgramWord>, full_text: Seq<char>) -> Seq<char> {
    if ws.len() == 0 { full_text } else { chunk_lines(ws) }
}

/// A prompt line's time span covers all its words: it reads `[a - b] ..`
/// with `a` the earliest word start and `b` the latest word end, when the
/// words come in time order.
pub proof fn lemma_chunk_line_covers_words(ws: Seq<DeepgramWord>)
    requires
        ws.len() > 0,
        forall|i: int, j: int| 0 <= i < j < ws.len() ==> ws[i].start_ms <= ws[j].start_ms && ws[i].end_ms <= ws[j].end_ms,
    ensures
        exists|a: nat, b: nat, text: Seq<char>|
            chunk_line(ws) == #[trigger] timed_line(a, b, text)
            && (forall|j: int| 0 <= j < ws.len() ==> a <= (#[trigger] ws[j]).start_ms && ws[j].end_ms <= b)
            && (exists|j: int| 0 <= j < ws.len() && a == (#[trigger] ws[j]).start_ms)
            && (exists|j: int| 0 <= j < ws.len() && b == (#[trigger] ws[j]).end_ms),
{
    let a = ws[0].start_ms as nat;
    let b = ws.last().end_ms as nat;
    assert(forall|j: int| 0 <= j < ws.len() ==> ws[0].start_ms <= (#[trigger] ws[j]).start_ms);
    assert(forall|j: int| 0 <= j < ws.len() ==> (#[trigger] ws[j]).end_ms <= ws[ws.len() - 1].end_ms);
    assert(b == ws[ws.len() - 1].end_ms);
    assert(chunk_line(ws) == timed_line(a, b, joined(ws)));
}

fn push_chunk_line(out: &mut String, words: &Vec<DeepgramWord>, from: usize, to: usize)
    requires
        from < to <= words.len(),
    ensures
        final(out)@ == old(out)@ + chunk_line(words@.subrange(from as int, to as int)),
{
    let ghost o = out@;
    let ghost ws = words@.subrange(from as int, to as int);
    push_str(out, "[");
    push_mmss(out, words[from].start_ms);
    push_str(out, " - ");
    push_mmss(out, words[to - 1].end_ms);
    push_str(out, "] ");
    let ghost head = out@;
    let mut i: usize = from;
    while i < to
        invariant
            from <= i <= to <= words.len(),
            ws == words@.subrange(from as int, to as int),
            out@ == head + joined(words@.subrange(from as int, i as int)),
        decreases to - i,
    {
        let t = word_text(&words[i], false);
        if i > from {
            push_str(out, " ");
        }
        push_str(out, t.as_str());
        proof {
            let part = words@.subrange(from as int, i + 1);
            assert(part.drop_last() =~= words@.subrange(from as int, i as int));
            assert(part.last() == words@[i as int]);
            if i == from {
                assert(words@.subrange(from as int, i as int).len() == 0);
            }
        }
        i += 1;
    }
    assert(out@ =~= o + chunk_line(ws));
}

proof fn lemma_chunk_lines_step(ws: Seq<DeepgramWord>, k: int)
    requires
        0 <= k,
        k + 40 < ws.len(),
    ensures
        chunk_lines(ws.skip(k)) == chunk_line(ws.subrange(k, k + 40)) + "\n"@ + chunk_lines(ws.skip(k + 40)),
{
    assert(ws.skip(k).take(40) =~= ws.subrange(k, k + 40));
    assert(ws.skip(k).skip(40) =~= ws.skip(k + 40));
}

/// The transcript for the analysis prompt.
pub fn build_transcript_for_prompt(words: &Vec<DeepgramWord>, full_text: &str) -> (r: String)
    ensures
        r@ == prompt_transcript(words@, full_text@),
{
    if words.len() == 0 {
        return owned(full_text);
    }
    let n = words.len();
    let mut out = String::new();
    let mut k: usize = 0;
    assert(words@.skip(0) =~= words@);
    while n - k > 40
        invariant
            k < n == words.len(),
            out@ + chunk_lines(words@.skip(k as int)) == chunk_lines(words@),
        decreases n - k,
    {
        proof {
            lemma_chunk_lines_step(words@, k as int);
        }
        let ghost before = out@;
        push_chunk_line(&mut out, words, k, k + 40);
        push_str(&mut out, "\n");
        proof {
            assert(before + chunk_lines(words@.skip(k as int)) == chunk_lines(words@));
            assert(out@ + chunk_lines(words@.skip(k + 40)) =~= before + (chunk_line(words@.subrange(k as int, k + 40)) + "\n"@ + chunk_lines(words@.skip(k + 40))));
        }
        k += 40;
    }
    let ghost before = out@;
    push_chunk_line(&mut out, words, k, n);
    proof {
        assert(words@.skip(k as int) =~= words@.subrange(k as int, n as int));
        assert(words@.skip(k as int).len() <= 40);
    }
    out
}

// ---------------------------------------------------------------------------
// Windows of a long transcript
// ---------------------------------------------------------------------------

/// The indices of the words that start inside `[start, end)`, in order.
pub open spec fn window(ws: Seq<DeepgramWord>, start: int, end: int) -> Seq<int> {
    Seq::new(ws.len(), |i: int| i).filter(|i: int| start <= ws[i].start_ms && ws[i].start_ms < end)
}

/// The windows from `start` on: each `chunk` long, the next starting `overlap`
/// before the previous ended; the walk stops at the first empty window or once
/// a window reaches the transcript's end.
pub open spec fn windows_from(ws: Seq<DeepgramWord>, duration: int, chunk: int, overlap: int, start: int) -> Seq<Seq<int>>
    decreases duration - start,
{
    let end = start + chunk;
    let w = window(ws, start, end);
    if chunk <= overlap || w.len() == 0 {
        seq![]
    } else if end >= duration {
        seq![w]
    } else {
        let next = if end - overlap > 0 { end - overlap } else { 0 };
        if next <= start || next >= duration {
            seq![w]
        } else {
            seq![w] + windows_from(ws, duration, chunk, overlap, next)
        }
    }
}

fn window_indices(words: &Vec<DeepgramWord>, start: u64, end: u64) -> (r: Vec<usize>)
    ensures
        r@.map_values(|x: usize| x as int) == window(words@, start as int, end as int),
{
    let ghost pred = |i: int| start <= words@[i].start_ms && words@[i].start_ms < end;
    let ghost all = Seq::new(words.len() as nat, |i: int| i);
    let mut r: Vec<usize> = Vec::new();
    let mut i: usize = 0;
    while i < words.len()
        invariant
            i <= words.len(),
            all == Seq::new(words.len() as nat, |i: int| i),
            pred == (|i: int| start <= words@[i].start_ms && words@[i].start_ms < end),
            r@.map_values(|x: usize| x as int) == all.take(i as int).filter(pred),
        decreases words.len() - i,
    {
        proof {
            assert(all.take(i + 1) =~= all.take(i as int).push(i as int));
            all.take(i as int).lemma_filter_push(i as int, pred);
        }
        let ghost before = r@;
        if start <= words[i].start_ms && words[i].start_ms < end {
            r.push(i);
            assert(r@.map_values(|x: usize| x as int) =~= before.map_values(|x: usize| x as int).push(i as int));
        }
        i += 1;
    }
    assert(all.take(words.len() as int) =~= all);
    r
}

/// Cuts a long transcript into overlapping windows of word indices. The
/// window must be longer than the overlap, or the walk would not advance.
pub fn chunk_transcript(words: &Vec<DeepgramWord>, duration_ms: u64, chunk_ms: u64, overlap_ms: u64) -> (r: Vec<Vec<usize>>)
    requires
        overlap_ms < chunk_ms,
        chunk_ms < TIME_BOUND,
        duration_ms < TIME_BOUND,
    ensures
        r@.map_values(|c: Vec<usize>| c@.map_values(|x: usize| x as int)) == windows_from(words@, duration_ms as int, chunk_ms as int, overlap_ms as int, 0),
{
    let mut out: Vec<Vec<usize>> = Vec::new();
    let mut start: u64 = 0;
    let ghost target = windows_from(words@, duration_ms as int, chunk_ms as int, overlap_ms as int, 0);
    loop
        invariant_except_break
            out@.map_values(|c: Vec<usize>| c@.map_values(|x: usize| x as int))
                + windows_from(words@, duration_ms as int, chunk_ms as int, overlap_ms as int, start as int) == target,
        invariant
            overlap_ms < chunk_ms < TIME_BOUND,
            duration_ms < TIME_BOUND,
            start < TIME_BOUND,
            target == windows_from(words@, duration_ms as int, chunk_ms as int, overlap_ms as int, 0),
        ensures
            out@.map_values(|c: Vec<usize>| c@.map_values(|x: usize| x as int)) == target,
        decreases duration_ms - start,
    {
        let end = start + chunk_ms;
        let w = window_indices(words, start, end);
        let ghost rest = windows_from(words@, duration_ms as int, chunk_ms as int, overlap_ms as int, start as int);
        let ghost before = out@.map_values(|c: Vec<usize>| c@.map_values(|x: usize| x as int));
        if w.len() == 0 {
            assert(rest =~= Seq::<Seq<int>>::empty());
            assert(before + rest =~= before);
            break;
        }
        let ghost wv = w@.map_values(|x: usize| x as int);
        out.push(w);
        assert(out@.map_values(|c: Vec<usize>| c@.map_values(|x: usize| x as int)) =~= before.push(wv));
        if end >= duration_ms {
            assert(rest =~= seq![wv]);
            assert(before + rest =~= before.push(wv));
            break;
        }
        let next: u64 = if end > overlap_ms { end - overlap_ms } else { 0 };
        assert(next > start);
        assert(rest =~= seq![wv] + windows_from(words@, duration_ms as int, chunk_ms as int, overlap_ms as int, next as int));
        assert(before.push(wv) + windows_from(words@, duration_ms as int, chunk_ms as int, overlap_ms as int, next as int) =~= before + rest);
        start = next;
    }
    out
}

// ---------------------------------------------------------------------------
// Speaker turns inside a clip
// ---------------------------------------------------------------------------

/// A stretch of one speaker's speech, relative to the clip's start.
#[derive(PartialEq, Eq, Structural, Clone, Copy)]
pub struct SpeakerSegment {
    pub start_ms: u64,
    pub end_ms: u64,
    pub speaker: i32,
}

/// The speaker turns among the first `n` words for the window
/// `[start, end]`: words outside the window or without a speaker are skipped;
/// times are shifted to the window's start (never below 0); a word extends
/// the last turn when it is the same speaker's and starts at most 300 ms after
/// that turn ends.
pub open spec fn turns(ws: Seq<DeepgramWord>, start: int, end: int, n: int) -> Seq<SpeakerSegment>
    decreases n,
{
    if n <= 0 {
        seq![]
    } else {
        let prev = turns(ws, start, end, n - 1);
        let w = ws[n - 1];
        if w.end_ms < start || w.start_ms > end || w.speaker is None {
            prev
        } else {
            let spk = w.speaker.unwrap();
            let s = if w.start_ms >= start { w.start_ms - start } else { 0 };
            let e = if w.end_ms >= start { w.end_ms - start } else { 0 };
            if prev.len() > 0 && prev.last().speaker == spk && s <= prev.last().end_ms + 300 {
                let l = prev.last();
                prev.drop_last().push(SpeakerSegment { end_ms: (if e > l.end_ms { e } else { l.end_ms as int }) as u64, ..l })
            } else {
                prev.push(SpeakerSegment { start_ms: s as u64, end_ms: e as u64, speaker: spk })
            }
        }
    }
}

pub fn speaker_segments_for_window(words: &Vec<DeepgramWord>, start_ms: u64, end_ms: u64) -> (r: Vec<SpeakerSegment>)
    requires
        words_bounded(words@),
    ensures
        r@ == turns(words@, start_ms as int, end_ms as int, words.len() as int),
{
    let mut segs: Vec<SpeakerSegment> = Vec::new();
    let mut i: usize = 0;
    while i < words.len()
        invariant
            i <= words.len(),
            words_bounded(words@),
            segs@ == turns(words@, start_ms as int, end_ms as int, i as int),
        decreases words.len() - i,
    {
        let w = &words[i];
        assert(w.start_ms < TIME_BOUND && w.end_ms < TIME_BOUND);
        if !(w.end_ms < start_ms || w.start_ms > end_ms) {
            if let Some(spk) = w.speaker {
                let s: u64 = if w.start_ms >= start_ms { w.start_ms - start_ms } else { 0 };
                let e: u64 = if w.end_ms >= start_ms { w.end_ms - start_ms } else { 0 };
                let n = segs.len();
                let mut merged = false;
                if n > 0 {
                    let last = segs[n - 1];
                    if last.speaker == spk && (s as u128) <= (last.end_ms as u128) + 300 {
                        let ne = if e > last.end_ms { e } else { last.end_ms };
                        segs.set(n - 1, SpeakerSegment { start_ms: last.start_ms, end_ms: ne, speaker: last.speaker });
                        merged = true;
                        proof {
                            assert(segs@ =~= turns(words@, start_ms as int, end_ms as int, i as int).drop_last().push(SpeakerSegment { end_ms: ne, ..last }));
                        }
                    }
                }
                if !merged {
                    segs.push(SpeakerSegment { start_ms: s, end_ms: e, speaker: spk });
                }
            }
        }
        i += 1;
    }
    segs
}

/// Every turn starts inside the window, and ends no earlier than it starts
/// when every word ends no earlier than it starts.
pub proof fn lemma_turns_in_window(ws: Seq<DeepgramWord>, start: int, end: int, n: int)
    requires
        words_bounded(ws),
        0 <= start <= end,
        n <= ws.len(),
    ensures
        forall|k: int| 0 <= k < turns(ws, start, end, n).len() ==> (#[trigger] turns(ws, start, end, n)[k]).start_ms <= end - start,
        (forall|i: int| 0 <= i < n ==> (#[trigger] ws[i]).start_ms <= ws[i].end_ms) ==>
            forall|k: int| 0 <= k < turns(ws, start, end, n).len() ==> (#[trigger] turns(ws, start, end, n)[k]).start_ms <= turns(ws, start, end, n)[k].end_ms,
    decreases n,
{
    if n > 0 {
        lemma_turns_in_window(ws, start, end, n - 1);
        let prev = turns(ws, start, end, n - 1);
        let cur = turns(ws, start, end, n);
        let w = ws[n - 1];
        assert(w.start_ms < TIME_BOUND && w.end_ms < TIME_BOUND);
        let ordered = forall|i: int| 0 <= i < n ==> (#[trigger] ws[i]).start_ms <= ws[i].end_ms;
        if ordered {
            assert(forall|i: int| 0 <= i < n - 1 ==> (#[trigger] ws[i]).start_ms <= ws[i].end_ms);
            assert(w.start_ms <= w.end_ms);
        }
        if !(w.end_ms < start || w.start_ms > end || w.speaker is None) {
            let spk = w.speaker.unwrap();
            let s = if w.start_ms >= start { w.start_ms - start } else { 0 };
            let e = if w.end_ms >= start { w.end_ms - start } else { 0 };
            if prev.len() > 0 && prev.last().speaker == spk && s <= prev.last().end_ms + 300 {
                let l = prev.last();
                let m = SpeakerSegment { end_ms: (if e > l.end_ms { e } else { l.end_ms as int }) as u64, ..l };
                assert(cur == prev.drop_last().push(m));
                assert forall|k: int| 0 <= k < cur.len() implies (#[trigger] cur[k]).start_ms <= end - start by {
                    if k < cur.len() - 1 { assert(cur[k] == prev[k]); } else { assert(cur[k].start_ms == prev[k].start_ms); }
                }
                if ordered {
                    assert forall|k: int| 0 <= k < cur.len() implies (#[trigger] cur[k]).start_ms <= cur[k].end_ms by {
                        if k < cur.len() - 1 { assert(cur[k] == prev[k]); } else { assert(prev[k].start_ms <= prev[k].end_ms); }
                    }
                }
            } else {
                let ns = SpeakerSegment { start_ms: s as u64, end_ms: e as u64, speaker: spk };
                assert(cur == prev.push(ns));
                assert forall|k: int| 0 <= k < cur.len() implies (#[trigger] cur[k]).start_ms <= end - start by {
                    if k < prev.len() { assert(cur[k] == prev[k]); }
                }
                if ordered {
                    assert forall|k: int| 0 <= k < cur.len() implies (#[trigger] cur[k]).start_ms <= cur[k].end_ms by {
                        if k < prev.len() { assert(cur[k] == prev[k]); }
                    }
                }
            }
        }
    }
}

/// Turns never need merging: two neighbouring turns are different speakers or
/// more than 300 ms apart.
pub proof fn lemma_turns_separated(ws: Seq<DeepgramWord>, start: int, end: int, n: int)
    requires
        words_bounded(ws),
        0 <= start,
        n <= ws.len(),
    ensures
        forall|k: int| 0 <= k < turns(ws, start, end, n).len() - 1 ==>
            (#[trigger] turns(ws, start, end, n)[k]).speaker != turns(ws, start, end, n)[k + 1].speaker
            || turns(ws, start, end, n)[k + 1].start_ms > turns(ws, start, end, n)[k].end_ms + 300,
    decreases n,
{
    if n > 0 {
        lemma_turns_separated(ws, start, end, n - 1);
        let prev = turns(ws, start, end, n - 1);
        let cur = turns(ws, start, end, n);
        let w = ws[n - 1];
        assert(w.start_ms < TIME_BOUND && w.end_ms < TIME_BOUND);
        if w.end_ms < start || w.start_ms > end || w.speaker is None {
            assert(cur == prev);
        } else {
            let spk = w.speaker.unwrap();
            let s = if w.start_ms >= start { w.start_ms - start } else { 0 };
            let e = if w.end_ms >= start { w.end_ms - start } else { 0 };
            if prev.len() > 0 && prev.last().speaker == spk && s <= prev.last().end_ms + 300 {
                let l = prev.last();
                let m = SpeakerSegment { end_ms: (if e > l.end_ms { e } else { l.end_ms as int }) as u64, ..l };
                assert(cur == prev.drop_last().push(m));
                assert forall|k: int| 0 <= k < cur.len() - 1 implies
                    (#[trigger] cur[k]).speaker != cur[k + 1].speaker || cur[k + 1].start_ms > cur[k].end_ms + 300 by {
                    assert(cur[k] == prev[k]);
                    if k + 1 < cur.len() - 1 {
                        assert(cur[k + 1] == prev[k + 1]);
                    } else {
                        assert(cur[k + 1].speaker == prev[k + 1].speaker);
                        assert(cur[k + 1].start_ms == prev[k + 1].start_ms);
                    }
                }
            } else {
                let ns = SpeakerSegment { start_ms: s as u64, end_ms: e as u64, speaker: spk };
                assert(cur == prev.push(ns));
                assert(ns.start_ms == s);
                assert forall|k: int| 0 <= k < cur.len() - 1 implies
                    (#[trigger] cur[k]).speaker != cur[k + 1].speaker || cur[k + 1].start_ms > cur[k].end_ms + 300 by {
                    assert(cur[k] == prev[k]);
                    if k + 1 < prev.len() {
                        assert(cur[k + 1] == prev[k + 1]);
                    } else {
                        assert(cur[k + 1] == ns);
                        assert(prev[k] == prev.last());
                    }
                }
            }
        }
    }
}

// ---------------------------------------------------------------------------
// Speakers from a diarisation
// ---------------------------------------------------------------------------

/// A diarised stretch of audio with the diariser's speaker label.
pub struct LabelledSegment {
    pub start_ms: u64,
    pub end_ms: u64,
    pub label: String,
}

/// The first segment holding a word's midpoint.
pub open spec fn holding(segs: Seq<LabelledSegment>, w: DeepgramWord, k: int) -> Option<int>
    decreases segs.len() - k,
{
    if k < 0 || k >= segs.len() {
        None
    } else if 2 * segs[k].start_ms <= w.start_ms + w.end_ms && w.start_ms + w.end_ms <= 2 * segs[k].end_ms {
        Some(k)
    } else {
        holding(segs, w, k + 1)
    }
}

/// The labels met so far, in the order they were first met; a label's speaker
/// number is its place in this list.
pub open spec fn labels_after(segs: Seq<LabelledSegment>, ws: Seq<DeepgramWord>, n: int) -> Seq<Seq<char>>
    decreases n,
{
    if n <= 0 {
        seq![]
    } else {
        let prev = labels_after(segs, ws, n - 1);
        match holding(segs, ws[n - 1], 0) {
            Some(k) => if prev.contains(segs[k].label@) { prev } else { prev.push(segs[k].label@) },
            None => prev,
        }
    }
}

/// The speaker number given to word `i`: that of the first segment holding its
/// midpoint (numbered by first appearance), or 0 when none does.
pub open spec fn speaker_of(segs: Seq<LabelledSegment>, ws: Seq<DeepgramWord>, i: int) -> int {
    match holding(segs, ws[i], 0) {
        Some(k) => first_pos(labels_after(segs, ws, i + 1), segs[k].label@),
        None => 0,
    }
}

proof fn lemma_holding_range(segs: Seq<LabelledSegment>, w: DeepgramWord, k: int)
    requires
        0 <= k,
    ensures
        holding(segs, w, k) matches Some(j) ==> k <= j < segs.len(),
    decreases segs.len() - k,
{
    if k < segs.len() {
        lemma_holding_range(segs, w, k + 1);
    }
}

fn position_of(labels: &Vec<String>, l: &str) -> (r: Option<usize>)
    ensures
        match r {
            Some(p) => p < labels.len() && labels@[p as int]@ == l@ && forall|j: int| 0 <= j < p ==> labels@[j]@ != l@,
            None => forall|j: int| 0 <= j < labels.len() ==> labels@[j]@ != l@,
        },
{
    let mut i: usize = 0;
    while i < labels.len()
        invariant
            i <= labels.len(),
            forall|j: int| 0 <= j < i ==> labels@[j]@ != l@,
        decreases labels.len() - i,
    {
        if crate::text::str_eq(labels[i].as_str(), l) {
            return Some(i);
        }
        i += 1;
    }
    None
}

/// Gives every word the speaker of the diarised segment around its midpoint
/// (the diarisation step of local transcription).
pub fn assign_speakers(words: &mut Vec<DeepgramWord>, segs: &Vec<LabelledSegment>)
    requires
        words_bounded(old(words)@),
        old(words).len() <= i32::MAX,
    ensures
        final(words).len() == old(words).len(),
        forall|i: int| 0 <= i < final(words).len() ==> {
            let w = #[trigger] final(words)@[i];
            let o = old(words)@[i];
            &&& w.word == o.word && w.start_ms == o.start_ms && w.end_ms == o.end_ms && w.punctuated_word == o.punctuated_word
            &&& w.speaker matches Some(s) && s as int == speaker_of(segs@, old(words)@, i)
        },
{
    let ghost orig = words@;
    let mut labels: Vec<String> = Vec::new();
    let mut i: usize = 0;
    while i < words.len()
        invariant
            i <= words.len() == orig.len(),
            orig.len() <= i32::MAX,
            words_bounded(orig),
            labels@.map_values(|s: String| s@) == labels_after(segs@, orig, i as int),
            labels.len() <= i,
            forall|j: int| i <= j < words.len() ==> #[trigger] words@[j] == orig[j],
            forall|j: int| 0 <= j < i ==> {
                let w = #[trigger] words@[j];
                let o = orig[j];
                &&& w.word == o.word && w.start_ms == o.start_ms && w.end_ms == o.end_ms && w.punctuated_word == o.punctuated_word
                &&& w.speaker matches Some(s) && s as int == speaker_of(segs@, orig, j)
            },
        decreases words.len() - i,
    {
        let ghost lv = labels@.map_values(|s: String| s@);
        let w = words[i].clone();
        assert(w == orig[i as int]);
        assert(w.start_ms < TIME_BOUND && w.end_ms < TIME_BOUND);
        let sum: u128 = w.start_ms as u128 + w.end_ms as u128;
        let mut k: usize = 0;
        while k < segs.len() && !(2 * (segs[k].start_ms as u128) <= sum && sum <= 2 * (segs[k].end_ms as u128))
            invariant
                k <= segs.len(),
                sum == w.start_ms + w.end_ms,
                holding(segs@, w, 0) == holding(segs@, w, k as int),
            decreases segs.len() - k,
        {
            k += 1;
        }
        let found: Option<usize> = if k < segs.len() { Some(k) } else { None };
        proof {
            lemma_holding_range(segs@, w, 0);
        }
        let spk: i32 = match found {
            Some(k) => {
                assert(holding(segs@, w, 0) == Some(k as int));
                let label = segs[k].label.as_str();
                match position_of(&labels, label) {
                    Some(p) => {
                        proof {
                            assert(lv[p as int] == label@);
                            assert(lv.contains(label@));
                            assert(labels_after(segs@, orig, i + 1) == lv);
                            assert forall|j: int| 0 <= j < p implies lv[j] != label@ by {
                                assert(lv[j] == labels@[j]@);
                            }
                            lemma_index_of_first(lv, label@, p as int);
                        }
                        p as i32
                    }
                    None => {
                        let p = labels.len();
                        labels.push(owned(label));
                        proof {
                            assert(!lv.contains(label@)) by {
                                if lv.contains(label@) {
                                    let j = choose|j: int| 0 <= j < lv.len() && lv[j] == label@;
                                    assert(labels@[j]@ == lv[j]);
                                }
                            }
                            assert(labels@.map_values(|s: String| s@) =~= lv.push(label@));
                            assert(labels_after(segs@, orig, i + 1) == lv.push(label@));
                            assert forall|j: int| 0 <= j < p implies lv.push(label@)[j] != label@ by {
                                assert(lv.push(label@)[j] == lv[j]);
                            }
                            lemma_index_of_first(lv.push(label@), label@, p as int);
                        }
                        p as i32
                    }
                }
            }
            None => {
                assert(holding(segs@, w, 0) is None) by {
                    assert(holding(segs@, w, segs.len() as int) is None);
                }
                0
            }
        };
        let mut nw = w;
        nw.speaker = Some(spk);
        words.set(i, nw);
        i += 1;
    }
}

/// Where `x` first occurs in `s`, or -1.
pub open spec fn first_pos(s: Seq<Seq<char>>, x: Seq<char>) -> int
    decreases s.len(),
{
    if s.len() == 0 {
        -1
    } else if s[0] == x {
        0
    } else {
        let r = first_pos(s.drop_first(), x);
        if r < 0 { -1 } else { r + 1 }
    }
}

proof fn lemma_index_of_first(s: Seq<Seq<char>>, x: Seq<char>, p: int)
    requires
        0 <= p < s.len(),
        s[p] == x,
        forall|j: int| 0 <= j < p ==> s[j] != x,
    ensures
        first_pos(s, x) == p,
    decreases p,
{
    if p > 0 {
        lemma_index_of_first(s.drop_first(), x, p - 1);
    }
}

// ---------------------------------------------------------------------------
// Raw audio
// ---------------------------------------------------------------------------

/// A little-endian signed 16-bit sample from two bytes.
pub open spec fn sample_le(lo: u8, hi: u8) -> i16 {
    (lo as int + 256 * hi as int) as i16
}

/// Decodes 16-bit little-endian PCM; a trailing odd byte is ignored.
pub fn decode_s16le(bytes: &Vec<u8>) -> (r: Vec<i16>)
    ensures
        r.len() == bytes.len() / 2,
        forall|i: int| 0 <= i < r.len() ==> #[trigger] r[i] == sample_le(bytes[2 * i], bytes[2 * i + 1]),
{
    let n = bytes.len() / 2;
    let mut r: Vec<i16> = Vec::new();
    let mut i: usize = 0;
    while i < n
        invariant
            i <= n == bytes.len() / 2,
            r.len() == i,
            forall|j: int| 0 <= j < i ==> #[trigger] r[j] == sample_le(bytes[2 * j], bytes[2 * j + 1]),
        decreases n - i,
    {
        let lo = bytes[2 * i];
        let hi = bytes[2 * i + 1];
        let v: u16 = lo as u16 + (hi as u16) * 256;
        r.push(v as i16);
        i += 1;
    }
    r
}

// ---------------------------------------------------------------------------
// Local speech-to-text engines
// ---------------------------------------------------------------------------

/// The engine a transcription runs on, by provider name (any case):
/// Vosk, Whisper, or Deepgram for anything else.
#[derive(PartialEq, Eq, Structural, Clone, Copy, Debug)]
pub enum SttEngine {
    Vosk,
    Whisper,
    Deepgram,
}

pub open spec fn stt_engine_of(provider: Seq<char>) -> SttEngine {
    let p = crate::text::lowercase(provider);
    if p == "vosk"@ { SttEngine::Vosk } else if p == "whisper"@ { SttEngine::Whisper } else { SttEngine::Deepgram }
}

pub fn stt_engine(provider: &str) -> (r: SttEngine)
    ensures
        r == stt_engine_of(provider@),
{
    let p = crate::text::to_lower(provider);
    if crate::text::str_eq(p.as_str(), "vosk") {
        SttEngine::Vosk
    } else if crate::text::str_eq(p.as_str(), "whisper") {
        SttEngine::Whisper
    } else {
        SttEngine::Deepgram
    }
}

/// One segment of a local recognizer's output: its text and its start and
/// end in hundredths of a second.
pub struct RecognizedSegment {
    pub text: String,
    pub t0_cs: u64,
    pub t1_cs: u64,
}

pub open spec fn segment_word(g: RecognizedSegment) -> (Seq<char>, u64, u64, Seq<char>) {
    (crate::text::lowercase(trim(g.text@)), (g.t0_cs * 10) as u64, (g.t1_cs * 10) as u64, trim(g.text@))
}

/// The words of the segments that hold more than blanks, in order: each the
/// segment's trimmed text in lower case (shown as trimmed), timed in
/// milliseconds.
pub open spec fn segment_words(gs: Seq<RecognizedSegment>) -> Seq<(Seq<char>, u64, u64, Seq<char>)>
    decreases gs.len(),
{
    if gs.len() == 0 {
        seq![]
    } else {
        segment_words(gs.drop_last()) + (if trim(gs.last().text@).len() > 0 { seq![segment_word(gs.last())] } else { seq![] })
    }
}

/// The spoken texts of those segments joined by single spaces.
pub open spec fn segment_text(gs: Seq<RecognizedSegment>) -> Seq<char> {
    join_space(segment_words(gs).map_values(|w: (Seq<char>, u64, u64, Seq<char>)| w.3))
}

pub open spec fn words_of_view(v: Seq<DeepgramWord>) -> Seq<(Seq<char>, u64, u64, Seq<char>)> {
    v.map_values(|w: DeepgramWord| (w.word@, w.start_ms, w.end_ms, match w.punctuated_word { Some(p) => p@, None => seq![] }))
}

/// Words and full text of a local recognizer's segments; blank segments are
/// skipped.
pub fn recognized_words(segs: &Vec<RecognizedSegment>) -> (r: (Vec<DeepgramWord>, String))
    requires
        forall|i: int| 0 <= i < segs.len() ==> (#[trigger] segs[i]).t0_cs <= u64::MAX / 10 && segs[i].t1_cs <= u64::MAX / 10,
    ensures
        words_of_view(r.0@) == segment_words(segs@),
        forall|i: int| 0 <= i < r.0.len() ==> (#[trigger] r.0[i]).punctuated_word is Some && r.0[i].speaker is None,
        r.1@ == segment_text(segs@),
{
    let mut words: Vec<DeepgramWord> = Vec::new();
    let mut texts: Vec<String> = Vec::new();
    let mut i: usize = 0;
    while i < segs.len()
        invariant
            i <= segs.len(),
            forall|k: int| 0 <= k < segs.len() ==> (#[trigger] segs[k]).t0_cs <= u64::MAX / 10 && segs[k].t1_cs <= u64::MAX / 10,
            words_of_view(words@) == segment_words(segs@.take(i as int)),
            texts@.map_values(|s: String| s@) == segment_words(segs@.take(i as int)).map_values(|w: (Seq<char>, u64, u64, Seq<char>)| w.3),
            forall|k: int| 0 <= k < words.len() ==> (#[trigger] words@[k]).punctuated_word is Some && words@[k].speaker is None,
        decreases segs.len() - i,
    {
        let g = &segs[i];
        assert(segs@.take(i + 1).drop_last() =~= segs@.take(i as int));
        assert(segs@.take(i + 1).last() == segs@[i as int]);
        let t = crate::text::str_trim(g.text.as_str());
        if !t.as_str().is_empty() {
            let low = crate::text::to_lower(t.as_str());
            let ghost pw = words@;
            let ghost pt = texts@;
            let w = DeepgramWord { word: low, start_ms: g.t0_cs * 10, end_ms: g.t1_cs * 10, punctuated_word: Some(t.clone()), speaker: None };
            words.push(w);
            texts.push(t);
            proof {
                assert(words_of_view(words@) =~= words_of_view(pw).push(segment_word(segs@[i as int])));
                assert(texts@.map_values(|s: String| s@) =~= pt.map_values(|s: String| s@).push(trim(segs@[i as int].text@)));
                assert forall|k: int| 0 <= k < words.len() implies (#[trigger] words@[k]).punctuated_word is Some && words@[k].speaker is None by {
                    if k < pw.len() {
                        assert(words@[k] == pw[k]);
                    }
                }
            }
        } else {
            proof {
                assert(segment_words(segs@.take(i + 1)) =~= segment_words(segs@.take(i as int)));
            }
        }
        i += 1;
    }
    assert(segs@.take(segs.len() as int) =~= segs@);
    let full = join_with_spaces(&texts);
    (words, full)
}

fn join_with_spaces(parts: &Vec<String>) -> (r: String)
    ensures
        r@ == join_space(parts@.map_values(|s: String| s@)),
{
    let ghost pv = parts@.map_values(|s: String| s@);
    let mut out = String::new();
    let mut i: usize = 0;
    while i < parts.len()
        invariant
            i <= parts.len(),
            pv == parts@.map_values(|s: String| s@),
            out@ == join_space(pv.take(i as int)),
        decreases parts.len() - i,
    {
        if i > 0 {
            push_str(&mut out, " ");
        }
        push_str(&mut out, parts[i].as_str());
        proof {
            assert(pv.take(i + 1).drop_last() =~= pv.take(i as int));
            assert(pv[i as int] == parts@[i as int]@);
            if i == 0 {
                reveal_strlit("");
                assert(out@ =~= pv.take(1)[0]);
            }
        }
        i += 1;
    }
    assert(pv.take(i as int) =~= pv);
    out
}

} // verus!
