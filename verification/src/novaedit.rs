//! The agentic editor: shots of footage, the edit plan a director model
//! proposes, and the rules that make a proposed plan renderable.
//!
//! Times are milliseconds; trims are offsets from the start of their shot.
use vstd::prelude::*;
use crate::text::{chars_of, string_of, owned, push_str, str_eq, str_trim, trim, trim_chars, is_digit, digit_value, decimal, padded,
    digit_char, digits_value, all_digits, is_ws, trim_start, trim_end, index_of_char, lemma_index_of_char, lemma_digit_char,
    lemma_decimal_digits, lemma_decimal_len, pow10_nat, starts_with, ends_with, contains, str_contains, str_replace, replace_all, lowercase, to_lower};
use crate::caption::{DeepgramWord, push_nat, push_pad, push_int, int_decimal, shown_text, word_text};
use crate::render::{views, push_arg, secs3, push_secs3, filter_path, filter_path_string};

verus! {

// ---------------------------------------------------------------------------
// The brief
// ---------------------------------------------------------------------------

/// What the user wants from the edit.
pub struct NovaEditBrief {
    pub product: String,
    pub audience: String,
    pub tone: String,
    pub duration_seconds: i32,
    pub content_type: String,
    pub instruction: String,
    pub style_ref: Option<String>,
}

/// Keys the user may supply for the language models and transcription.
pub struct NovaEditApiKeys {
    pub gemini_key: Option<String>,
    pub openrouter_key: Option<String>,
    pub deepgram_key: Option<String>,
}

/// The cut length aimed at: the brief's, but at least five seconds.
pub open spec fn target_secs(brief_secs: int) -> int {
    if brief_secs < 5 { 5 } else { brief_secs }
}

/// Long-form edits follow other rules: asked for as `long_form`, or aimed at
/// more than two minutes.
pub open spec fn long_form(content_type: Seq<char>, brief_secs: int) -> bool {
    content_type == "long_form"@ || target_secs(brief_secs) > 120
}

pub fn is_long_form(brief: &NovaEditBrief) -> (r: bool)
    ensures
        r == long_form(brief.content_type@, brief.duration_seconds as int),
{
    let target = if brief.duration_seconds < 5 { 5 } else { brief.duration_seconds };
    str_eq(brief.content_type.as_str(), "long_form") || target > 120
}

// ---------------------------------------------------------------------------
// Shots and their ids
// ---------------------------------------------------------------------------

/// A stretch of one source file between two scene cuts.
pub struct NovaShot {
    /// The source file's name without directory or extension.
    pub stem: String,
    pub start_ms: u64,
    pub end_ms: u64,
    pub transcript: String,
    pub words: Vec<DeepgramWord>,
    pub roll_type: String,
    pub visual_description: String,
    /// The visual quality score in hundredths.
    pub visual_quality_cs: u64,
    pub shot_type: String,
}

/// Seconds with two decimals, rounded to the nearest hundredth.
pub open spec fn secs2(ms: nat) -> Seq<char> {
    let cs = (ms + 5) / 10;
    decimal(cs / 100) + "."@ + padded(cs % 100, 2)
}

pub fn push_secs2(out: &mut String, ms: u64)
    requires
        ms < u64::MAX - 5,
    ensures
        final(out)@ == old(out)@ + secs2(ms as nat),
{
    let ghost o = out@;
    let cs = (ms + 5) / 10;
    push_nat(out, cs / 100);
    push_str(out, ".");
    push_pad(out, cs % 100, 2);
    assert(out@ =~= o + secs2(ms as nat));
}

/// A shot's id: its source stem, `#`, and its start in seconds with two
/// decimals.
pub open spec fn shot_id_of(stem: Seq<char>, start_ms: nat) -> Seq<char> {
    stem + "#"@ + secs2(start_ms)
}

pub fn shot_id(stem: &str, start_ms: u64) -> (r: String)
    requires
        start_ms < u64::MAX - 5,
    ensures
        r@ == shot_id_of(stem@, start_ms as nat),
{
    let mut out = owned(stem);
    push_str(&mut out, "#");
    push_secs2(&mut out, start_ms);
    out
}

/// Position of the last `c` in `s`, or -1.
pub open spec fn last_index_of(s: Seq<char>, c: char) -> int
    decreases s.len(),
{
    if s.len() == 0 {
        -1
    } else if s.last() == c {
        s.len() - 1
    } else {
        last_index_of(s.drop_last(), c)
    }
}

proof fn lemma_last_index_of(s: Seq<char>, c: char, k: int)
    requires
        -1 <= k < s.len(),
        forall|j: int| k < j < s.len() ==> s[j] != c,
        k == -1 || s[k] == c,
    ensures
        last_index_of(s, c) == k,
    decreases s.len(),
{
    if s.len() > 0 && k < s.len() - 1 {
        lemma_last_index_of(s.drop_last(), c, k);
    }
}

/// A decimal number of seconds, `[+]digits[.digits]` with at least one digit,
/// as a fraction `num / 10^scale`; at most 9 decimals and 27 digits in all
/// are read.
pub struct SecondsValue {
    pub num: u128,
    pub scale: u32,
}

pub open spec fn pow10(k: nat) -> nat
    decreases k,
{
    if k == 0 { 1 } else { 10 * pow10((k - 1) as nat) }
}

/// The digits of `s` read as one decimal number.
pub open spec fn digits_num(s: Seq<char>) -> nat
    decreases s.len(),
{
    if s.len() == 0 { 0 } else { digits_num(s.drop_last()) * 10 + digit_value(s.last()) }
}

pub open spec fn all_digit(s: Seq<char>) -> bool {
    forall|i: int| 0 <= i < s.len() ==> is_digit(#[trigger] s[i])
}

/// The reading of a seconds field, as described at [`SecondsValue`].
pub open spec fn seconds_value(text: Seq<char>) -> Option<(nat, nat)> {
    let t = if text.len() > 0 && text[0] == '+' { text.drop_first() } else { text };
    let dot = crate::text::index_of_char(t, '.');
    let int_part = if dot < 0 { t } else { t.take(dot) };
    let frac = if dot < 0 { Seq::<char>::empty() } else { t.skip(dot + 1) };
    if all_digit(int_part) && all_digit(frac) && int_part.len() + frac.len() >= 1
        && frac.len() <= 9 && int_part.len() + frac.len() <= 27 {
        Some((digits_num(int_part + frac), frac.len()))
    } else {
        None
    }
}

proof fn lemma_digits_num_bound(s: Seq<char>)
    requires
        all_digit(s),
    ensures
        digits_num(s) < pow10(s.len()),
    decreases s.len(),
{
    if s.len() > 0 {
        lemma_digits_num_bound(s.drop_last());
        assert(is_digit(s[s.len() - 1]));
    }
}

proof fn lemma_pow10_mono(a: nat, b: nat)
    requires
        a <= b,
    ensures
        pow10(a) <= pow10(b),
    decreases b,
{
    if a < b {
        lemma_pow10_mono(a, (b - 1) as nat);
    }
}

proof fn lemma_pow10_27()
    ensures
        pow10(27) == 1_000_000_000_000_000_000_000_000_000nat,
        pow10(9) == 1_000_000_000nat,
{
    reveal_with_fuel(pow10, 28);
}

fn digit_of(c: char) -> (d: u128)
    requires
        is_digit(c),
    ensures
        d == digit_value(c),
{
    if c == '0' { 0 } else if c == '1' { 1 } else if c == '2' { 2 } else if c == '3' { 3 } else if c == '4' { 4 }
    else if c == '5' { 5 } else if c == '6' { 6 } else if c == '7' { 7 } else if c == '8' { 8 } else { 9 }
}

fn is_digit_char(c: char) -> (b: bool)
    ensures
        b == is_digit(c),
{
    '0' <= c && c <= '9'
}

/// Reads a seconds field.
pub fn parse_seconds(text: &Vec<char>) -> (r: Option<SecondsValue>)
    ensures
        match r {
            Some(v) => seconds_value(text@) == Some((v.num as nat, v.scale as nat)),
            None => seconds_value(text@) is None,
        },
{
    let ghost t = if text@.len() > 0 && text@[0] == '+' { text@.drop_first() } else { text@ };
    let start: usize = if text.len() > 0 && text[0] == '+' { 1 } else { 0 };
    assert(t =~= text@.skip(start as int));
    // find the dot
    let mut dot: usize = start;
    while dot < text.len() && text[dot] != '.'
        invariant
            start <= dot <= text.len(),
            t == text@.skip(start as int),
            forall|j: int| start <= j < dot ==> text@[j] != '.',
        decreases text.len() - dot,
    {
        dot += 1;
    }
    proof {
        crate::text::lemma_index_of_char(t, '.', (dot - start) as int);
    }
    let has_dot = dot < text.len();
    let frac_start: usize = if has_dot { dot + 1 } else { text.len() };
    let ghost int_part = text@.subrange(start as int, dot as int);
    let ghost frac = text@.subrange(frac_start as int, text.len() as int);
    assert(int_part =~= (if has_dot { t.take((dot - start) as int) } else { t }));
    assert(frac =~= (if has_dot { t.skip((dot - start) as int + 1) } else { Seq::<char>::empty() }));
    let int_len = dot - start;
    let frac_len = text.len() - frac_start;
    assert(seconds_value(text@) == (if all_digit(int_part) && all_digit(frac) && int_part.len() + frac.len() >= 1
        && frac.len() <= 9 && int_part.len() + frac.len() <= 27 { Some((digits_num(int_part + frac), frac.len())) } else { None }));
    if int_len + frac_len == 0 || frac_len > 9 || int_len > 27 || int_len + frac_len > 27 {
        return None;
    }
    let mut num: u128 = 0;
    let mut i: usize = start;
    while i < dot
        invariant
            start <= i <= dot <= text.len(),
            int_len == dot - start,
            int_len <= 27,
            forall|j: int| start <= j < i ==> is_digit(#[trigger] text@[j]),
            num == digits_num(text@.subrange(start as int, i as int)),
            num < pow10((i - start) as nat),
            int_part == text@.subrange(start as int, dot as int),
            seconds_value(text@) == (if all_digit(int_part) && all_digit(frac) && int_part.len() + frac.len() >= 1
                && frac.len() <= 9 && int_part.len() + frac.len() <= 27 { Some((digits_num(int_part + frac), frac.len())) } else { None }),
        decreases dot - i,
    {
        if !is_digit_char(text[i]) {
            proof {
                assert(int_part[i - start] == text@[i as int]);
            }
            return None;
        }
        proof {
            assert(text@.subrange(start as int, i + 1).drop_last() =~= text@.subrange(start as int, i as int));
            lemma_pow10_mono((i + 1 - start) as nat, 27);
            lemma_pow10_27();
        }
        num = num * 10 + digit_of(text[i]);
        i += 1;
    }
    assert(all_digit(int_part)) by {
        assert forall|j: int| 0 <= j < int_part.len() implies is_digit(#[trigger] int_part[j]) by {
            assert(int_part[j] == text@[start + j]);
        }
    }
    assert(int_part =~= text@.subrange(start as int, i as int));
    let mut k: usize = frac_start;
    while k < text.len()
        invariant
            frac_start <= k <= text.len(),
            frac_start == text.len() || (has_dot && frac_start == dot + 1),
            int_len + frac_len <= 27,
            frac_len == text.len() - frac_start,
            int_len == dot - start,
            start <= dot <= text.len(),
            forall|j: int| frac_start <= j < k ==> is_digit(#[trigger] text@[j]),
            num == digits_num(int_part + text@.subrange(frac_start as int, k as int)),
            num < pow10((int_len + k - frac_start) as nat),
            int_part == text@.subrange(start as int, dot as int),
            frac == text@.subrange(frac_start as int, text.len() as int),
            all_digit(int_part),
            seconds_value(text@) == (if all_digit(int_part) && all_digit(frac) && int_part.len() + frac.len() >= 1
                && frac.len() <= 9 && int_part.len() + frac.len() <= 27 { Some((digits_num(int_part + frac), frac.len())) } else { None }),
        decreases text.len() - k,
    {
        if !is_digit_char(text[k]) {
            proof {
                assert(frac[k - frac_start] == text@[k as int]);
            }
            return None;
        }
        proof {
            assert((int_part + text@.subrange(frac_start as int, k + 1)).drop_last() =~= int_part + text@.subrange(frac_start as int, k as int));
            lemma_pow10_mono((int_len + k + 1 - frac_start) as nat, 27);
            lemma_pow10_27();
        }
        num = num * 10 + digit_of(text[k]);
        k += 1;
    }
    proof {
        assert(text@.subrange(frac_start as int, text.len() as int) =~= frac);
        assert(all_digit(frac));
    }
    Some(SecondsValue { num, scale: frac_len as u32 })
}

/// Whether a time read from an id names a shot's start: it lies within a
/// millisecond of the start, or it is the start as an id prints it (rounded
/// to hundredths of a second).
pub open spec fn near_start(start_ms: nat, num: nat, scale: nat) -> bool {
    let lhs = start_ms * pow10(scale);
    let rhs = 1000 * num;
    let diff = if lhs >= rhs { lhs - rhs } else { rhs - lhs };
    diff < pow10(scale) || ((start_ms + 5) / 10) * 10 * pow10(scale) == rhs
}

fn pow10_exec(k: u32) -> (r: u128)
    requires
        k <= 9,
    ensures
        r == pow10(k as nat),
        r <= 1_000_000_000,
{
    let mut r: u128 = 1;
    let mut i: u32 = 0;
    while i < k
        invariant
            i <= k <= 9,
            r == pow10(i as nat),
            r <= pow10(i as nat),
        decreases k - i,
    {
        proof {
            lemma_pow10_mono((i + 1) as nat, 9);
            lemma_pow10_27();
        }
        r = r * 10;
        i += 1;
    }
    proof {
        lemma_pow10_mono(k as nat, 9);
        lemma_pow10_27();
    }
    r
}

fn near_start_exec(start_ms: u64, v: &SecondsValue) -> (b: bool)
    requires
        v.scale <= 9,
        v.num < 1_000_000_000_000_000_000_000_000_000,
    ensures
        b == near_start(start_ms as nat, v.num as nat, v.scale as nat),
{
    let p = pow10_exec(v.scale);
    assert(start_ms as int * p as int <= 0xffff_ffff_ffff_ffff * 1_000_000_000) by (nonlinear_arith)
        requires
            start_ms <= 0xffff_ffff_ffff_ffffu64,
            p <= 1_000_000_000,
    ;
    let lhs: u128 = start_ms as u128 * p;
    let rhs: u128 = 1000 * v.num;
    let diff: u128 = if lhs >= rhs { lhs - rhs } else { rhs - lhs };
    let printed: u128 = (start_ms as u128 + 5) / 10 * 10;
    assert(printed as int * p as int <= 0x1_0000_0000_0000_0005 * 1_000_000_000) by (nonlinear_arith)
        requires
            printed <= 0x1_0000_0000_0000_0005u128,
            p <= 1_000_000_000,
    ;
    diff < p || printed * p == rhs
}

/// The shot an id names: the first shot with the id's stem whose start the
/// id's time names. The id is split at its last `#`, and
/// the time is trimmed before it is read.
pub open spec fn resolves_to(shots: Seq<NovaShot>, sid: Seq<char>) -> Option<int> {
    let pos = last_index_of(sid, '#');
    if pos < 0 {
        None
    } else {
        let stem = sid.take(pos);
        match seconds_value(trim(sid.skip(pos + 1))) {
            None => None,
            Some((num, scale)) => first_match(shots, stem, num, scale, 0),
        }
    }
}

/// The first shot from index `i` on that has the stem and starts at the time.
pub open spec fn first_match(shots: Seq<NovaShot>, stem: Seq<char>, num: nat, scale: nat, i: int) -> Option<int>
    decreases shots.len() - i,
{
    if i < 0 || i >= shots.len() {
        None
    } else if shots[i].stem@ == stem && near_start(shots[i].start_ms as nat, num, scale) {
        Some(i)
    } else {
        first_match(shots, stem, num, scale, i + 1)
    }
}

proof fn lemma_first_match_range(shots: Seq<NovaShot>, stem: Seq<char>, num: nat, scale: nat, i: int)
    requires
        0 <= i,
    ensures
        first_match(shots, stem, num, scale, i) matches Some(k) ==> i <= k < shots.len(),
    decreases shots.len() - i,
{
    if i < shots.len() {
        lemma_first_match_range(shots, stem, num, scale, i + 1);
    }
}

proof fn lemma_resolves_range(shots: Seq<NovaShot>, sid: Seq<char>)
    ensures
        resolves_to(shots, sid) matches Some(k) ==> 0 <= k < shots.len(),
{
    let pos = last_index_of(sid, '#');
    if pos >= 0 {
        if let Some((num, scale)) = seconds_value(trim(sid.skip(pos + 1))) {
            lemma_first_match_range(shots, sid.take(pos), num, scale, 0);
        }
    }
}

proof fn lemma_digits_num_value(s: Seq<char>)
    ensures
        digits_num(s) == digits_value(s),
    decreases s.len(),
{
    if s.len() > 0 {
        lemma_digits_num_value(s.drop_last());
    }
}

proof fn lemma_digits_num_concat(a: Seq<char>, b: Seq<char>)
    ensures
        digits_num(a + b) == digits_num(a) * pow10(b.len()) + digits_num(b),
    decreases b.len(),
{
    if b.len() == 0 {
        assert(a + b =~= a);
        assert(pow10(0) == 1);
        assert(digits_num(b) == 0);
    } else {
        let b1 = b.drop_last();
        lemma_digits_num_concat(a, b1);
        assert((a + b).drop_last() =~= a + b1);
        assert((a + b).last() == b.last());
        assert(pow10(b.len()) == 10 * pow10(b1.len()));
        let x = digits_num(a);
        let p1 = pow10(b1.len());
        let y = digits_num(b1);
        let d = digit_value(b.last());
        assert((x * p1 + y) * 10 + d == x * (10 * p1) + (y * 10 + d)) by (nonlinear_arith);
    }
}

/// How an id prints a start: its seconds with two decimals, read back.
proof fn lemma_secs2_reads_back(ms: nat)
    requires
        ms < 0x4000_0000_0000_0000,
    ensures
        seconds_value(trim(secs2(ms))) == Some((((ms + 5) / 10) as nat, 2nat)),
        forall|i: int| 0 <= i < secs2(ms).len() ==> secs2(ms)[i] != '#',
{
    let cs: nat = ((ms + 5) / 10) as nat;
    let q: nat = cs / 100;
    let r: nat = cs % 100;
    let dq = decimal(q);
    lemma_decimal_digits(q);
    lemma_digits_num_value(dq);
    assert(pow10_nat(16) == 10_000_000_000_000_000) by {
        reveal_with_fuel(pow10_nat, 17);
    }
    lemma_decimal_len(q, 16, pow10_nat(16));
    lemma_digit_char(r / 10);
    lemma_digit_char(r % 10);
    let pd = seq![digit_char(r / 10), digit_char(r % 10)];
    assert(padded(r, 2) == pd) by {
        reveal_with_fuel(decimal, 2);
        if r < 10 {
            lemma_digit_char(r);
            assert(decimal(r) == seq![digit_char(r)]);
            assert(r / 10 == 0 && r % 10 == r);
            assert(digit_char(0) == '0');
            assert(padded(r, 2) =~= pd);
        } else {
            assert(decimal(r / 10) == seq![digit_char(r / 10)]);
            assert(padded(r, 2) =~= pd);
        }
    }
    reveal_strlit(".");
    let st = dq + "."@ + pd;
    assert(secs2(ms) == st);
    assert forall|i: int| 0 <= i < st.len() implies st[i] != '#' && st[i] != '.' || i == dq.len() by {
        if i < dq.len() {
            assert(is_digit(dq[i]));
        }
    }
    assert forall|i: int| 0 <= i < dq.len() implies st[i] != '.' by {
        assert(st[i] == dq[i]);
        assert(is_digit(dq[i]));
    }
    lemma_index_of_char(st, '.', dq.len() as int);
    assert(is_digit(st[0]));
    assert(!is_ws(st[0]));
    assert(!is_ws(st.last()));
    assert(trim_start(st) == st);
    assert(trim_end(st) == st);
    assert(trim(st) == st);
    assert(st.take(dq.len() as int) =~= dq);
    assert(st.skip(dq.len() as int + 1) =~= pd);
    assert(all_digit(dq)) by {
        assert forall|i: int| 0 <= i < dq.len() implies is_digit(#[trigger] dq[i]) by {}
    }
    assert(all_digit(pd));
    lemma_digits_num_concat(dq, pd);
    assert(pow10(2) == 100) by {
        reveal_with_fuel(pow10, 3);
    }
    assert(pd.drop_last() =~= seq![digit_char(r / 10)]);
    assert(seq![digit_char(r / 10)].drop_last() =~= Seq::<char>::empty());
    assert(digits_num(Seq::<char>::empty()) == 0);
    assert(digits_num(seq![digit_char(r / 10)]) == r / 10);
    assert(digits_num(pd) == (r / 10) * 10 + r % 10);
    assert(q * 100 + r == cs);
}

proof fn lemma_first_match_at(shots: Seq<NovaShot>, stem: Seq<char>, num: nat, scale: nat, i: int, k: int)
    requires
        0 <= i <= k < shots.len(),
        forall|j: int| i <= j < k ==> !(shots[j].stem@ == stem && near_start(shots[j].start_ms as nat, num, scale)),
        shots[k].stem@ == stem && near_start(shots[k].start_ms as nat, num, scale),
    ensures
        first_match(shots, stem, num, scale, i) == Some(k),
    decreases k - i,
{
    if i < k {
        lemma_first_match_at(shots, stem, num, scale, i + 1, k);
    }
}

/// An id printed for a shot, copied verbatim, names that shot back: the
/// lookup finds it unless an earlier shot with the same stem has a start that
/// prints the same (to the hundredth of a second).
pub proof fn lemma_printed_id_resolves(shots: Seq<NovaShot>, k: int)
    requires
        0 <= k < shots.len(),
        shots[k].start_ms < 0x4000_0000_0000_0000,
        forall|j: int| 0 <= j < k && shots[j].stem@ == shots[k].stem@ ==>
            (shots[j].start_ms + 5) / 10 != (shots[k].start_ms + 5) / 10,
    ensures
        resolves_to(shots, shot_id_of(shots[k].stem@, shots[k].start_ms as nat)) == Some(k),
{
    let stem = shots[k].stem@;
    let ms = shots[k].start_ms as nat;
    let cs: nat = ((ms + 5) / 10) as nat;
    let sid = shot_id_of(stem, ms);
    reveal_strlit("#");
    lemma_secs2_reads_back(ms);
    let t = secs2(ms);
    assert(sid == stem + seq!['#'] + t);
    lemma_last_index_of(sid, '#', stem.len() as int);
    assert(sid.take(stem.len() as int) =~= stem);
    assert(sid.skip(stem.len() as int + 1) =~= t);
    assert(pow10(2) == 100) by {
        reveal_with_fuel(pow10, 3);
    }
    assert(near_start(ms, cs, 2));
    assert forall|j: int| 0 <= j < k implies !(shots[j].stem@ == stem && near_start(#[trigger] shots[j].start_ms as nat, cs, 2)) by {
        if shots[j].stem@ == stem {
            let sj = shots[j].start_ms as nat;
            if near_start(sj, cs, 2) {
                if (sj + 5) / 10 * 10 * 100 != 1000 * cs {
                    let lhs = sj * 100;
                    let rhs = 1000 * cs;
                    assert(sj * 100 < rhs + 100 && rhs < sj * 100 + 100);
                    assert(sj == 10 * cs);
                }
            }
        }
    }
    lemma_first_match_at(shots, stem, cs, 2, 0, k);
}

/// Finds the shot an id names, by index.
pub fn resolve_shot(shots: &Vec<NovaShot>, sid: &str) -> (r: Option<usize>)
    ensures
        match r {
            Some(k) => resolves_to(shots@, sid@) == Some(k as int) && k < shots.len(),
            None => resolves_to(shots@, sid@) is None,
        },
{
    let cs = chars_of(sid);
    let mut pos: usize = cs.len();
    while pos > 0 && cs[pos - 1] != '#'
        invariant
            pos <= cs.len(),
            forall|j: int| pos <= j < cs.len() ==> cs@[j] != '#',
        decreases pos,
    {
        pos -= 1;
    }
    if pos == 0 {
        proof {
            lemma_last_index_of(cs@, '#', -1);
        }
        return None;
    }
    let hash = pos - 1;
    proof {
        lemma_last_index_of(cs@, '#', hash as int);
    }
    let mut stem_v: Vec<char> = Vec::new();
    let mut i: usize = 0;
    while i < hash
        invariant
            i <= hash < cs.len(),
            stem_v@ == cs@.take(i as int),
        decreases hash - i,
    {
        stem_v.push(cs[i]);
        i += 1;
        assert(cs@.take(i as int) =~= cs@.take(i - 1).push(cs@[i - 1]));
    }
    let mut rest: Vec<char> = Vec::new();
    let mut j: usize = hash + 1;
    while j < cs.len()
        invariant
            hash + 1 <= j <= cs.len(),
            rest@ == cs@.subrange(hash + 1, j as int),
        decreases cs.len() - j,
    {
        rest.push(cs[j]);
        j += 1;
        assert(cs@.subrange(hash + 1, j as int) =~= cs@.subrange(hash + 1, j - 1).push(cs@[j - 1]));
    }
    assert(rest@ =~= cs@.skip(hash + 1));
    let time_text = trim_chars(&rest);
    let v = match parse_seconds(&time_text) {
        Some(v) => v,
        None => return None,
    };
    proof {
        lemma_pow10_27();
        let t = time_text@;
        let tt = if t.len() > 0 && t[0] == '+' { t.drop_first() } else { t };
        let dot = crate::text::index_of_char(tt, '.');
        let int_part = if dot < 0 { tt } else { tt.take(dot) };
        let frac = if dot < 0 { Seq::<char>::empty() } else { tt.skip(dot + 1) };
        lemma_digits_num_bound(int_part + frac);
        lemma_pow10_mono((int_part + frac).len(), 27);
    }
    let stem = string_of(&stem_v);
    let mut k: usize = 0;
    while k < shots.len()
        invariant
            k <= shots.len(),
            v.scale <= 9,
            v.num < 1_000_000_000_000_000_000_000_000_000,
            first_match(shots@, stem@, v.num as nat, v.scale as nat, 0) == first_match(shots@, stem@, v.num as nat, v.scale as nat, k as int),
            cs@ == sid@,
            hash < cs.len(),
            stem@ == cs@.take(hash as int),
            time_text@ == trim(cs@.skip(hash + 1)),
            last_index_of(sid@, '#') == hash as int,
            seconds_value(time_text@) == Some((v.num as nat, v.scale as nat)),
        decreases shots.len() - k,
    {
        if str_eq(shots[k].stem.as_str(), stem.as_str()) && near_start_exec(shots[k].start_ms, &v) {
            assert(first_match(shots@, stem@, v.num as nat, v.scale as nat, k as int) == Some(k as int));
            assert(stem@ =~= sid@.take(hash as int));
            assert(time_text@ == trim(sid@.skip(hash + 1)));
            return Some(k);
        }
        k += 1;
    }
    assert(stem@ =~= sid@.take(hash as int));
    assert(time_text@ == trim(sid@.skip(hash + 1)));
    None
}

// ---------------------------------------------------------------------------
// Snapping cuts to word boundaries
// ---------------------------------------------------------------------------

/// The distance between two times.
pub open spec fn dist(a: int, b: int) -> int {
    if a >= b { a - b } else { b - a }
}

/// Among the first `n` word starts (or ends), measured from `origin`, the
/// first one nearest to `t`, with its distance.
pub open spec fn nearest(ws: Seq<DeepgramWord>, t: int, n: int, use_end: bool, origin: int) -> Option<(int, int)>
    decreases n,
{
    if n <= 0 {
        None
    } else {
        let w = ws[n - 1];
        let x = (if use_end { w.end_ms as int } else { w.start_ms as int }) - origin;
        let d = dist(x, t);
        match nearest(ws, t, n - 1, use_end, origin) {
            Some((b, bd)) => if d < bd { Some((x, d)) } else { Some((b, bd)) },
            None => Some((x, d)),
        }
    }
}

/// A cut, an offset from the shot's start, moved to the nearest word boundary
/// (word times are absolute, so they are taken relative to the shot's start
/// `origin`) when one lies within half a second, and then kept inside the
/// shot; otherwise left where it is.
pub open spec fn snapped(ws: Seq<DeepgramWord>, t: int, shot_ms: int, use_end: bool, origin: int) -> int {
    match nearest(ws, t, ws.len() as int, use_end, origin) {
        Some((b, bd)) if bd <= 500 => if b < 0 { 0 } else if b > shot_ms { shot_ms } else { b },
        _ => t,
    }
}

pub open spec fn shot_len(s: NovaShot) -> int {
    s.end_ms - s.start_ms
}

pub open spec fn shot_ok(s: NovaShot) -> bool {
    &&& s.start_ms <= s.end_ms
    &&& s.end_ms <= i64::MAX
    &&& forall|i: int| 0 <= i < s.words.len() ==> (#[trigger] s.words[i]).start_ms <= i64::MAX && s.words[i].end_ms <= i64::MAX
}

fn snap(shot: &NovaShot, t: i64, use_end: bool) -> (r: i64)
    requires
        shot_ok(*shot),
    ensures
        r == snapped(shot.words@, t as int, shot_len(*shot), use_end, shot.start_ms as int),
{
    let mut best: i128 = t as i128;
    let mut best_d: Option<i128> = None;
    let mut i: usize = 0;
    while i < shot.words.len()
        invariant
            i <= shot.words.len(),
            shot_ok(*shot),
            match nearest(shot.words@, t as int, i as int, use_end, shot.start_ms as int) {
                Some((b, bd)) => (best_d matches Some(x) && x == bd) && best == b,
                None => best_d is None,
            },
        decreases shot.words.len() - i,
    {
        let w = &shot.words[i];
        let x: i128 = (if use_end { w.end_ms as i128 } else { w.start_ms as i128 }) - shot.start_ms as i128;
        let d: i128 = if x >= t as i128 { x - t as i128 } else { t as i128 - x };
        match best_d {
            Some(bd) => {
                if d < bd {
                    best_d = Some(d);
                    best = x;
                }
            }
            None => {
                best_d = Some(d);
                best = x;
            }
        }
        i += 1;
    }
    let len: i128 = shot.end_ms as i128 - shot.start_ms as i128;
    match best_d {
        Some(bd) => {
            if bd <= 500 {
                let c = if best < 0 { 0 } else if best > len { len } else { best };
                c as i64
            } else {
                t
            }
        }
        None => t,
    }
}

// ---------------------------------------------------------------------------
// Sanitising an edit plan
// ---------------------------------------------------------------------------

/// One cut of the edit: a stretch of a shot, placed at `position`.
pub struct PlanEntry {
    pub shot_id: String,
    pub start_trim_ms: i64,
    pub end_trim_ms: i64,
    pub position: i32,
    pub text_overlay: Option<String>,
    pub transition: Option<String>,
}

impl Clone for PlanEntry {
    fn clone(&self) -> (r: Self)
        ensures
            r == *self,
    {
        PlanEntry {
            shot_id: self.shot_id.clone(),
            start_trim_ms: self.start_trim_ms,
            end_trim_ms: self.end_trim_ms,
            position: self.position,
            text_overlay: match &self.text_overlay { Some(s) => Some(s.clone()), None => None },
            transition: match &self.transition { Some(s) => Some(s.clone()), None => None },
        }
    }
}

pub open spec fn clamp(x: int, lo: int, hi: int) -> int {
    if x < lo { lo } else if x > hi { hi } else { x }
}

/// What becomes of one proposed cut: dropped when it is empty, names no shot,
/// is shorter than 400 ms inside its shot, or shorter than 300 ms once snapped
/// to word boundaries; otherwise clamped to the shot and snapped.
pub open spec fn kept_entry(e: PlanEntry, shots: Seq<NovaShot>) -> Option<PlanEntry> {
    if e.end_trim_ms <= e.start_trim_ms {
        None
    } else {
        match resolves_to(shots, e.shot_id@) {
            None => None,
            Some(k) => {
                let shot = shots[k];
                let len = shot_len(shot);
                let s = clamp(e.start_trim_ms as int, 0, len);
                let t = clamp(e.end_trim_ms as int, 0, len);
                if t - s < 400 {
                    None
                } else {
                    let s2 = snapped(shot.words@, s, len, false, shot.start_ms as int);
                    let t2 = snapped(shot.words@, t, len, true, shot.start_ms as int);
                    if t2 - s2 < 300 {
                        None
                    } else {
                        Some(PlanEntry { start_trim_ms: s2 as i64, end_trim_ms: t2 as i64, ..e })
                    }
                }
            }
        }
    }
}

/// Inserts `e` after every entry whose position is at most `e`'s (a stable
/// insertion by position).
pub open spec fn insert_by_position(sorted: Seq<PlanEntry>, e: PlanEntry) -> Seq<PlanEntry>
    decreases sorted.len(),
{
    if sorted.len() == 0 {
        seq![e]
    } else if sorted[0].position <= e.position {
        seq![sorted[0]] + insert_by_position(sorted.drop_first(), e)
    } else {
        seq![e] + sorted
    }
}

/// The kept cuts among the first `n` proposed, stably sorted by position.
pub open spec fn kept_sorted(entries: Seq<PlanEntry>, shots: Seq<NovaShot>, n: int) -> Seq<PlanEntry>
    decreases n,
{
    if n <= 0 {
        seq![]
    } else {
        let prev = kept_sorted(entries, shots, n - 1);
        match kept_entry(entries[n - 1], shots) {
            Some(e) => insert_by_position(prev, e),
            None => prev,
        }
    }
}

/// The cuts renumbered `0, 1, 2, …` in their order.
pub open spec fn renumbered(es: Seq<PlanEntry>) -> Seq<PlanEntry> {
    Seq::new(es.len(), |i: int| PlanEntry { position: i as i32, ..es[i] })
}

/// The summed length of the cuts.
pub open spec fn total_ms(es: Seq<PlanEntry>) -> int
    decreases es.len(),
{
    if es.len() == 0 { 0 } else { total_ms(es.drop_last()) + (es.last().end_trim_ms - es.last().start_trim_ms) }
}

/// A renderable plan: its cuts and their summed length.
pub struct SanitizedPlan {
    pub entries: Vec<PlanEntry>,
    pub total_ms: i128,
}

/// A cut that starts inside its shot and lasts at least 300 ms.
pub open spec fn entry_ok(e: PlanEntry) -> bool {
    0 <= e.start_trim_ms && e.start_trim_ms + 300 <= e.end_trim_ms
}

proof fn lemma_nearest_some(ws: Seq<DeepgramWord>, t: int, n: int, use_end: bool, origin: int)
    requires
        0 <= n,
    ensures
        n > 0 ==> nearest(ws, t, n, use_end, origin) is Some,
    decreases n,
{
    if n > 0 {
        lemma_nearest_some(ws, t, n - 1, use_end, origin);
    }
}

proof fn lemma_snapped_range(ws: Seq<DeepgramWord>, t: int, len: int, use_end: bool, origin: int)
    requires
        0 <= t <= len,
    ensures
        0 <= snapped(ws, t, len, use_end, origin) <= len,
{
}

proof fn lemma_kept_ok(e: PlanEntry, shots: Seq<NovaShot>)
    requires
        forall|i: int| 0 <= i < shots.len() ==> shot_ok(#[trigger] shots[i]),
    ensures
        kept_entry(e, shots) matches Some(k) ==> entry_ok(k) && k.end_trim_ms <= i64::MAX,
{
    lemma_resolves_range(shots, e.shot_id@);
    if let Some(k) = resolves_to(shots, e.shot_id@) {
        if e.end_trim_ms > e.start_trim_ms {
            let shot = shots[k];
            assert(shot_ok(shot));
            let len = shot_len(shot);
            let s = clamp(e.start_trim_ms as int, 0, len);
            let t = clamp(e.end_trim_ms as int, 0, len);
            lemma_snapped_range(shot.words@, s, len, false, shot.start_ms as int);
            lemma_snapped_range(shot.words@, t, len, true, shot.start_ms as int);
        }
    }
}

proof fn lemma_insert_at(sorted: Seq<PlanEntry>, e: PlanEntry, pos: int)
    requires
        0 <= pos <= sorted.len(),
        forall|i: int| 0 <= i < pos ==> sorted[i].position <= e.position,
        pos == sorted.len() || sorted[pos].position > e.position,
    ensures
        insert_by_position(sorted, e) == sorted.take(pos) + seq![e] + sorted.skip(pos),
    decreases pos,
{
    if pos == 0 {
        assert(sorted.take(0) + seq![e] + sorted.skip(0) =~= seq![e] + sorted);
        if sorted.len() == 0 {
            assert(seq![e] + sorted =~= seq![e]);
        }
    } else {
        lemma_insert_at(sorted.drop_first(), e, pos - 1);
        assert(sorted.take(pos) + seq![e] + sorted.skip(pos) =~= seq![sorted[0]] + (sorted.drop_first().take(pos - 1) + seq![e] + sorted.drop_first().skip(pos - 1)));
    }
}

fn keep_entry(e: &PlanEntry, shots: &Vec<NovaShot>) -> (r: Option<PlanEntry>)
    requires
        forall|i: int| 0 <= i < shots.len() ==> shot_ok(#[trigger] shots[i]),
    ensures
        r == kept_entry(*e, shots@),
        r matches Some(k) ==> entry_ok(k),
{
    proof {
        lemma_kept_ok(*e, shots@);
    }
    if e.end_trim_ms <= e.start_trim_ms {
        return None;
    }
    let k = match resolve_shot(shots, e.shot_id.as_str()) {
        Some(k) => k,
        None => return None,
    };
    let shot = &shots[k];
    assert(shot_ok(*shot));
    let len: i64 = (shot.end_ms - shot.start_ms) as i64;
    let s: i64 = if e.start_trim_ms < 0 { 0 } else if e.start_trim_ms > len { len } else { e.start_trim_ms };
    let t: i64 = if e.end_trim_ms < 0 { 0 } else if e.end_trim_ms > len { len } else { e.end_trim_ms };
    if t - s < 400 {
        return None;
    }
    let s2 = snap(shot, s, false);
    let t2 = snap(shot, t, true);
    if (t2 as i128) - (s2 as i128) < 300 {
        return None;
    }
    let mut kept = e.clone();
    kept.start_trim_ms = s2;
    kept.end_trim_ms = t2;
    Some(kept)
}

/// Makes a proposed plan renderable: drops the cuts that
/// cannot be rendered, snaps the rest to word boundaries, orders them by their
/// proposed position (keeping the proposal's order among equal positions),
/// numbers them from 0 and sums their length.
pub fn sanitize_plan(entries: &Vec<PlanEntry>, shots: &Vec<NovaShot>) -> (r: SanitizedPlan)
    requires
        forall|i: int| 0 <= i < shots.len() ==> shot_ok(#[trigger] shots[i]),
    ensures
        r.entries@ == renumbered(kept_sorted(entries@, shots@, entries.len() as int)),
        r.total_ms == total_ms(r.entries@),
{
    let mut sorted: Vec<PlanEntry> = Vec::new();
    let mut i: usize = 0;
    while i < entries.len()
        invariant
            i <= entries.len(),
            forall|j: int| 0 <= j < shots.len() ==> shot_ok(#[trigger] shots[j]),
            sorted@ == kept_sorted(entries@, shots@, i as int),
            forall|j: int| 0 <= j < sorted.len() ==> entry_ok(#[trigger] sorted@[j]),
        decreases entries.len() - i,
    {
        match keep_entry(&entries[i], shots) {
            Some(e) => {
                let mut pos: usize = 0;
                while pos < sorted.len() && sorted[pos].position <= e.position
                    invariant
                        pos <= sorted.len(),
                        forall|j: int| 0 <= j < pos ==> sorted@[j].position <= e.position,
                    decreases sorted.len() - pos,
                {
                    pos += 1;
                }
                proof {
                    lemma_insert_at(sorted@, e, pos as int);
                }
                let ghost before = sorted@;
                sorted.insert(pos, e);
                assert(sorted@ =~= before.take(pos as int) + seq![e] + before.skip(pos as int));
                assert forall|j: int| 0 <= j < sorted.len() implies entry_ok(#[trigger] sorted@[j]) by {
                    if j < pos {
                        assert(sorted@[j] == before[j]);
                    } else if j > pos {
                        assert(sorted@[j] == before[j - 1]);
                    }
                }
            }
            None => {}
        }
        i += 1;
    }
    let n = sorted.len();
    let ghost want = renumbered(kept_sorted(entries@, shots@, entries.len() as int));
    let mut out: Vec<PlanEntry> = Vec::new();
    let mut total: i128 = 0;
    let mut j: usize = 0;
    while j < n
        invariant
            j <= n == sorted.len(),
            want.len() == n,
            want == renumbered(sorted@),
            out@ == want.take(j as int),
            total == total_ms(out@),
            0 <= total <= 0x8000_0000_0000_0000 * (j as int),
            j <= usize::MAX,
            forall|k: int| 0 <= k < sorted.len() ==> entry_ok(#[trigger] sorted@[k]),
        decreases n - j,
    {
        assert(entry_ok(sorted@[j as int]));
        assert(0x8000_0000_0000_0000 * (j as int) + 0x8000_0000_0000_0000 <= 0x8000_0000_0000_0000 * 0x1_0000_0000_0000_0000) by (nonlinear_arith)
            requires
                j < 0x1_0000_0000_0000_0000,
        ;
        let mut e = sorted[j].clone();
        e.position = j as i32;
        let d: i128 = e.end_trim_ms as i128 - e.start_trim_ms as i128;
        total = total + d;
        out.push(e);
        j += 1;
        assert(want.take(j as int) =~= want.take(j - 1).push(want[j - 1]));
        assert(out@.drop_last() =~= want.take(j - 1));
    }
    assert(want.take(n as int) =~= want);
    SanitizedPlan { entries: out, total_ms: total }
}

/// Ordered by proposed position.
pub open spec fn by_position(es: Seq<PlanEntry>) -> bool {
    forall|i: int, j: int| 0 <= i < j < es.len() ==> es[i].position <= es[j].position
}

/// A cut fit to render: inside its shot, long enough, naming a shot.
pub open spec fn renderable(e: PlanEntry, shots: Seq<NovaShot>) -> bool {
    entry_ok(e) && resolves_to(shots, e.shot_id@) is Some
}

proof fn lemma_insert_props(sorted: Seq<PlanEntry>, e: PlanEntry, shots: Seq<NovaShot>)
    requires
        by_position(sorted),
    ensures
        by_position(insert_by_position(sorted, e)),
        insert_by_position(sorted, e).len() == sorted.len() + 1,
        (forall|i: int| 0 <= i < sorted.len() ==> renderable(#[trigger] sorted[i], shots)) && renderable(e, shots)
            ==> forall|i: int| 0 <= i < insert_by_position(sorted, e).len() ==> renderable(#[trigger] insert_by_position(sorted, e)[i], shots),
        forall|i: int| 0 <= i < insert_by_position(sorted, e).len() ==> (#[trigger] insert_by_position(sorted, e)[i]).position >= (if sorted.len() > 0 && sorted[0].position < e.position { sorted[0].position } else { e.position }),
    decreases sorted.len(),
{
    if sorted.len() > 0 && sorted[0].position <= e.position {
        let rest = sorted.drop_first();
        assert(by_position(rest));
        lemma_insert_props(rest, e, shots);
        let tail = insert_by_position(rest, e);
        let res = insert_by_position(sorted, e);
        assert(res == seq![sorted[0]] + tail);
        assert forall|i: int| 0 <= i < tail.len() implies (#[trigger] tail[i]).position >= sorted[0].position by {
            if rest.len() > 0 {
                assert(rest[0] == sorted[1]);
            }
        }
        assert forall|i: int, j: int| 0 <= i < j < res.len() implies res[i].position <= res[j].position by {
            if i > 0 {
                assert(res[i] == tail[i - 1]);
                assert(res[j] == tail[j - 1]);
            } else {
                assert(res[j] == tail[j - 1]);
            }
        }
        if (forall|i: int| 0 <= i < sorted.len() ==> renderable(#[trigger] sorted[i], shots)) && renderable(e, shots) {
            assert forall|i: int| 0 <= i < rest.len() implies renderable(#[trigger] rest[i], shots) by {
                assert(rest[i] == sorted[i + 1]);
            }
            assert forall|i: int| 0 <= i < res.len() implies renderable(#[trigger] res[i], shots) by {
                if i > 0 {
                    assert(res[i] == tail[i - 1]);
                }
            }
        }
        assert forall|i: int| 0 <= i < res.len() implies (#[trigger] res[i]).position >= (if sorted.len() > 0 && sorted[0].position < e.position { sorted[0].position } else { e.position }) by {
            if i > 0 {
                assert(res[i] == tail[i - 1]);
            }
        }
    } else {
        let res = insert_by_position(sorted, e);
        assert(res == seq![e] + sorted);
        assert forall|i: int, j: int| 0 <= i < j < res.len() implies res[i].position <= res[j].position by {
            if i > 0 {
                assert(res[i] == sorted[i - 1]);
                assert(res[j] == sorted[j - 1]);
            } else {
                assert(res[j] == sorted[j - 1]);
                assert(sorted[0].position <= sorted[j - 1].position);
            }
        }
        assert forall|i: int| 0 <= i < res.len() implies (#[trigger] res[i]).position >= (if sorted.len() > 0 && sorted[0].position < e.position { sorted[0].position } else { e.position }) by {
            if i > 0 {
                assert(res[i] == sorted[i - 1]);
                assert(sorted[0].position <= sorted[i - 1].position);
            }
        }
        if (forall|i: int| 0 <= i < sorted.len() ==> renderable(#[trigger] sorted[i], shots)) && renderable(e, shots) {
            assert forall|i: int| 0 <= i < res.len() implies renderable(#[trigger] res[i], shots) by {
                if i > 0 {
                    assert(res[i] == sorted[i - 1]);
                }
            }
        }
    }
}

proof fn lemma_kept_entry_names_shot(e: PlanEntry, shots: Seq<NovaShot>)
    requires
        forall|i: int| 0 <= i < shots.len() ==> shot_ok(#[trigger] shots[i]),
    ensures
        kept_entry(e, shots) matches Some(k) ==> renderable(k, shots),
{
    lemma_kept_ok(e, shots);
}

proof fn lemma_kept_sorted(entries: Seq<PlanEntry>, shots: Seq<NovaShot>, n: int)
    requires
        0 <= n <= entries.len(),
        forall|i: int| 0 <= i < shots.len() ==> shot_ok(#[trigger] shots[i]),
    ensures
        by_position(kept_sorted(entries, shots, n)),
        kept_sorted(entries, shots, n).len() <= n,
        forall|i: int| 0 <= i < kept_sorted(entries, shots, n).len() ==> renderable(#[trigger] kept_sorted(entries, shots, n)[i], shots),
    decreases n,
{
    if n > 0 {
        lemma_kept_sorted(entries, shots, n - 1);
        lemma_kept_entry_names_shot(entries[n - 1], shots);
        if let Some(e) = kept_entry(entries[n - 1], shots) {
            lemma_insert_props(kept_sorted(entries, shots, n - 1), e, shots);
        }
    }
}

/// What a sanitised plan promises the renderer: its cuts are numbered
/// `0, 1, 2, …` in order (while there are fewer than 2^31 of them), each names a
/// shot of the footage, starts inside that shot and lasts at least 300 ms,
/// they come in the order of their proposed positions, there are no more of
/// them than were proposed, and the plan's length is their summed length.
pub proof fn lemma_sanitized_plan(entries: Seq<PlanEntry>, shots: Seq<NovaShot>)
    requires
        forall|i: int| 0 <= i < shots.len() ==> shot_ok(#[trigger] shots[i]),
    ensures
        ({
            let sorted = kept_sorted(entries, shots, entries.len() as int);
            let r = renumbered(sorted);
            &&& r.len() <= entries.len()
            &&& by_position(sorted)
            &&& forall|i: int| 0 <= i < r.len() && i < 0x8000_0000 ==> (#[trigger] r[i]).position == i
            &&& forall|i: int| 0 <= i < r.len() ==> renderable(#[trigger] r[i], shots)
            &&& forall|i: int| 0 <= i < r.len() ==> (#[trigger] r[i]).end_trim_ms - r[i].start_trim_ms >= 300
        }),
{
    lemma_kept_sorted(entries, shots, entries.len() as int);
    let sorted = kept_sorted(entries, shots, entries.len() as int);
    let r = renumbered(sorted);
    assert forall|i: int| 0 <= i < r.len() implies renderable(#[trigger] r[i], shots) by {
        assert(renderable(sorted[i], shots));
    }
    assert forall|i: int| 0 <= i < r.len() && i < 0x8000_0000 implies (#[trigger] r[i]).position == i by {
        assert((i as i32) == i);
    }
}

// ---------------------------------------------------------------------------
// Stages and the review loop
// ---------------------------------------------------------------------------

/// What an agentic task does next, by its stored stage.
#[derive(PartialEq, Eq, Structural, Clone, Copy)]
pub enum StageStep {
    /// Plan the edit; `fresh` when no stage was stored yet (it is then saved
    /// as `director` first).
    Director { fresh: bool },
    /// Render, review and possibly re-plan.
    Editing,
    /// Any other stored stage is an error.
    Unknown,
}

pub open spec fn step_of(stage: Seq<char>) -> StageStep {
    if stage.len() == 0 {
        StageStep::Director { fresh: true }
    } else if stage == "director"@ {
        StageStep::Director { fresh: false }
    } else if stage == "editing"@ {
        StageStep::Editing
    } else {
        StageStep::Unknown
    }
}

pub fn stage_step(stage: &str) -> (r: StageStep)
    ensures
        r == step_of(stage@),
{
    if stage.is_empty() {
        StageStep::Director { fresh: true }
    } else if str_eq(stage, "director") {
        StageStep::Director { fresh: false }
    } else if str_eq(stage, "editing") {
        StageStep::Editing
    } else {
        StageStep::Unknown
    }
}

/// After a review: the count of reviews used goes up by one, and the edit is
/// re-planned only when the score fell below the threshold and the count is
/// still under the maximum.
pub fn after_review(retries_used: i32, max_retries: i32, below_threshold: bool) -> (r: (i32, bool))
    requires
        retries_used < i32::MAX,
    ensures
        r.0 == retries_used + 1,
        r.1 == (below_threshold && retries_used + 1 < max_retries),
{
    let used = retries_used + 1;
    (used, below_threshold && used < max_retries)
}

/// How many cuts are rendered for a run of reviews (`below[k]`: whether review
/// `k` scored under the threshold), starting with `used` reviews spent.
pub open spec fn renders(used: int, max: int, below: Seq<bool>) -> int
    decreases below.len(),
{
    if below.len() == 0 {
        0
    } else if below[0] && used + 1 < max {
        1 + renders(used + 1, max, below.drop_first())
    } else {
        1
    }
}

/// The review loop ends: starting with `used` reviews spent, it renders at most
/// `max - used` cuts (and at least one render always happens), whatever the
/// critic says.
pub proof fn lemma_review_loop_bounded(used: int, max: int, below: Seq<bool>)
    ensures
        renders(used, max, below) <= (if max - used > 1 { max - used } else { 1 }),
    decreases below.len(),
{
    if below.len() > 0 && below[0] && used + 1 < max {
        lemma_review_loop_bounded(used + 1, max, below.drop_first());
    }
}

// ---------------------------------------------------------------------------
// Language model replies
// ---------------------------------------------------------------------------

/// A reply with its Markdown code fence removed: trimmed, then a leading
/// "```json" or "```" and a trailing "```" dropped, then trimmed again.
pub open spec fn unfenced(text: Seq<char>) -> Seq<char> {
    let t = trim(text);
    let t = if starts_with(t, "```json"@) { t.skip(7) } else { t };
    let t = if starts_with(t, "```"@) { t.skip(3) } else { t };
    let t = if ends_with(t, "```"@) { t.take(t.len() - 3) } else { t };
    trim(t)
}

fn drop_front(s: &Vec<char>, k: usize) -> (r: Vec<char>)
    requires
        k <= s.len(),
    ensures
        r@ == s@.skip(k as int),
{
    let mut r: Vec<char> = Vec::new();
    let mut i: usize = k;
    while i < s.len()
        invariant
            k <= i <= s.len(),
            r@ == s@.subrange(k as int, i as int),
        decreases s.len() - i,
    {
        r.push(s[i]);
        i += 1;
        assert(s@.subrange(k as int, i as int) =~= s@.subrange(k as int, i - 1).push(s@[i - 1]));
    }
    assert(s@.subrange(k as int, s.len() as int) =~= s@.skip(k as int));
    r
}

fn keep_front(s: &Vec<char>, k: usize) -> (r: Vec<char>)
    requires
        k <= s.len(),
    ensures
        r@ == s@.take(k as int),
{
    let mut r: Vec<char> = Vec::new();
    let mut i: usize = 0;
    while i < k
        invariant
            i <= k <= s.len(),
            r@ == s@.take(i as int),
        decreases k - i,
    {
        r.push(s[i]);
        i += 1;
        assert(s@.take(i as int) =~= s@.take(i - 1).push(s@[i - 1]));
    }
    r
}

pub fn strip_fences(text: &str) -> (r: String)
    ensures
        r@ == unfenced(text@),
{
    let cs = chars_of(text);
    let t = trim_chars(&cs);
    let json_fence: Vec<char> = vec!['`', '`', '`', 'j', 's', 'o', 'n'];
    let fence: Vec<char> = vec!['`', '`', '`'];
    proof {
        reveal_strlit("```json");
        reveal_strlit("```");
        assert(json_fence@ =~= "```json"@);
        assert(fence@ =~= "```"@);
    }
    let t = if crate::text::has_prefix(&t, &json_fence) { drop_front(&t, 7) } else { t };
    let t = if crate::text::has_prefix(&t, &fence) { drop_front(&t, 3) } else { t };
    let t = if crate::text::has_suffix(&t, &fence) { keep_front(&t, t.len() - 3) } else { t };
    let out = trim_chars(&t);
    string_of(&out)
}

/// Which service a model call goes to, and the model asked for.
pub enum LlmRoute {
    OpenRouter { model: String },
    Gemini { model: String },
}

/// The model a plan or review is asked of: the request's, or the default.
pub open spec fn provider_of(llm_provider: Seq<char>) -> Seq<char> {
    if llm_provider.len() == 0 { "gemini-3.1-flash-lite"@ } else { llm_provider }
}

/// OpenRouter is used for a `vendor/model` name or whenever an OpenRouter key
/// is at hand (its free router when no such name was given); Gemini otherwise.
pub open spec fn route_ok(r: LlmRoute, llm_provider: Seq<char>, openrouter_key: Seq<char>) -> bool {
    let p = provider_of(llm_provider);
    let slash = contains(p, "/"@);
    if slash || openrouter_key.len() > 0 {
        r matches LlmRoute::OpenRouter { model } && model@ == (if slash { p } else { "openrouter/free"@ })
    } else {
        r matches LlmRoute::Gemini { model } && model@ == p
    }
}

pub fn llm_route(llm_provider: &str, openrouter_key: &str) -> (r: LlmRoute)
    ensures
        route_ok(r, llm_provider@, openrouter_key@),
{
    let p = if llm_provider.is_empty() { owned("gemini-3.1-flash-lite") } else { owned(llm_provider) };
    let slash = str_contains(p.as_str(), "/");
    if slash || !openrouter_key.is_empty() {
        let model = if slash { p } else { owned("openrouter/free") };
        LlmRoute::OpenRouter { model }
    } else {
        LlmRoute::Gemini { model: p }
    }
}

/// A key from the request when it is not blank, else the fallback when that is
/// not blank, else none.
pub open spec fn key_choice(request: Option<String>, fallback: Option<String>) -> Seq<char> {
    match request {
        Some(k) if trim(k@).len() > 0 => k@,
        _ => match fallback {
            Some(f) if trim(f@).len() > 0 => f@,
            _ => ""@,
        },
    }
}

pub fn choose_key(request: &Option<String>, fallback: &Option<String>) -> (r: String)
    ensures
        r@ == key_choice(*request, *fallback),
{
    if let Some(k) = request {
        let t = str_trim(k.as_str());
        if !t.as_str().is_empty() {
            return k.clone();
        }
    }
    if let Some(f) = fallback {
        let t = str_trim(f.as_str());
        if !t.as_str().is_empty() {
            return f.clone();
        }
    }
    owned("")
}

// ---------------------------------------------------------------------------
// Footage
// ---------------------------------------------------------------------------

/// The kind of a shot by the name of the folder its file sits in: A-roll or
/// B-roll when the lower-cased name contains one of the usual spellings,
/// unknown otherwise.
pub open spec fn roll_type_of(folder: Option<Seq<char>>) -> Seq<char> {
    match folder {
        None => "unknown"@,
        Some(name) => {
            let l = lowercase(name);
            if contains(l, "a-roll"@) || contains(l, "a_roll"@) || contains(l, "aroll"@) || contains(l, "a-rolls"@) {
                "a-roll"@
            } else if contains(l, "b-roll"@) || contains(l, "b_roll"@) || contains(l, "broll"@) || contains(l, "b-rolls"@) {
                "b-roll"@
            } else {
                "unknown"@
            }
        },
    }
}

pub fn detect_roll_type(folder: Option<&str>) -> (r: String)
    ensures
        r@ == roll_type_of(match folder { Some(f) => Some(f@), None => None }),
{
    match folder {
        None => owned("unknown"),
        Some(name) => {
            let l = to_lower(name);
            let ls = l.as_str();
            if str_contains(ls, "a-roll") || str_contains(ls, "a_roll") || str_contains(ls, "aroll") || str_contains(ls, "a-rolls") {
                owned("a-roll")
            } else if str_contains(ls, "b-roll") || str_contains(ls, "b_roll") || str_contains(ls, "broll") || str_contains(ls, "b-rolls") {
                owned("b-roll")
            } else {
                owned("unknown")
            }
        },
    }
}

/// Whether a word's midpoint lies inside `[start, end]`.
pub open spec fn mid_inside(w: DeepgramWord, start: int, end: int) -> bool {
    2 * start <= w.start_ms + w.end_ms <= 2 * end
}

/// The words whose midpoint lies inside a shot, in order.
pub fn words_for_window(words: &Vec<DeepgramWord>, start_ms: u64, end_ms: u64) -> (r: Vec<DeepgramWord>)
    ensures
        r@ == words@.filter(|w: DeepgramWord| mid_inside(w, start_ms as int, end_ms as int)),
{
    let ghost pred = |w: DeepgramWord| mid_inside(w, start_ms as int, end_ms as int);
    let mut r: Vec<DeepgramWord> = Vec::new();
    let mut i: usize = 0;
    while i < words.len()
        invariant
            i <= words.len(),
            pred == (|w: DeepgramWord| mid_inside(w, start_ms as int, end_ms as int)),
            r@ == words@.take(i as int).filter(pred),
        decreases words.len() - i,
    {
        let w = &words[i];
        proof {
            assert(words@.take(i + 1) =~= words@.take(i as int).push(*w));
            words@.take(i as int).lemma_filter_push(*w, pred);
        }
        let sum: u128 = w.start_ms as u128 + w.end_ms as u128;
        if 2 * (start_ms as u128) <= sum && sum <= 2 * (end_ms as u128) {
            r.push(w.clone());
        }
        i += 1;
    }
    assert(words@.take(words.len() as int) =~= words@);
    r
}

/// Characters after which no space follows, and before which none is put.
pub open spec fn closes(c: char) -> bool {
    ",.!?;:% )]}\"'"@.contains(c)
}

pub open spec fn opens(c: char) -> bool {
    "([{$\"'#"@.contains(c)
}

/// Whether a space goes between two words' texts.
pub open spec fn spaced(prev: Seq<char>, next: Seq<char>) -> bool {
    let need = prev.len() == 0 || !closes(prev.last());
    let skip = next.len() > 0 && opens(next[0]);
    need && !skip
}

/// The first `n` words' shown texts run together, spaced as [`spaced`] says.
pub open spec fn run_text(words: Seq<DeepgramWord>, n: int) -> Seq<char>
    decreases n,
{
    if n <= 0 {
        seq![]
    } else if n == 1 {
        shown_text(words[0], false)
    } else {
        let prev = shown_text(words[n - 2], false);
        let t = shown_text(words[n - 1], false);
        run_text(words, n - 1) + (if spaced(prev, t) { " "@ } else { ""@ }) + t
    }
}

fn char_in(c: char, set: &str) -> (b: bool)
    ensures
        b == set@.contains(c),
{
    let cs = chars_of(set);
    let mut i: usize = 0;
    while i < cs.len()
        invariant
            i <= cs.len(),
            cs@ == set@,
            forall|j: int| 0 <= j < i ==> cs@[j] != c,
        decreases cs.len() - i,
    {
        if cs[i] == c {
            return true;
        }
        i += 1;
    }
    false
}

/// The words' transcript: their shown texts joined, trimmed.
pub fn words_to_text(words: &Vec<DeepgramWord>) -> (r: String)
    ensures
        r@ == trim(run_text(words@, words.len() as int)),
{
    let mut out = String::new();
    let mut i: usize = 0;
    while i < words.len()
        invariant
            i <= words.len(),
            out@ == run_text(words@, i as int),
        decreases words.len() - i,
    {
        let t = word_text(&words[i], false);
        if i > 0 {
            let prev = word_text(&words[i - 1], false);
            let pc = chars_of(prev.as_str());
            let tc = chars_of(t.as_str());
            let need = pc.len() == 0 || !char_in(pc[pc.len() - 1], ",.!?;:% )]}\"'");
            let skip = tc.len() > 0 && char_in(tc[0], "([{$\"'#");
            if need && !skip {
                push_str(&mut out, " ");
            } else {
                proof {
                    reveal_strlit("");
                    assert(out@ + ""@ =~= out@);
                }
            }
        }
        push_str(&mut out, t.as_str());
        i += 1;
    }
    crate::text::str_trim(out.as_str())
}

// ---------------------------------------------------------------------------
// The packed transcript the director reads
// ---------------------------------------------------------------------------

/// Seconds with one decimal, rounded to the nearest tenth.
pub open spec fn secs1(ms: nat) -> Seq<char> {
    let ds = (ms + 50) / 100;
    decimal(ds / 10) + "."@ + decimal(ds % 10)
}

fn push_secs1(out: &mut String, ms: u64)
    requires
        ms < u64::MAX - 50,
    ensures
        final(out)@ == old(out)@ + secs1(ms as nat),
{
    let ghost o = out@;
    let ds = (ms + 50) / 100;
    push_nat(out, ds / 10);
    push_str(out, ".");
    push_nat(out, ds % 10);
    assert(out@ =~= o + secs1(ms as nat));
}

/// A score in hundredths written with two decimals.
pub open spec fn hundredths(cs: nat) -> Seq<char> {
    decimal(cs / 100) + "."@ + padded(cs % 100, 2)
}

pub open spec fn quoted_or(s: Seq<char>, empty: Seq<char>) -> Seq<char> {
    if s.len() == 0 { empty } else { s }
}

/// The brief's line at the top of the packed transcript.
#[verifier::opaque]
pub open spec fn pack_header(b: NovaEditBrief) -> Seq<char> {
    "# Packed footage index — shot-level transcript\n\n"@
        + "Creative brief: product="@ + quoted_or(b.product@, "\"\""@) + ", audience="@ + quoted_or(b.audience@, "\"\""@)
        + ", tone="@ + quoted_or(b.tone@, "\"natural\""@) + ", format="@ + quoted_or(b.content_type@, "short_form"@)
        + ", target duration="@ + int_decimal(b.duration_seconds as int) + "s\n"@
        + (if b.instruction@.len() > 0 { "Additional instruction: "@ + b.instruction@ + "\n"@ } else { ""@ })
        + "\n"@
}

/// The heading line of a shot's entry: its id, source, kind, length and word
/// count.
#[verifier::opaque]
pub open spec fn shot_heading(s: NovaShot) -> Seq<char> {
    let d = if s.end_ms >= s.start_ms { (s.end_ms - s.start_ms) as nat } else { 0 };
    "## shot: `"@ + shot_id_of(s.stem@, s.start_ms as nat) + "`  (source: "@ + s.stem@ + " · "@ + s.roll_type@ + ", "@
        + secs1(d) + "s, "@ + decimal(s.words.len() as nat) + ")\n"@
}

/// A shot's time span and speech.
#[verifier::opaque]
pub open spec fn shot_speech(s: NovaShot) -> Seq<char> {
    let t = trim(s.transcript@);
    "  ["@ + secs2(s.start_ms as nat) + "s → "@ + secs2(s.end_ms as nat) + "s"@ + "] "@
        + (if t.len() == 0 { "_no speech detected_"@ } else { t })
}

/// What is seen in a shot, when it was described.
#[verifier::opaque]
pub open spec fn shot_visual(s: NovaShot) -> Seq<char> {
    if s.visual_description@.len() > 0 {
        "\n  Visual: "@ + s.visual_description@ + " (shot type: "@ + s.shot_type@ + ", quality: "@ + hundredths(s.visual_quality_cs as nat) + ")"@
    } else {
        ""@
    }
}

/// The body of a shot's entry: its time span, its speech, and what is seen.
pub open spec fn shot_body(s: NovaShot) -> Seq<char> {
    shot_speech(s) + shot_visual(s) + "\n\n"@
}

/// One shot's entry in the packed transcript.
pub open spec fn shot_block(s: NovaShot) -> Seq<char> {
    shot_heading(s) + shot_body(s)
}

/// The packed transcript of the first `n` shots.
pub open spec fn packed_shots(shots: Seq<NovaShot>, n: int) -> Seq<char>
    decreases n,
{
    if n <= 0 { seq![] } else { packed_shots(shots, n - 1) + shot_block(shots[n - 1]) }
}

/// The packed transcript: the brief, then one entry per shot.
pub open spec fn packed(shots: Seq<NovaShot>, b: NovaEditBrief) -> Seq<char> {
    pack_header(b) + packed_shots(shots, shots.len() as int)
}

pub open spec fn shot_times_ok(s: NovaShot) -> bool {
    s.start_ms < 0x1_0000_0000_0000 && s.end_ms < 0x1_0000_0000_0000
}

fn push_quoted_or(out: &mut String, s: &str, empty: &str)
    ensures
        final(out)@ == old(out)@ + quoted_or(s@, empty@),
{
    if s.is_empty() {
        push_str(out, empty);
    } else {
        push_str(out, s);
    }
}

#[verifier::rlimit(60)]
#[verifier::spinoff_prover]
fn push_pack_header(out: &mut String, b: &NovaEditBrief)
    ensures
        final(out)@ == old(out)@ + pack_header(*b),
{
    let ghost o = out@;
    push_str(out, "# Packed footage index — shot-level transcript\n\n");
    push_str(out, "Creative brief: product=");
    push_quoted_or(out, b.product.as_str(), "\"\"");
    push_str(out, ", audience=");
    push_quoted_or(out, b.audience.as_str(), "\"\"");
    push_str(out, ", tone=");
    push_quoted_or(out, b.tone.as_str(), "\"natural\"");
    push_str(out, ", format=");
    push_quoted_or(out, b.content_type.as_str(), "short_form");
    push_str(out, ", target duration=");
    push_int(out, b.duration_seconds as i64);
    push_str(out, "s\n");
    let ghost mid = out@;
    if !b.instruction.as_str().is_empty() {
        push_str(out, "Additional instruction: ");
        push_str(out, b.instruction.as_str());
        push_str(out, "\n");
    } else {
        proof {
            reveal_strlit("");
            assert(mid + ""@ =~= mid);
        }
    }
    push_str(out, "\n");
    reveal(pack_header);
    assert(out@ =~= o + pack_header(*b));
}

fn push_shot_heading(out: &mut String, s: &NovaShot)
    requires
        shot_times_ok(*s),
    ensures
        final(out)@ == old(out)@ + shot_heading(*s),
{
    let ghost o = out@;
    let d: u64 = if s.end_ms >= s.start_ms { s.end_ms - s.start_ms } else { 0 };
    let sid = shot_id(s.stem.as_str(), s.start_ms);
    push_str(out, "## shot: `");
    push_str(out, sid.as_str());
    push_str(out, "`  (source: ");
    push_str(out, s.stem.as_str());
    push_str(out, " · ");
    push_str(out, s.roll_type.as_str());
    push_str(out, ", ");
    push_secs1(out, d);
    push_str(out, "s, ");
    push_nat(out, s.words.len() as u64);
    push_str(out, ")\n");
    reveal(shot_heading);
    assert(out@ =~= o + shot_heading(*s));
}

fn push_shot_speech(out: &mut String, s: &NovaShot)
    requires
        shot_times_ok(*s),
    ensures
        final(out)@ == old(out)@ + shot_speech(*s),
{
    let ghost o = out@;
    push_str(out, "  [");
    push_secs2(out, s.start_ms);
    push_str(out, "s → ");
    push_secs2(out, s.end_ms);
    push_str(out, "s");
    push_str(out, "] ");
    let t = str_trim(s.transcript.as_str());
    if t.as_str().is_empty() {
        push_str(out, "_no speech detected_");
    } else {
        push_str(out, t.as_str());
    }
    reveal(shot_speech);
    assert(out@ =~= o + shot_speech(*s));
}

fn push_shot_visual(out: &mut String, s: &NovaShot)
    ensures
        final(out)@ == old(out)@ + shot_visual(*s),
{
    let ghost o = out@;
    reveal(shot_visual);
    if !s.visual_description.as_str().is_empty() {
        push_str(out, "\n  Visual: ");
        push_str(out, s.visual_description.as_str());
        push_str(out, " (shot type: ");
        push_str(out, s.shot_type.as_str());
        push_str(out, ", quality: ");
        push_nat(out, s.visual_quality_cs / 100);
        push_str(out, ".");
        push_pad(out, s.visual_quality_cs % 100, 2);
        push_str(out, ")");
        assert(out@ =~= o + shot_visual(*s));
    } else {
        proof {
            reveal_strlit("");
            assert(o + ""@ =~= o);
        }
    }
}

fn push_shot_body(out: &mut String, s: &NovaShot)
    requires
        shot_times_ok(*s),
    ensures
        final(out)@ == old(out)@ + shot_body(*s),
{
    let ghost o = out@;
    push_shot_speech(out, s);
    push_shot_visual(out, s);
    push_str(out, "\n\n");
    assert(out@ =~= o + shot_body(*s));
}

fn push_shot_block(out: &mut String, s: &NovaShot)
    requires
        shot_times_ok(*s),
    ensures
        final(out)@ == old(out)@ + shot_block(*s),
{
    let ghost o = out@;
    push_shot_heading(out, s);
    push_shot_body(out, s);
    assert(out@ =~= o + shot_block(*s));
}

/// The shot-level transcript the director plans from.
pub fn pack_transcript(shots: &Vec<NovaShot>, brief: &NovaEditBrief) -> (r: String)
    requires
        forall|i: int| 0 <= i < shots.len() ==> shot_times_ok(#[trigger] shots[i]),
    ensures
        r@ == packed(shots@, *brief),
{
    let mut out = String::new();
    push_pack_header(&mut out, brief);
    let ghost head = out@;
    let mut i: usize = 0;
    while i < shots.len()
        invariant
            i <= shots.len(),
            forall|j: int| 0 <= j < shots.len() ==> shot_times_ok(#[trigger] shots[j]),
            out@ == head + packed_shots(shots@, i as int),
        decreases shots.len() - i,
    {
        push_shot_block(&mut out, &shots[i]);
        i += 1;
    }
    assert(head == pack_header(*brief) + Seq::<char>::empty()) by {
        assert(pack_header(*brief) + Seq::<char>::empty() =~= pack_header(*brief));
    }
    out
}

// ---------------------------------------------------------------------------
// The director's prompts
// ---------------------------------------------------------------------------

/// The block of feedback a re-plan must address: under `heading`, the
/// critic's earlier points, then the user's own note when it is not blank.
/// The heading line itself is supplied by the caller.
pub open spec fn feedback_lines(fs: Seq<String>) -> Seq<char>
    decreases fs.len(),
{
    if fs.len() == 0 { seq![] } else { feedback_lines(fs.drop_last()) + "- "@ + fs.last()@ + "\n"@ }
}

pub open spec fn feedback_block(heading: Seq<char>, fs: Seq<String>, user: Option<String>) -> Seq<char> {
    (if fs.len() > 0 { heading + feedback_lines(fs) } else { ""@ })
        + match user {
            Some(u) if trim(u@).len() > 0 => "\n## Human feedback — prioritize this:\n- "@ + u@ + "\n"@,
            _ => ""@,
        }
}

pub fn build_feedback_block(heading: &str, fs: &Vec<String>, user: &Option<String>) -> (r: String)
    ensures
        r@ == feedback_block(heading@, fs@, *user),
{
    let mut out = String::new();
    proof {
        reveal_strlit("");
    }
    if fs.len() > 0 {
        push_str(&mut out, heading);
        let ghost head = out@;
        let mut i: usize = 0;
        while i < fs.len()
            invariant
                i <= fs.len(),
                out@ == head + feedback_lines(fs@.take(i as int)),
            decreases fs.len() - i,
        {
            push_str(&mut out, "- ");
            push_str(&mut out, fs[i].as_str());
            push_str(&mut out, "\n");
            proof {
                assert(fs@.take(i + 1).drop_last() =~= fs@.take(i as int));
            }
            i += 1;
        }
        assert(fs@.take(fs.len() as int) =~= fs@);
    }
    let ghost first = out@;
    assert(first == (if fs.len() > 0 { heading@ + feedback_lines(fs@) } else { ""@ }));
    let mut added = false;
    if let Some(u) = user {
        let t = str_trim(u.as_str());
        if !t.as_str().is_empty() {
            push_str(&mut out, "\n## Human feedback — prioritize this:\n- ");
            push_str(&mut out, u.as_str());
            push_str(&mut out, "\n");
            added = true;
        }
    }
    if !added {
        assert(out@ =~= first + ""@);
    }
    out
}

/// The request that follows the packed transcript.
pub open spec fn director_request(packed_text: Seq<char>, feedback: Seq<char>, target: int) -> Seq<char> {
    packed_text + "\n\nFOOTAGE INDEX:\n"@ + feedback + "\n\nProduce the EditPlan now. Total cut length must land near "@
        + int_decimal(target) + "s."@
}

pub fn director_user_prompt(packed_text: &str, feedback: &str, brief: &NovaEditBrief) -> (r: String)
    ensures
        r@ == director_request(packed_text@, feedback@, target_secs(brief.duration_seconds as int)),
{
    let target: i32 = if brief.duration_seconds < 5 { 5 } else { brief.duration_seconds };
    let mut out = owned(packed_text);
    push_str(&mut out, "\n\nFOOTAGE INDEX:\n");
    push_str(&mut out, feedback);
    push_str(&mut out, "\n\nProduce the EditPlan now. Total cut length must land near ");
    push_int(&mut out, target as i64);
    push_str(&mut out, "s.");
    out
}

// ---------------------------------------------------------------------------
// Rendering a cut
// ---------------------------------------------------------------------------

/// The font size of an on-screen text: 5% of the height, at least 36.
pub open spec fn overlay_font(height: nat) -> nat {
    let f = (height * 5 + 50) / 100;
    if f < 36 { 36 } else { f }
}

/// The filter of one rendered cut: fit into the canvas with padding, and the
/// on-screen text (read from `text_file`) when there is one.
pub open spec fn segment_filter(width: nat, height: nat, text_file: Option<Seq<char>>) -> Seq<char> {
    "scale="@ + decimal(width) + ":"@ + decimal(height) + ":force_original_aspect_ratio=decrease,pad="@
        + decimal(width) + ":"@ + decimal(height) + ":(ow-iw)/2:(oh-ih)/2,setsar=1"@
        + match text_file {
            Some(f) => ",drawtext=textfile='"@ + filter_path(f) + "':fontcolor=white:fontsize="@ + decimal(overlay_font(height))
                + ":box=1:boxcolor=black@0.6:boxborderw=18:x=(w-text_w)/2:y=h-320"@,
            None => ""@,
        }
}

/// The ffmpeg arguments that render one cut: from `start` for `len`
/// milliseconds (at least 400), with 30 ms audio fades at both ends.
pub open spec fn segment_args(source: Seq<char>, start: nat, len: nat, filter: Seq<char>, output: Seq<char>) -> Seq<Seq<char>> {
    let d = if len < 400 { 400 } else { len };
    let fade = if d >= 30 { (d - 30) as nat } else { 0 };
    seq!["-y"@, "-ss"@, secs3(start), "-i"@, source, "-t"@, secs3(d), "-vf"@, filter,
        "-af"@, "afade=t=in:st=0:d=0.03,afade=t=out:st="@ + secs3(fade) + ":d=0.03"@,
        "-c:v"@, "libx264"@, "-preset"@, "fast"@, "-crf"@, "20"@, "-pix_fmt"@, "yuv420p"@,
        "-c:a"@, "aac"@, "-b:a"@, "192k"@, "-ar"@, "48000"@, "-movflags"@, "+faststart"@, output]
}

fn segment_filter_string(width: u32, height: u32, text_file: Option<&str>) -> (vf: String)
    ensures
        vf@ == segment_filter(width as nat, height as nat, match text_file { Some(f) => Some(f@), None => None }),
{
    let mut vf = owned("scale=");
    push_nat(&mut vf, width as u64);
    push_str(&mut vf, ":");
    push_nat(&mut vf, height as u64);
    push_str(&mut vf, ":force_original_aspect_ratio=decrease,pad=");
    push_nat(&mut vf, width as u64);
    push_str(&mut vf, ":");
    push_nat(&mut vf, height as u64);
    push_str(&mut vf, ":(ow-iw)/2:(oh-ih)/2,setsar=1");
    let ghost base = vf@;
    match text_file {
        Some(f) => {
            let f_esc = filter_path_string(f);
            let fs = (height as u64 * 5 + 50) / 100;
            let font: u64 = if fs < 36 { 36 } else { fs };
            push_str(&mut vf, ",drawtext=textfile='");
            push_str(&mut vf, f_esc.as_str());
            push_str(&mut vf, "':fontcolor=white:fontsize=");
            push_nat(&mut vf, font);
            push_str(&mut vf, ":box=1:boxcolor=black@0.6:boxborderw=18:x=(w-text_w)/2:y=h-320");
            assert(vf@ =~= segment_filter(width as nat, height as nat, Some(f@)));
        }
        None => {
            proof {
                reveal_strlit("");
                assert(base + ""@ =~= base);
            }
            assert(vf@ =~= segment_filter(width as nat, height as nat, None));
        }
    }
    vf
}

#[verifier::rlimit(40)]
pub fn segment_render_args(source: &str, start_ms: u64, len_ms: u64, width: u32, height: u32, text_file: Option<&str>, output: &str) -> (r: Vec<String>)
    ensures
        views(r@) == segment_args(source@, start_ms as nat, len_ms as nat,
            segment_filter(width as nat, height as nat, match text_file { Some(f) => Some(f@), None => None }), output@),
{
    let vf = segment_filter_string(width, height, text_file);
    let d: u64 = if len_ms < 400 { 400 } else { len_ms };
    let fade: u64 = if d >= 30 { d - 30 } else { 0 };
    let mut af = owned("afade=t=in:st=0:d=0.03,afade=t=out:st=");
    push_secs3(&mut af, fade);
    push_str(&mut af, ":d=0.03");
    assert(af@ =~= "afade=t=in:st=0:d=0.03,afade=t=out:st="@ + secs3(fade as nat) + ":d=0.03"@);
    let ss = crate::render::secs3_string(start_ms);
    let dd = crate::render::secs3_string(d);
    let mut r: Vec<String> = Vec::new();
    push_arg(&mut r, "-y");
    push_arg(&mut r, "-ss");
    push_arg(&mut r, ss.as_str());
    push_arg(&mut r, "-i");
    push_arg(&mut r, source);
    push_arg(&mut r, "-t");
    push_arg(&mut r, dd.as_str());
    push_arg(&mut r, "-vf");
    push_arg(&mut r, vf.as_str());
    push_arg(&mut r, "-af");
    push_arg(&mut r, af.as_str());
    push_arg(&mut r, "-c:v");
    push_arg(&mut r, "libx264");
    push_arg(&mut r, "-preset");
    push_arg(&mut r, "fast");
    push_arg(&mut r, "-crf");
    push_arg(&mut r, "20");
    push_arg(&mut r, "-pix_fmt");
    push_arg(&mut r, "yuv420p");
    push_arg(&mut r, "-c:a");
    push_arg(&mut r, "aac");
    push_arg(&mut r, "-b:a");
    push_arg(&mut r, "192k");
    push_arg(&mut r, "-ar");
    push_arg(&mut r, "48000");
    push_arg(&mut r, "-movflags");
    push_arg(&mut r, "+faststart");
    push_arg(&mut r, output);
    proof {
        assert(views(r@) =~= segment_args(source@, start_ms as nat, len_ms as nat,
            segment_filter(width as nat, height as nat, match text_file { Some(f) => Some(f@), None => None }), output@));
    }
    r
}

/// One line of the lossless concat list (only single quotes are escaped).
pub open spec fn lossless_entry(path: Seq<char>) -> Seq<char> {
    "file '"@ + replace_all(path, "'"@, "'\\''"@) + "'\n"@
}

pub fn lossless_concat_line(path: &str) -> (r: String)
    ensures
        r@ == lossless_entry(path@),
{
    proof {
        reveal_strlit("'");
    }
    let q = str_replace(path, "'", "'\\''");
    let mut out = owned("file '");
    push_str(&mut out, q.as_str());
    push_str(&mut out, "'\n");
    out
}

/// The clip record's end time for an agentic cut of `total` milliseconds
/// (at least a tenth of a second): `0:SS`.
pub open spec fn cut_end_time(total: int) -> Seq<char> {
    let t = if total < 100 { 100 } else { total };
    "0:"@ + padded((t / 1000) as nat, 2)
}

pub fn cut_end_label(total_ms: i128) -> (r: String)
    requires
        total_ms < 0x1_0000_0000_0000_0000,
    ensures
        r@ == cut_end_time(total_ms as int),
{
    let t: i128 = if total_ms < 100 { 100 } else { total_ms };
    let mut out = owned("0:");
    push_pad(&mut out, (t / 1000) as u64, 2);
    out
}

// ---------------------------------------------------------------------------
// Footage preprocessing
// ---------------------------------------------------------------------------

/// Progress while footage is scanned: from 5% to 20% over the files.
pub open spec fn scan_percent(i: int, total: int) -> int {
    5 + i * 15 / (if total < 1 { 1 } else { total })
}

pub fn scan_progress(i: usize, total: usize) -> (r: i32)
    requires
        i <= total,
    ensures
        r == scan_percent(i as int, total as int),
{
    let d: usize = if total < 1 { 1 } else { total };
    assert((i as int) * 15 / (d as int) <= 15) by (nonlinear_arith)
        requires
            i <= d,
            1 <= d,
    ;
    (5 + (i as u128 * 15 / d as u128)) as i32
}

/// The vision models tried for frame descriptions, in order: the requested one
/// (the request's when it names a `vendor/model`, else the task's) first when
/// it is one of the three, then the others.
pub open spec fn vision_models() -> Seq<Seq<char>> {
    seq!["google/gemma-4-26b-a4b-it:free"@, "nvidia/nemotron-nano-12b-v2-vl:free"@, "nvidia/nemotron-3-nano-omni-30b-a3b-reasoning:free"@]
}

pub open spec fn vision_order(selected: Seq<char>) -> Seq<Seq<char>> {
    let m = vision_models();
    (if m.contains(selected) { seq![selected] } else { seq![] }) + m.filter(|x: Seq<char>| x != selected)
}

pub fn vision_providers(request_provider: &str, task_provider: &str) -> (r: Vec<&'static str>)
    ensures
        r@.map_values(|s: &str| s@) == vision_order(if contains(request_provider@, "/"@) { request_provider@ } else { task_provider@ }),
{
    let selected = if str_contains(request_provider, "/") { request_provider } else { task_provider };
    let all: [&'static str; 3] = ["google/gemma-4-26b-a4b-it:free", "nvidia/nemotron-nano-12b-v2-vl:free", "nvidia/nemotron-3-nano-omni-30b-a3b-reasoning:free"];
    let ghost m = vision_models();
    let ghost pred = |x: Seq<char>| x != selected@;
    assert(all@.map_values(|s: &str| s@) =~= m);
    let mut found = false;
    let mut r: Vec<&'static str> = Vec::new();
    let mut i: usize = 0;
    while i < 3
        invariant
            i <= 3,
            m == vision_models(),
            all@.map_values(|s: &str| s@) == m,
            found == m.take(i as int).contains(selected@),
        decreases 3 - i,
    {
        if str_eq(all[i], selected) {
            found = true;
        }
        proof {
            assert(m.take(i + 1) =~= m.take(i as int).push(m[i as int]));
            assert(m[i as int] == all@[i as int]@);
            if !found {
                assert(!m.take(i + 1).contains(selected@));
            } else {
                if m.take(i as int).contains(selected@) {
                    let k = choose|k: int| 0 <= k < i && m.take(i as int)[k] == selected@;
                    assert(m.take(i + 1)[k] == selected@);
                } else {
                    assert(m.take(i + 1)[i as int] == selected@);
                }
            }
        }
        i += 1;
    }
    assert(m.take(3) =~= m);
    if found {
        let mut k: usize = 0;
        while k < 3
            invariant
                k <= 3,
                all@.map_values(|s: &str| s@) == m,
                found,
                m.contains(selected@),
                !m.take(k as int).contains(selected@) || (r.len() == 1 && r@[0]@ == selected@),
                r.len() <= 1,
                r.len() == 1 ==> r@[0]@ == selected@,
            decreases 3 - k,
        {
            if r.len() == 0 && str_eq(all[k], selected) {
                r.push(all[k]);
            }
            proof {
                assert(m.take(k + 1) =~= m.take(k as int).push(m[k as int]));
                assert(m[k as int] == all@[k as int]@);
            }
            k += 1;
        }
        assert(m.take(3) =~= m);
    }
    assert(r@.map_values(|s: &str| s@) =~= (if m.contains(selected@) { seq![selected@] } else { Seq::<Seq<char>>::empty() }));
    let ghost head = r@.map_values(|s: &str| s@);
    let mut j: usize = 0;
    while j < 3
        invariant
            j <= 3,
            all@.map_values(|s: &str| s@) == m,
            m == vision_models(),
            pred == (|x: Seq<char>| x != selected@),
            r@.map_values(|s: &str| s@) == head + m.take(j as int).filter(pred),
        decreases 3 - j,
    {
        proof {
            assert(m.take(j + 1) =~= m.take(j as int).push(m[j as int]));
            m.take(j as int).lemma_filter_push(m[j as int], pred);
            assert(m[j as int] == all@[j as int]@);
        }
        let ghost before = r@;
        if !str_eq(all[j], selected) {
            r.push(all[j]);
            assert(r@.map_values(|s: &str| s@) =~= before.map_values(|s: &str| s@).push(all@[j as int]@));
        }
        j += 1;
    }
    assert(m.take(3) =~= m);
    r
}

// ---------------------------------------------------------------------------
// The director's instructions
// ---------------------------------------------------------------------------

/// How many shots the director is asked to pick, and how to pace them.
pub open spec fn shot_guidance_of(long: bool) -> Seq<char> {
    if long { "Select enough shots to cover the full story, usually 10–120 shots depending on target duration and available footage. Organize the edit into a clear beginning, middle, and ending. Use chapter-like sections when the material supports them. Allow longer 8–45s segments when they preserve context, while removing dead air and repetition. Preserve chronological and conversational continuity unless the brief calls for a montage."@ } else { "Select 3–10 shots. Build a concise social-video arc with a strong hook, useful middle, and clear ending. Keep pacing tight, usually mixing 2–4s hooks with 5–10s segments."@ }
}

pub fn shot_guidance(long: bool) -> (r: String)
    ensures
        r@ == shot_guidance_of(long),
{
    if long { owned("Select enough shots to cover the full story, usually 10–120 shots depending on target duration and available footage. Organize the edit into a clear beginning, middle, and ending. Use chapter-like sections when the material supports them. Allow longer 8–45s segments when they preserve context, while removing dead air and repetition. Preserve chronological and conversational continuity unless the brief calls for a montage.") } else { owned("Select 3–10 shots. Build a concise social-video arc with a strong hook, useful middle, and clear ending. Keep pacing tight, usually mixing 2–4s hooks with 5–10s segments.") }
}

/// The director's instructions for a brief: the brief, the rules of the cut
/// (with the shot guidance for the edit's length) and the plan's format.
pub open spec fn director_instructions(brief: NovaEditBrief) -> Seq<char> {
    "You are the DIRECTOR agent of an agentic video editor (NovaEdit). You select shots from a packed footage index and produce an EditPlan as a JSON object ONLY (no markdown, no prose).\n\nCREATIVE BRIEF:\n- Product/service: "@ + brief.product@ + "\n- Target audience: "@ + brief.audience@ + "\n- Tone: "@ + brief.tone@ + "\n- Target duration: "@ + int_decimal(target_secs(brief.duration_seconds as int)) + "s (final cut must be within ±10% of this)\n- Content format: "@ + (if long_form(brief.content_type@, brief.duration_seconds as int) { "long-form"@ } else { "short-form"@ }) + "\n\nRULES:\n1. "@ + shot_guidance_of(long_form(brief.content_type@, brief.duration_seconds as int)) + " Prefer shots with real speech for A-roll. Use B-roll/visual shots for texture.\n2. Each entry: shot_id MUST exactly match a shot id in the index (copy it verbatim). start_trim and end_trim are offsets IN SECONDS relative to that shot's start_time (start_trim < end_trim, within the shot's bounds). Pad each cut 0.1–0.3s past word boundaries to avoid clipped speech.\n3. Build a narrative arc appropriate to the format: hook/context → development → payoff/conclusion (or adapt to the material). For long-form, preserve important context and continuity instead of forcing every section into a social-media hook.\n4. Keep pacing varied and remove silence, repetition, and unusable footage without making speech feel rushed.\n5. text_overlay: optional short on-screen text (max 40 chars) for a segment, or null.\n6. position must be 0..N-1 contiguous in final order.\n\nOUTPUT FORMAT (strict JSON):\n{\"entries\":[{\"shot_id\":\"...\",\"start_trim\":0.0,\"end_trim\":3.2,\"position\":0,\"text_overlay\":null}],\"rationale\":\"one short paragraph explaining the edit choices\"}"@
}

#[verifier::rlimit(40)]
pub fn director_system_prompt(brief: &NovaEditBrief) -> (r: String)
    ensures
        r@ == director_instructions(*brief),
{
    let long = is_long_form(brief);
    let target: i32 = if brief.duration_seconds < 5 { 5 } else { brief.duration_seconds };
    let mut out = owned("You are the DIRECTOR agent of an agentic video editor (NovaEdit). You select shots from a packed footage index and produce an EditPlan as a JSON object ONLY (no markdown, no prose).\n\nCREATIVE BRIEF:\n- Product/service: ");
    push_str(&mut out, brief.product.as_str());
    push_str(&mut out, "\n- Target audience: ");
    push_str(&mut out, brief.audience.as_str());
    push_str(&mut out, "\n- Tone: ");
    push_str(&mut out, brief.tone.as_str());
    push_str(&mut out, "\n- Target duration: ");
    push_int(&mut out, target as i64);
    push_str(&mut out, "s (final cut must be within ±10% of this)\n- Content format: ");
    if long { push_str(&mut out, "long-form"); } else { push_str(&mut out, "short-form"); }
    push_str(&mut out, "\n\nRULES:\n1. ");
    let g = shot_guidance(long);
    push_str(&mut out, g.as_str());
    push_str(&mut out, " Prefer shots with real speech for A-roll. Use B-roll/visual shots for texture.\n2. Each entry: shot_id MUST exactly match a shot id in the index (copy it verbatim). start_trim and end_trim are offsets IN SECONDS relative to that shot's start_time (start_trim < end_trim, within the shot's bounds). Pad each cut 0.1–0.3s past word boundaries to avoid clipped speech.\n3. Build a narrative arc appropriate to the format: hook/context → development → payoff/conclusion (or adapt to the material). For long-form, preserve important context and continuity instead of forcing every section into a social-media hook.\n4. Keep pacing varied and remove silence, repetition, and unusable footage without making speech feel rushed.\n5. text_overlay: optional short on-screen text (max 40 chars) for a segment, or null.\n6. position must be 0..N-1 contiguous in final order.\n\nOUTPUT FORMAT (strict JSON):\n{\"entries\":[{\"shot_id\":\"...\",\"start_trim\":0.0,\"end_trim\":3.2,\"position\":0,\"text_overlay\":null}],\"rationale\":\"one short paragraph explaining the edit choices\"}");
    assert(out@ =~= director_instructions(*brief));
    out
}

// ---------------------------------------------------------------------------
// Frames shown to the vision model
// ---------------------------------------------------------------------------

/// The still taken from shot `index`: `frame_NNNN.jpg`.
pub fn frame_file_name(index: u64) -> (r: String)
    ensures
        r@ == "frame_"@ + padded(index as nat, 4) + ".jpg"@,
{
    let mut out = owned("frame_");
    push_pad(&mut out, index, 4);
    push_str(&mut out, ".jpg");
    out
}

/// The caption put before a frame in the vision request.
pub fn frame_label(index: u64) -> (r: String)
    ensures
        r@ == "Frame shot_"@ + decimal(index as nat) + ":"@,
{
    let mut out = owned("Frame shot_");
    push_nat(&mut out, index);
    push_str(&mut out, ":");
    out
}

/// A JPEG frame as a `data:` URL, its bytes in standard Base64.
pub fn frame_data_url(jpeg: &Vec<u8>) -> (r: String)
    ensures
        r@ == crate::codec::data_url("image/jpeg"@, crate::codec::b64_encode(jpeg@)),
{
    let b64 = crate::codec::base64_encode(jpeg);
    crate::codec::image_data_url("image/jpeg", b64.as_str())
}

/// The instruction at the head of each batch of frames.
pub fn vision_instruction() -> (r: String)
    ensures
        r@ == "Analyze the numbered video frames. Return strict JSON only in the form {\"frames\":[{\"frame_id\":\"shot_0\",\"description\":\"...\",\"shot_type\":\"...\",\"visual_quality\":0.0}]}. Do not invent details."@,
{
    owned("Analyze the numbered video frames. Return strict JSON only in the form {\"frames\":[{\"frame_id\":\"shot_0\",\"description\":\"...\",\"shot_type\":\"...\",\"visual_quality\":0.0}]}. Do not invent details.")
}

/// The frames are sent twelve at a time: the batch starting at `start` ends
/// before `min(start + 12, n)`.
pub fn frame_batch_end(start: usize, n: usize) -> (r: usize)
    requires
        start <= n,
    ensures
        r == (if start + 12 < n { start + 12 } else { n as int }),
{
    if n - start > 12 { start + 12 } else { n }
}

} // verus!
