//! Character-level text utilities shared by the rest of the library.
//!
//! Strings are handled through their character sequences: every function here
//! is specified over `Seq<char>`, the view of `str` and `String`.
use vstd::prelude::*;
use vstd::utf8::*;
use vstd::string::*;

verus! {

// ---------------------------------------------------------------------------
// Conversions between strings and character vectors
// ---------------------------------------------------------------------------

/// Collects the characters of a string slice into a vector.
pub fn chars_of(s: &str) -> (out: Vec<char>)
    ensures
        out@ == s@,
{
    let mut out: Vec<char> = Vec::new();
    for c in it: s.chars()
        invariant
            out@ == it.seq().take(it.index() as int),
    {
        out.push(c);
    }
    out
}

/// `String::push`: appends one character.
#[verifier::external_body]
pub(crate) fn push_char(s: &mut String, c: char)
    ensures
        final(s)@ == old(s)@.push(c),
{
    s.push(c);
}

/// Appends every character of `cs` to `out`.
pub fn push_chars(out: &mut String, cs: &Vec<char>)
    ensures
        final(out)@ == old(out)@ + cs@,
{
    let mut i: usize = 0;
    while i < cs.len()
        invariant
            i <= cs.len(),
            out@ == old(out)@ + cs@.take(i as int),
        decreases cs.len() - i,
    {
        push_char(out, cs[i]);
        i += 1;
        assert(cs@.take(i as int) == cs@.take(i - 1).push(cs@[i - 1]));
    }
    assert(cs@.take(cs.len() as int) == cs@);
}

/// Appends a string slice to `out`.
pub fn push_str(out: &mut String, s: &str)
    ensures
        final(out)@ == old(out)@ + s@,
{
    let cs = chars_of(s);
    push_chars(out, &cs);
}

/// Builds a string from a vector of characters.
pub fn string_of(cs: &Vec<char>) -> (out: String)
    ensures
        out@ == cs@,
{
    let mut out = String::new();
    push_chars(&mut out, cs);
    out
}

/// Copies a string slice into an owned string.
pub fn owned(s: &str) -> (out: String)
    ensures
        out@ == s@,
{
    let mut out = String::new();
    push_str(&mut out, s);
    out
}

// ---------------------------------------------------------------------------
// Character classes
// ---------------------------------------------------------------------------

/// Unicode `White_Space`, the property behind `char::is_whitespace`.
pub open spec fn is_ws(c: char) -> bool {
    let u = c as u32;
    (0x9 <= u && u <= 0xD) || u == 0x20 || u == 0x85 || u == 0xA0 || u == 0x1680
        || (0x2000 <= u && u <= 0x200A) || u == 0x2028 || u == 0x2029 || u == 0x202F
        || u == 0x205F || u == 0x3000
}

/// Whether `c` is a Unicode white-space character.
pub fn is_whitespace(c: char) -> (b: bool)
    ensures
        b == is_ws(c),
{
    let u = c as u32;
    (0x9 <= u && u <= 0xD) || u == 0x20 || u == 0x85 || u == 0xA0 || u == 0x1680
        || (0x2000 <= u && u <= 0x200A) || u == 0x2028 || u == 0x2029 || u == 0x202F
        || u == 0x205F || u == 0x3000
}

pub open spec fn is_ascii_char(c: char) -> bool {
    (c as u32) < 0x80
}

pub open spec fn all_ascii(s: Seq<char>) -> bool {
    forall|i: int| 0 <= i < s.len() ==> is_ascii_char(#[trigger] s[i])
}

pub open spec fn is_digit(c: char) -> bool {
    '0' <= c && c <= '9'
}

pub open spec fn digit_value(c: char) -> nat {
    (c as u32 - '0' as u32) as nat
}

// ---------------------------------------------------------------------------
// Prefixes, suffixes, search
// ---------------------------------------------------------------------------

pub open spec fn starts_with(s: Seq<char>, p: Seq<char>) -> bool {
    p.len() <= s.len() && s.take(p.len() as int) == p
}

pub open spec fn ends_with(s: Seq<char>, p: Seq<char>) -> bool {
    p.len() <= s.len() && s.skip(s.len() - p.len()) == p
}

/// `p` occurs in `s` starting at position `i`.
pub open spec fn occurs_at(s: Seq<char>, p: Seq<char>, i: int) -> bool {
    0 <= i && i + p.len() <= s.len() && s.subrange(i, i + p.len()) == p
}

pub open spec fn contains(s: Seq<char>, p: Seq<char>) -> bool {
    exists|i: int| occurs_at(s, p, i)
}

/// Whether `s` begins with `p` at offset `at`.
pub fn matches_at(s: &Vec<char>, p: &Vec<char>, at: usize) -> (b: bool)
    ensures
        b == occurs_at(s@, p@, at as int),
{
    if at > s.len() || p.len() > s.len() - at {
        return false;
    }
    let mut k: usize = 0;
    while k < p.len()
        invariant
            at + p.len() <= s.len(),
            k <= p.len(),
            forall|j: int| 0 <= j < k ==> s@[at + j] == p@[j],
        decreases p.len() - k,
    {
        if s[at + k] != p[k] {
            assert(s@.subrange(at as int, at + p.len())[k as int] != p@[k as int]);
            return false;
        }
        k += 1;
    }
    assert(s@.subrange(at as int, at + p.len()) =~= p@);
    true
}

pub fn has_prefix(s: &Vec<char>, p: &Vec<char>) -> (b: bool)
    ensures
        b == starts_with(s@, p@),
{
    let b = matches_at(s, p, 0);
    proof {
        if p@.len() <= s@.len() {
            assert(s@.subrange(0, p@.len() as int) == s@.take(p@.len() as int));
        }
    }
    b
}

pub fn has_suffix(s: &Vec<char>, p: &Vec<char>) -> (b: bool)
    ensures
        b == ends_with(s@, p@),
{
    if p.len() > s.len() {
        return false;
    }
    let b = matches_at(s, p, s.len() - p.len());
    proof {
        assert(s@.subrange(s@.len() - p@.len(), s@.len() as int) == s@.skip(s@.len() - p@.len()));
    }
    b
}

/// Whether `p` occurs anywhere in `s`.
pub fn find_in(s: &Vec<char>, p: &Vec<char>) -> (b: bool)
    ensures
        b == contains(s@, p@),
{
    if p.len() == 0 {
        assert(s@.subrange(0, 0) =~= p@);
        assert(occurs_at(s@, p@, 0));
        return true;
    }
    if p.len() > s.len() {
        return false;
    }
    let mut i: usize = 0;
    while i <= s.len() - p.len()
        invariant
            1 <= p.len() <= s.len(),
            i <= s.len() - p.len() + 1,
            forall|j: int| 0 <= j < i ==> !occurs_at(s@, p@, j),
        decreases s.len() - p.len() + 1 - i,
    {
        if matches_at(s, p, i) {
            return true;
        }
        i += 1;
    }
    assert forall|j: int| !occurs_at(s@, p@, j) by {
        if 0 <= j && j < i {
        }
    }
    false
}

pub fn str_contains(s: &str, p: &str) -> (b: bool)
    ensures
        b == contains(s@, p@),
{
    let sv = chars_of(s);
    let pv = chars_of(p);
    find_in(&sv, &pv)
}

pub fn str_starts_with(s: &str, p: &str) -> (b: bool)
    ensures
        b == starts_with(s@, p@),
{
    let sv = chars_of(s);
    let pv = chars_of(p);
    has_prefix(&sv, &pv)
}

pub fn str_ends_with(s: &str, p: &str) -> (b: bool)
    ensures
        b == ends_with(s@, p@),
{
    let sv = chars_of(s);
    let pv = chars_of(p);
    has_suffix(&sv, &pv)
}

/// String equality on character sequences.
pub fn str_eq(a: &str, b: &str) -> (r: bool)
    ensures
        r == (a@ == b@),
{
    let av = chars_of(a);
    let bv = chars_of(b);
    if av.len() != bv.len() {
        return false;
    }
    let r = has_prefix(&av, &bv);
    proof {
        assert(av@.take(bv@.len() as int) =~= av@);
    }
    r
}


// ---------------------------------------------------------------------------
// Trimming
// ---------------------------------------------------------------------------

/// `str::trim_start`: drops leading white space.
pub open spec fn trim_start(s: Seq<char>) -> Seq<char>
    decreases s.len(),
{
    if s.len() > 0 && is_ws(s[0]) {
        trim_start(s.drop_first())
    } else {
        s
    }
}

/// `str::trim_end`: drops trailing white space.
pub open spec fn trim_end(s: Seq<char>) -> Seq<char>
    decreases s.len(),
{
    if s.len() > 0 && is_ws(s.last()) {
        trim_end(s.drop_last())
    } else {
        s
    }
}

/// `str::trim`.
pub open spec fn trim(s: Seq<char>) -> Seq<char> {
    trim_end(trim_start(s))
}

proof fn lemma_trim_start_skip(s: Seq<char>, i: int)
    requires
        0 <= i <= s.len(),
        forall|j: int| 0 <= j < i ==> is_ws(#[trigger] s[j]),
    ensures
        trim_start(s) == trim_start(s.skip(i)),
    decreases i,
{
    if i > 0 {
        assert(s.drop_first().skip(i - 1) =~= s.skip(i));
        lemma_trim_start_skip(s.drop_first(), i - 1);
    } else {
        assert(s.skip(0) =~= s);
    }
}

proof fn lemma_trim_end_take(s: Seq<char>, i: int)
    requires
        0 <= i <= s.len(),
        forall|j: int| i <= j < s.len() ==> is_ws(#[trigger] s[j]),
    ensures
        trim_end(s) == trim_end(s.take(i)),
    decreases s.len() - i,
{
    if i < s.len() {
        assert(s.drop_last().take(i) =~= s.take(i));
        lemma_trim_end_take(s.drop_last(), i);
    } else {
        assert(s.take(i) =~= s);
    }
}

/// Trims white space from both ends of a character vector.
pub fn trim_chars(s: &Vec<char>) -> (out: Vec<char>)
    ensures
        out@ == trim(s@),
{
    let mut i: usize = 0;
    while i < s.len() && is_whitespace(s[i])
        invariant
            i <= s.len(),
            forall|j: int| 0 <= j < i ==> is_ws(#[trigger] s@[j]),
        decreases s.len() - i,
    {
        i += 1;
    }
    proof {
        lemma_trim_start_skip(s@, i as int);
    }
    let ghost t = s@.skip(i as int);
    let mut e: usize = s.len();
    while e > i && is_whitespace(s[e - 1])
        invariant
            i <= e <= s.len(),
            t == s@.skip(i as int),
            forall|j: int| e - i <= j < t.len() ==> is_ws(#[trigger] t[j]),
        decreases e,
    {
        e -= 1;
    }
    proof {
        lemma_trim_end_take(t, e - i);
        let k = e - i;
        if k > 0 {
            assert(!is_ws(t.take(k as int).last()));
        }
        assert(trim_start(t) == t);
    }
    let mut out: Vec<char> = Vec::new();
    let mut k: usize = i;
    while k < e
        invariant
            i <= k <= e <= s.len(),
            out@ == s@.subrange(i as int, k as int),
        decreases e - k,
    {
        out.push(s[k]);
        k += 1;
    }
    proof {
        assert(out@ =~= t.take(e - i));
        let tt = t.take(e - i);
        if tt.len() > 0 {
            assert(!is_ws(tt.last()));
        }
        assert(trim_start(s@) == t);
        assert(trim_end(t) == trim_end(tt));
        assert(trim_end(tt) == tt);
    }
    out
}

/// `str::trim` on a string slice.
pub fn str_trim(s: &str) -> (out: String)
    ensures
        out@ == trim(s@),
{
    let cs = chars_of(s);
    let t = trim_chars(&cs);
    string_of(&t)
}

/// `str::trim_start_matches` with a string pattern: strips `p` from the front
/// as many times as it occurs there.
pub open spec fn trim_start_matches(s: Seq<char>, p: Seq<char>) -> Seq<char>
    decreases s.len(),
{
    if p.len() > 0 && starts_with(s, p) {
        trim_start_matches(s.skip(p.len() as int), p)
    } else {
        s
    }
}

/// `str::trim_end_matches` with a string pattern.
pub open spec fn trim_end_matches(s: Seq<char>, p: Seq<char>) -> Seq<char>
    decreases s.len(),
{
    if p.len() > 0 && ends_with(s, p) {
        trim_end_matches(s.take(s.len() - p.len()), p)
    } else {
        s
    }
}

pub fn trim_start_matches_chars(s: &Vec<char>, p: &Vec<char>) -> (out: Vec<char>)
    ensures
        out@ == trim_start_matches(s@, p@),
{
    let mut cur = s.clone();
    if p.len() == 0 {
        return cur;
    }
    while has_prefix(&cur, p)
        invariant
            p@.len() > 0,
            trim_start_matches(s@, p@) == trim_start_matches(cur@, p@),
        decreases cur@.len(),
    {
        let mut next: Vec<char> = Vec::new();
        let mut k: usize = p.len();
        while k < cur.len()
            invariant
                p.len() <= k <= cur.len(),
                next@ == cur@.subrange(p.len() as int, k as int),
            decreases cur.len() - k,
        {
            next.push(cur[k]);
            k += 1;
        }
        assert(next@ =~= cur@.skip(p@.len() as int));
        cur = next;
    }
    cur
}

pub fn trim_end_matches_chars(s: &Vec<char>, p: &Vec<char>) -> (out: Vec<char>)
    ensures
        out@ == trim_end_matches(s@, p@),
{
    let mut cur = s.clone();
    if p.len() == 0 {
        return cur;
    }
    while has_suffix(&cur, p)
        invariant
            p@.len() > 0,
            trim_end_matches(s@, p@) == trim_end_matches(cur@, p@),
        decreases cur@.len(),
    {
        let keep = cur.len() - p.len();
        let mut next: Vec<char> = Vec::new();
        let mut k: usize = 0;
        while k < keep
            invariant
                keep <= cur.len(),
                k <= keep,
                next@ == cur@.take(k as int),
            decreases keep - k,
        {
            next.push(cur[k]);
            k += 1;
        }
        cur = next;
    }
    cur
}

// ---------------------------------------------------------------------------
// Replacement and splitting
// ---------------------------------------------------------------------------

/// `str::replace` for a non-empty pattern: every non-overlapping occurrence of
/// `p`, scanning from the left, is replaced by `r`.
pub open spec fn replace_all(s: Seq<char>, p: Seq<char>, r: Seq<char>) -> Seq<char>
    recommends
        p.len() > 0,
    decreases s.len(),
{
    if p.len() == 0 || s.len() == 0 {
        s
    } else if starts_with(s, p) {
        r + replace_all(s.skip(p.len() as int), p, r)
    } else {
        seq![s[0]] + replace_all(s.drop_first(), p, r)
    }
}

proof fn lemma_replace_match(s: Seq<char>, p: Seq<char>, r: Seq<char>, i: int)
    requires
        p.len() > 0,
        occurs_at(s, p, i),
    ensures
        replace_all(s.skip(i), p, r) == r + replace_all(s.skip(i + p.len()), p, r),
{
    let rest = s.skip(i);
    assert(rest.take(p.len() as int) =~= s.subrange(i, i + p.len()));
    assert(rest.skip(p.len() as int) =~= s.skip(i + p.len()));
}

proof fn lemma_replace_no_match(s: Seq<char>, p: Seq<char>, r: Seq<char>, i: int)
    requires
        p.len() > 0,
        0 <= i < s.len(),
        !occurs_at(s, p, i),
    ensures
        replace_all(s.skip(i), p, r) == seq![s[i]] + replace_all(s.skip(i + 1), p, r),
{
    let rest = s.skip(i);
    if p.len() <= rest.len() {
        assert(rest.take(p.len() as int) =~= s.subrange(i, i + p.len()));
    }
    assert(rest.drop_first() =~= s.skip(i + 1));
}

pub fn replace_chars(s: &Vec<char>, p: &Vec<char>, r: &Vec<char>) -> (out: Vec<char>)
    requires
        p@.len() > 0,
    ensures
        out@ == replace_all(s@, p@, r@),
{
    let mut out: Vec<char> = Vec::new();
    let mut i: usize = 0;
    assert(s@.skip(0) =~= s@);
    assert(out@ + replace_all(s@, p@, r@) =~= replace_all(s@, p@, r@));
    while i < s.len()
        invariant
            p@.len() > 0,
            i <= s.len(),
            out@ + replace_all(s@.skip(i as int), p@, r@) == replace_all(s@, p@, r@),
        decreases s.len() - i,
    {
        let ghost base = out@;
        if matches_at(s, p, i) {
            proof {
                lemma_replace_match(s@, p@, r@, i as int);
            }
            let mut k: usize = 0;
            while k < r.len()
                invariant
                    k <= r.len(),
                    out@ == base + r@.take(k as int),
                decreases r.len() - k,
            {
                out.push(r[k]);
                k += 1;
                assert(r@.take(k as int) =~= r@.take(k - 1).push(r@[k - 1]));
            }
            proof {
                assert(r@.take(r@.len() as int) =~= r@);
                let tail = replace_all(s@.skip(i + p@.len()), p@, r@);
                assert(base + (r@ + tail) =~= (base + r@) + tail);
            }
            i += p.len();
        } else {
            proof {
                lemma_replace_no_match(s@, p@, r@, i as int);
                let tail = replace_all(s@.skip(i + 1), p@, r@);
                assert(base + (seq![s@[i as int]] + tail) =~= base.push(s@[i as int]) + tail);
            }
            out.push(s[i]);
            i += 1;
        }
    }
    proof {
        assert(s@.skip(i as int).len() == 0);
        assert(out@ + replace_all(s@.skip(i as int), p@, r@) =~= out@);
    }
    out
}

/// `str::replace` on string slices, for a non-empty pattern.
pub fn str_replace(s: &str, p: &str, r: &str) -> (out: String)
    requires
        p@.len() > 0,
    ensures
        out@ == replace_all(s@, p@, r@),
{
    let sv = chars_of(s);
    let pv = chars_of(p);
    let rv = chars_of(r);
    let o = replace_chars(&sv, &pv, &rv);
    string_of(&o)
}

/// Position of the first `c` in `s`, or -1.
pub open spec fn index_of_char(s: Seq<char>, c: char) -> int
    decreases s.len(),
{
    if s.len() == 0 {
        -1
    } else if s[0] == c {
        0
    } else {
        let r = index_of_char(s.drop_first(), c);
        if r < 0 {
            -1
        } else {
            r + 1
        }
    }
}

pub proof fn lemma_index_of_char(s: Seq<char>, c: char, k: int)
    requires
        0 <= k <= s.len(),
        forall|j: int| 0 <= j < k ==> s[j] != c,
        k == s.len() || s[k] == c,
    ensures
        index_of_char(s, c) == (if k == s.len() { -1 } else { k }),
    decreases k,
{
    if k > 0 {
        lemma_index_of_char(s.drop_first(), c, k - 1);
    }
}

/// `str::split` on one character: the pieces between occurrences of `c`.
pub open spec fn split_char(s: Seq<char>, c: char) -> Seq<Seq<char>>
    decreases s.len(),
{
    let k = index_of_char(s, c);
    if k < 0 {
        seq![s]
    } else {
        proof {
            lemma_index_of_char_range(s, c);
        }
        seq![s.take(k)] + split_char(s.skip(k + 1), c)
    }
}

pub proof fn lemma_index_of_char_range(s: Seq<char>, c: char)
    ensures
        -1 <= index_of_char(s, c) < s.len(),
        index_of_char(s, c) >= 0 ==> s[index_of_char(s, c)] == c,
        forall|j: int| 0 <= j < index_of_char(s, c) ==> s[j] != c,
        index_of_char(s, c) < 0 ==> forall|j: int| 0 <= j < s.len() ==> s[j] != c,
    decreases s.len(),
{
    if s.len() > 0 && s[0] != c {
        lemma_index_of_char_range(s.drop_first(), c);
        let r = index_of_char(s.drop_first(), c);
        assert forall|j: int| 0 <= j < index_of_char(s, c) implies s[j] != c by {
            if j > 0 {
                assert(s[j] == s.drop_first()[j - 1]);
            }
        }
        if r < 0 {
            assert forall|j: int| 0 <= j < s.len() implies s[j] != c by {
                if j > 0 {
                    assert(s[j] == s.drop_first()[j - 1]);
                }
            }
        }
    }
}

/// Splits a character vector on every occurrence of `c`.
pub fn split_on(s: &Vec<char>, c: char) -> (out: Vec<Vec<char>>)
    ensures
        out.len() == split_char(s@, c).len(),
        forall|i: int| 0 <= i < out.len() ==> #[trigger] out[i]@ == split_char(s@, c)[i],
{
    let mut out: Vec<Vec<char>> = Vec::new();
    let mut piece: Vec<char> = Vec::new();
    let mut start: usize = 0;
    assert(s@.skip(0) =~= s@);
    let mut i: usize = 0;
    while i < s.len()
        invariant
            start <= i <= s.len(),
            piece@ == s@.subrange(start as int, i as int),
            forall|j: int| start <= j < i ==> s@[j] != c,
            split_char(s@, c) =~= Seq::new(out.len() as nat, |k: int| out[k]@) + split_char(s@.skip(start as int), c),
        decreases s.len() - i,
    {
        if s[i] == c {
            proof {
                let rest = s@.skip(start as int);
                lemma_index_of_char(rest, c, i - start);
                assert(rest.take(i - start) =~= piece@);
                assert(rest.skip(i - start + 1) =~= s@.skip(i + 1));
            }
            let ghost before = Seq::new(out.len() as nat, |k: int| out[k]@);
            out.push(piece);
            piece = Vec::new();
            proof {
                assert(Seq::new(out.len() as nat, |k: int| out[k]@) =~= before.push(s@.subrange(start as int, i as int)));
            }
            start = i + 1;
        } else {
            piece.push(s[i]);
        }
        i += 1;
    }
    proof {
        let rest = s@.skip(start as int);
        lemma_index_of_char(rest, c, rest.len() as int);
        assert(piece@ =~= rest);
    }
    let ghost before = Seq::new(out.len() as nat, |k: int| out[k]@);
    out.push(piece);
    proof {
        assert(Seq::new(out.len() as nat, |k: int| out[k]@) =~= before.push(s@.skip(start as int)));
    }
    out
}

// ---------------------------------------------------------------------------
// White-space separated words
// ---------------------------------------------------------------------------

pub proof fn lemma_trim_start_shape(s: Seq<char>)
    ensures
        trim_start(s).len() <= s.len(),
        trim_start(s) == s.skip(s.len() - trim_start(s).len()),
        trim_start(s).len() > 0 ==> !is_ws(trim_start(s)[0]),
        forall|j: int| 0 <= j < s.len() - trim_start(s).len() ==> is_ws(#[trigger] s[j]),
    decreases s.len(),
{
    if s.len() > 0 && is_ws(s[0]) {
        lemma_trim_start_shape(s.drop_first());
        let t = trim_start(s.drop_first());
        assert(s.drop_first().skip(s.drop_first().len() - t.len()) =~= s.skip(s.len() - t.len()));
        assert forall|j: int| 0 <= j < s.len() - trim_start(s).len() implies is_ws(#[trigger] s[j]) by {
            if j > 0 {
                assert(s[j] == s.drop_first()[j - 1]);
            }
        }
    } else {
        assert(s.skip(0) =~= s);
    }
}

/// Length of the leading run of non-white-space characters.
pub open spec fn word_len(s: Seq<char>) -> nat
    decreases s.len(),
{
    if s.len() == 0 || is_ws(s[0]) {
        0
    } else {
        1 + word_len(s.drop_first())
    }
}

pub proof fn lemma_word_len(s: Seq<char>)
    ensures
        word_len(s) <= s.len(),
        forall|j: int| 0 <= j < word_len(s) ==> !is_ws(#[trigger] s[j]),
        word_len(s) < s.len() ==> is_ws(s[word_len(s) as int]),
    decreases s.len(),
{
    if s.len() > 0 && !is_ws(s[0]) {
        lemma_word_len(s.drop_first());
        assert forall|j: int| 0 <= j < word_len(s) implies !is_ws(#[trigger] s[j]) by {
            if j > 0 {
                assert(s[j] == s.drop_first()[j - 1]);
            }
        }
    }
}

pub proof fn lemma_word_len_of(s: Seq<char>, k: int)
    requires
        0 <= k <= s.len(),
        forall|j: int| 0 <= j < k ==> !is_ws(#[trigger] s[j]),
        k == s.len() || is_ws(s[k]),
    ensures
        word_len(s) == k,
    decreases k,
{
    if k > 0 {
        lemma_word_len_of(s.drop_first(), k - 1);
    }
}

/// `str::split_whitespace`: the maximal runs of non-white-space characters.
pub open spec fn words(s: Seq<char>) -> Seq<Seq<char>>
    decreases s.len(),
{
    let t = trim_start(s);
    if t.len() == 0 {
        seq![]
    } else {
        proof {
            lemma_trim_start_shape(s);
            lemma_word_len(t);
        }
        let k = word_len(t) as int;
        seq![t.take(k)] + words(t.skip(k))
    }
}

/// Splits a character vector into its white-space separated words.
pub fn split_words(s: &Vec<char>) -> (out: Vec<Vec<char>>)
    ensures
        out.len() == words(s@).len(),
        forall|i: int| 0 <= i < out.len() ==> #[trigger] out[i]@ == words(s@)[i],
{
    let mut out: Vec<Vec<char>> = Vec::new();
    let mut i: usize = 0;
    assert(s@.skip(0) =~= s@);
    while i < s.len()
        invariant
            i <= s.len(),
            words(s@) =~= Seq::new(out.len() as nat, |k: int| out[k]@) + words(s@.skip(i as int)),
        decreases s.len() - i,
    {
        let ghost rest = s@.skip(i as int);
        let mut j: usize = i;
        while j < s.len() && is_whitespace(s[j])
            invariant
                i <= j <= s.len(),
                forall|m: int| i <= m < j ==> is_ws(#[trigger] s@[m]),
            decreases s.len() - j,
        {
            j += 1;
        }
        proof {
            lemma_trim_start_skip(rest, j - i);
            assert(rest.skip(j - i) =~= s@.skip(j as int));
            lemma_trim_start_shape(s@.skip(j as int));
            if j < s.len() {
                assert(!is_ws(s@.skip(j as int)[0]));
            }
            assert(trim_start(s@.skip(j as int)) == s@.skip(j as int));
        }
        if j == s.len() {
            proof {
                assert(trim_start(rest).len() == 0);
                assert(words(rest) =~= Seq::<Seq<char>>::empty());
                assert(s@.skip(s.len() as int).len() == 0);
                assert(words(s@.skip(s.len() as int)) =~= Seq::<Seq<char>>::empty());
            }
            i = j;
        } else {
            let mut w: Vec<char> = Vec::new();
            let mut e: usize = j;
            while e < s.len() && !is_whitespace(s[e])
                invariant
                    j <= e <= s.len(),
                    w@ == s@.subrange(j as int, e as int),
                    forall|m: int| j <= m < e ==> !is_ws(#[trigger] s@[m]),
                decreases s.len() - e,
            {
                w.push(s[e]);
                e += 1;
            }
            proof {
                let t = s@.skip(j as int);
                lemma_word_len_of(t, e - j);
                assert(t.take(e - j) =~= w@);
                assert(t.skip(e - j) =~= s@.skip(e as int));
            }
            let ghost before = Seq::new(out.len() as nat, |k: int| out[k]@);
            out.push(w);
            proof {
                assert(Seq::new(out.len() as nat, |k: int| out[k]@) =~= before.push(s@.subrange(j as int, e as int)));
            }
            i = e;
        }
    }
    out
}

// ---------------------------------------------------------------------------
// Decimal numbers
// ---------------------------------------------------------------------------

pub open spec fn digit_char(d: nat) -> char {
    seq!['0', '1', '2', '3', '4', '5', '6', '7', '8', '9'][d as int]
}

/// The decimal representation of `n`, as `Display` writes it.
pub open spec fn decimal(n: nat) -> Seq<char>
    decreases n,
{
    if n < 10 {
        seq![digit_char(n)]
    } else {
        decimal(n / 10).push(digit_char(n % 10))
    }
}

/// `decimal(n)` left-padded with zeros to at least `width` characters, as
/// `{:0width$}` writes it.
pub open spec fn padded(n: nat, width: nat) -> Seq<char> {
    let d = decimal(n);
    if d.len() >= width {
        d
    } else {
        Seq::new((width - d.len()) as nat, |i: int| '0') + d
    }
}

fn digit(d: u64) -> (c: char)
    requires
        d < 10,
    ensures
        c == digit_char(d as nat),
{
    if d == 0 { '0' } else if d == 1 { '1' } else if d == 2 { '2' } else if d == 3 { '3' }
    else if d == 4 { '4' } else if d == 5 { '5' } else if d == 6 { '6' } else if d == 7 { '7' }
    else if d == 8 { '8' } else { '9' }
}

/// Appends the decimal representation of `n`.
pub fn push_decimal(out: &mut Vec<char>, n: u64)
    ensures
        final(out)@ == old(out)@ + decimal(n as nat),
    decreases n,
{
    if n >= 10 {
        push_decimal(out, n / 10);
    }
    out.push(digit(n % 10));
    proof {
        if n < 10 {
            assert(n % 10 == n);
        }
    }
}

/// Appends `n` left-padded with zeros to `width` characters.
pub fn push_padded(out: &mut Vec<char>, n: u64, width: usize)
    ensures
        final(out)@ == old(out)@ + padded(n as nat, width as nat),
{
    let mut d: Vec<char> = Vec::new();
    push_decimal(&mut d, n);
    assert(d@ =~= decimal(n as nat));
    let mut k: usize = d.len();
    let ghost base = out@;
    while k < width
        invariant
            d.len() <= k,
            k <= width || k == d.len(),
            out@ == base + Seq::new((k - d.len()) as nat, |i: int| '0'),
        decreases width - k,
    {
        out.push('0');
        k += 1;
        assert(Seq::new((k - d.len()) as nat, |i: int| '0') =~= Seq::new((k - 1 - d.len()) as nat, |i: int| '0').push('0'));
    }
    let ghost zeros = out@;
    let mut m: usize = 0;
    while m < d.len()
        invariant
            m <= d.len(),
            out@ == zeros + d@.take(m as int),
        decreases d.len() - m,
    {
        out.push(d[m]);
        m += 1;
        assert(d@.take(m as int) =~= d@.take(m - 1).push(d@[m - 1]));
    }
    proof {
        assert(d@.take(d.len() as int) =~= d@);
        if d@.len() >= width {
            assert(Seq::new((k - d.len()) as nat, |i: int| '0') =~= Seq::<char>::empty());
            assert(out@ =~= base + decimal(n as nat));
        } else {
            assert(out@ =~= base + (Seq::new((width - d@.len()) as nat, |i: int| '0') + d@));
        }
    }
}

/// The decimal representation of `n` as a string.
pub fn decimal_string(n: u64) -> (s: String)
    ensures
        s@ == decimal(n as nat),
{
    let mut v: Vec<char> = Vec::new();
    push_decimal(&mut v, n);
    assert(v@ =~= decimal(n as nat));
    string_of(&v)
}

pub proof fn lemma_digit_char(d: nat)
    requires
        d < 10,
    ensures
        is_digit(digit_char(d)),
        digit_value(digit_char(d)) == d,
{
    let t = seq!['0', '1', '2', '3', '4', '5', '6', '7', '8', '9'];
    assert(t[0] == '0' && t[1] == '1' && t[2] == '2' && t[3] == '3' && t[4] == '4');
    assert(t[5] == '5' && t[6] == '6' && t[7] == '7' && t[8] == '8' && t[9] == '9');
}

pub proof fn lemma_decimal_digits(n: nat)
    ensures
        decimal(n).len() > 0,
        all_digits(decimal(n)),
        digits_value(decimal(n)) == n,
    decreases n,
{
    lemma_digit_char(n % 10);
    if n < 10 {
        assert(decimal(n).drop_last() =~= Seq::<char>::empty());
        assert(digits_value(Seq::<char>::empty()) == 0);
        assert(digits_value(decimal(n)) == digit_value(digit_char(n)));
    } else {
        lemma_decimal_digits(n / 10);
        let d = decimal(n);
        let q = decimal(n / 10);
        assert(d.drop_last() =~= q);
        assert forall|i: int| 0 <= i < d.len() implies is_digit(#[trigger] d[i]) by {
            if i < d.len() - 1 {
                assert(d[i] == q[i]);
            }
        }
        assert(d.last() == digit_char(n % 10));
        assert(digits_value(d) == digits_value(q) * 10 + digit_value(d.last()));
        assert((n / 10) * 10 + n % 10 == n) by (nonlinear_arith);
    }
}

/// A number below `10^k` (k at least 1) has at most `k` decimal digits.
pub proof fn lemma_decimal_len(n: nat, k: nat, bound: nat)
    requires
        k >= 1,
        n < bound,
        bound == pow10_nat(k),
    ensures
        decimal(n).len() <= k,
    decreases k,
{
    if n >= 10 {
        assert(pow10_nat(0) == 1);
        assert(pow10_nat(1) == 10);
        assert(k > 1);
        let b2 = pow10_nat((k - 1) as nat);
        assert(n / 10 < b2) by (nonlinear_arith)
            requires
                n < bound,
                bound == 10 * b2,
        ;
        lemma_decimal_len(n / 10, (k - 1) as nat, b2);
    }
}

/// `10^k`.
pub open spec fn pow10_nat(k: nat) -> nat
    decreases k,
{
    if k == 0 { 1 } else { 10 * pow10_nat((k - 1) as nat) }
}

/// Value of a run of decimal digits.
pub open spec fn digits_value(s: Seq<char>) -> nat
    decreases s.len(),
{
    if s.len() == 0 {
        0
    } else {
        digits_value(s.drop_last()) * 10 + digit_value(s.last())
    }
}

pub open spec fn all_digits(s: Seq<char>) -> bool {
    forall|i: int| 0 <= i < s.len() ==> is_digit(#[trigger] s[i])
}

/// `FromStr` for an unsigned integer type whose largest value is `max`: an
/// optional `+`, then at least one ASCII digit, with a value of at most `max`.
pub open spec fn parse_unsigned(s: Seq<char>, max: nat) -> Option<nat> {
    let body = if s.len() > 1 && s[0] == '+' { s.drop_first() } else { s };
    if body.len() > 0 && all_digits(body) && digits_value(body) <= max {
        Some(digits_value(body))
    } else {
        None
    }
}

proof fn lemma_digits_monotone(s: Seq<char>, k: int, j: int)
    requires
        0 <= k <= j <= s.len(),
        all_digits(s),
    ensures
        digits_value(s.take(k)) <= digits_value(s.take(j)),
    decreases j - k,
{
    if k < j {
        lemma_digits_monotone(s, k, j - 1);
        assert(s.take(j).drop_last() =~= s.take(j - 1));
    }
}

/// Parses an unsigned decimal number no larger than `max`.
pub fn parse_unsigned_chars(s: &Vec<char>, max: u64) -> (r: Option<u64>)
    ensures
        match parse_unsigned(s@, max as nat) {
            Some(v) => r == Some(v as u64),
            None => r.is_none(),
        },
{
    let start: usize = if s.len() > 1 && s[0] == '+' { 1 } else { 0 };
    let ghost body = if s@.len() > 1 && s@[0] == '+' { s@.drop_first() } else { s@ };
    assert(body =~= s@.skip(start as int));
    if start == s.len() {
        return None;
    }
    let mut acc: u64 = 0;
    let mut i: usize = start;
    while i < s.len()
        invariant
            start <= i <= s.len(),
            body == s@.skip(start as int),
            body == (if s@.len() > 1 && s@[0] == '+' { s@.drop_first() } else { s@ }),
            acc as nat == digits_value(body.take(i - start)),
            acc <= max,
            all_digits(body.take(i - start)),
        decreases s.len() - i,
    {
        let c = s[i];
        if !('0' <= c && c <= '9') {
            proof {
                assert(body[i - start] == c);
                assert(!is_digit(body[i - start]));
                assert(!all_digits(body));
                assert(parse_unsigned(s@, max as nat) is None);
            }
            return None;
        }
        let d = (c as u32 - '0' as u32) as u64;
        let next: u128 = acc as u128 * 10 + d as u128;
        proof {
            assert(body.take(i - start + 1).drop_last() =~= body.take(i - start));
            assert(body.take(i - start + 1).last() == c);
        }
        if next > max as u128 {
            proof {
                assert(digits_value(body.take(i - start + 1)) == acc * 10 + digit_value(c));
                assert(digit_value(c) == d);
                if all_digits(body) {
                    lemma_digits_monotone(body, i - start + 1, body.len() as int);
                    assert(body.take(body.len() as int) =~= body);
                    assert(digits_value(body) > max);
                }
                assert(parse_unsigned(s@, max as nat) is None);
            }
            return None;
        }
        acc = next as u64;
        i += 1;
        assert(all_digits(body.take(i - start)));
    }
    assert(body.take(i - start) =~= body);
    Some(acc)
}

/// Parses a string slice as an unsigned number no larger than `max`.
pub fn parse_unsigned_str(s: &str, max: u64) -> (r: Option<u64>)
    ensures
        match parse_unsigned(s@, max as nat) {
            Some(v) => r == Some(v as u64),
            None => r.is_none(),
        },
{
    let cs = chars_of(s);
    parse_unsigned_chars(&cs, max)
}

// ---------------------------------------------------------------------------
// Unicode case mapping and classes (std)
// ---------------------------------------------------------------------------

/// What `str::to_lowercase` returns for a character sequence.
pub uninterp spec fn lowercase(s: Seq<char>) -> Seq<char>;

/// What `str::to_uppercase` returns for a character sequence.
pub uninterp spec fn uppercase(s: Seq<char>) -> Seq<char>;

/// What `char::is_alphanumeric` returns.
pub uninterp spec fn alphanumeric(c: char) -> bool;

/// `str::to_lowercase`: full Unicode lower-casing. The mapping is Unicode's and
/// is named, not stated, here.
#[verifier::external_body]
pub(crate) fn to_lower(s: &str) -> (r: String)
    ensures
        r@ == lowercase(s@),
{
    s.to_lowercase()
}

/// `str::to_uppercase`: full Unicode upper-casing, named, not stated.
#[verifier::external_body]
pub(crate) fn to_upper(s: &str) -> (r: String)
    ensures
        r@ == uppercase(s@),
{
    s.to_uppercase()
}

/// `char::is_alphanumeric` (Unicode `Alphabetic` or `Numeric`), named, not
/// stated.
#[verifier::external_body]
pub(crate) fn is_alnum(c: char) -> (b: bool)
    ensures
        b == alphanumeric(c),
{
    c.is_alphanumeric()
}


// ---------------------------------------------------------------------------
// Byte offsets
// ---------------------------------------------------------------------------

/// The UTF-8 bytes of a character sequence, as `str::len` and byte slicing see them.
pub open spec fn utf8(s: Seq<char>) -> Seq<u8> {
    encode_utf8(s)
}

/// `&s[a..b]` with byte offsets, as an owned string. Byte slicing panics unless
/// both offsets lie on character boundaries, so those are required.
pub fn byte_slice(s: &str, a: usize, b: usize) -> (r: String)
    requires
        a <= b <= utf8(s@).len(),
        is_char_boundary(utf8(s@), a as int),
        is_char_boundary(utf8(s@), b as int),
    ensures
        r@ == decode_utf8(utf8(s@).subrange(a as int, b as int)),
{
    let ghost bytes = s.spec_bytes();
    proof {
        encode_utf8_valid_utf8(s@);
        valid_utf8_split(bytes, a as int);
    }
    let (_, rest) = s.split_at(a);
    let ghost rb = rest.spec_bytes();
    proof {
        assert(rb =~= bytes.subrange(a as int, bytes.len() as int));
        is_char_boundary_start_end_of_seq(rb);
        if b < bytes.len() {
            is_char_boundary_iff_not_is_continuation_byte(bytes, b as int);
            is_char_boundary_iff_not_is_continuation_byte(rb, (b - a) as int);
            assert(rb[(b - a) as int] == bytes[b as int]);
        } else {
            assert(rb.len() == b - a);
        }
        valid_utf8_split(rb, (b - a) as int);
    }
    let (mid, _) = rest.split_at(b - a);
    proof {
        assert(mid.spec_bytes() =~= bytes.subrange(a as int, b as int));
        encode_utf8_decode_utf8(mid@);
    }
    owned(mid)
}

/// The length of `s` in UTF-8 bytes, as `str::len` gives it.
pub fn byte_len(s: &str) -> (n: usize)
    ensures
        n == utf8(s@).len(),
{
    let b = s.as_bytes();
    b.len()
}

/// A string has no bytes exactly when it has no characters.
pub proof fn lemma_utf8_empty_iff(s: Seq<char>)
    ensures
        (utf8(s).len() == 0) <==> (s.len() == 0),
{
    if s.len() > 0 {
        assert(encode_scalar(s[0] as u32).len() >= 1);
        assert(utf8(s) == encode_scalar(s[0] as u32) + encode_utf8(s.drop_first()));
    }
}

/// UTF-8 encoding distributes over concatenation.
pub proof fn lemma_utf8_concat(a: Seq<char>, b: Seq<char>)
    ensures
        utf8(a + b) == utf8(a) + utf8(b),
    decreases a.len(),
{
    if a.len() == 0 {
        assert(a + b =~= b);
        assert(utf8(a) =~= Seq::<u8>::empty());
        assert(utf8(a) + utf8(b) =~= utf8(b));
    } else {
        assert((a + b).drop_first() =~= a.drop_first() + b);
        lemma_utf8_concat(a.drop_first(), b);
        assert(utf8(a + b) =~= utf8(a) + utf8(b));
    }
}

/// `str::is_char_boundary`.
pub fn char_boundary(s: &str, i: usize) -> (b: bool)
    ensures
        b == is_char_boundary(utf8(s@), i as int),
{
    s.is_char_boundary(i)
}

} // verus!
