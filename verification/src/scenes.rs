//! Scene cuts: reading the cut times out of ffmpeg's scene-detection log,
//! and turning the cuts into shots. Times are in milliseconds.
use vstd::prelude::*;
use vstd::relations::{sorted_by, total_ordering};
use crate::text::{chars_of, string_of, occurs_at, is_digit};

verus! {

broadcast use vstd::seq_lib::group_to_multiset_ensures;

// ---------------------------------------------------------------------------
// The log
// ---------------------------------------------------------------------------

/// The first place at or after `i` where `p` occurs in `s`, or -1.
pub open spec fn find_from(s: Seq<char>, p: Seq<char>, i: int) -> int
    decreases s.len() + 1 - i,
{
    if i < 0 || i + p.len() > s.len() {
        -1
    } else if occurs_at(s, p, i) {
        i
    } else {
        find_from(s, p, i + 1)
    }
}

/// The longest run of digits and dots at the front of `s`.
pub open spec fn number_run(s: Seq<char>) -> Seq<char>
    decreases s.len(),
{
    if s.len() > 0 && (is_digit(s[0]) || s[0] == '.') {
        seq![s[0]] + number_run(s.drop_first())
    } else {
        seq![]
    }
}

/// The time text of a log line: the run of digits and dots right after its
/// first `pts_time:`, when it has one.
pub open spec fn pts_token_of(line: Seq<char>) -> Option<Seq<char>> {
    let k = find_from(line, "pts_time:"@, 0);
    if k < 0 { None } else { Some(number_run(line.skip(k + 9))) }
}

pub fn pts_time_token(line: &str) -> (r: Option<String>)
    ensures
        match r {
            Some(t) => pts_token_of(line@) == Some(t@),
            None => pts_token_of(line@) is None,
        },
{
    proof {
        reveal_strlit("pts_time:");
    }
    let cs = chars_of(line);
    let pat: Vec<char> = vec!['p', 't', 's', '_', 't', 'i', 'm', 'e', ':'];
    assert(pat@ =~= "pts_time:"@);
    let mut i: usize = 0;
    let mut found = false;
    while cs.len() >= 9 && i <= cs.len() - 9
        invariant_except_break
            find_from(line@, "pts_time:"@, 0) == find_from(line@, "pts_time:"@, i as int),
            !found,
        invariant
            cs@ == line@,
            pat@ == "pts_time:"@,
            "pts_time:"@.len() == 9,
            i <= cs.len(),
            found ==> i + 9 <= cs.len() && find_from(line@, "pts_time:"@, 0) == i as int,
        ensures
            found || find_from(line@, "pts_time:"@, 0) == -1,
        decreases cs.len() - i,
    {
        if crate::text::matches_at(&cs, &pat, i) {
            found = true;
            break;
        }
        i += 1;
    }
    if !found {
        return None;
    }
    let mut out: Vec<char> = Vec::new();
    let mut j: usize = i + 9;
    let ghost rest = line@.skip(i + 9);
    while j < cs.len() && (('0' <= cs[j] && cs[j] <= '9') || cs[j] == '.')
        invariant
            i + 9 <= j <= cs.len(),
            cs@ == line@,
            rest == line@.skip(i + 9),
            number_run(rest) == out@ + number_run(line@.skip(j as int)),
        decreases cs.len() - j,
    {
        assert(line@.skip(j as int).drop_first() =~= line@.skip(j + 1));
        out.push(cs[j]);
        j += 1;
    }
    proof {
        let t = line@.skip(j as int);
        if j < cs.len() {
            assert(t[0] == cs@[j as int]);
        }
        assert(number_run(t) =~= Seq::<char>::empty());
        assert(out@ =~= out@ + Seq::<char>::empty());
    }
    Some(string_of(&out))
}

// ---------------------------------------------------------------------------
// Cuts into shots
// ---------------------------------------------------------------------------

pub open spec fn leq(a: u64, b: u64) -> bool {
    a <= b
}

/// Cuts too close to either end of the video (150 ms or less) are dropped.
pub open spec fn inner_cut(dur: u64) -> spec_fn(u64) -> bool {
    |v: u64| 150 < v && v + 150 < dur
}

/// Sorted cuts thinned from the left: a cut closer than 200 ms to the last
/// one kept is dropped.
pub open spec fn thinned(s: Seq<u64>, n: int) -> Seq<u64>
    decreases n,
{
    if n <= 0 {
        seq![]
    } else {
        let t = thinned(s, n - 1);
        if t.len() == 0 || s[n - 1] >= t.last() + 200 { t.push(s[n - 1]) } else { t }
    }
}

/// The shots between consecutive cuts, from the start to the end of the
/// video (one shot when there is no cut).
pub open spec fn shots_between(cuts: Seq<u64>, dur: u64) -> Seq<(u64, u64)> {
    Seq::new(cuts.len() + 1, |i: int| (if i == 0 { 0u64 } else { cuts[i - 1] }, if i == cuts.len() { dur } else { cuts[i] }))
}

/// The shots of a video `dur` ms long with cuts at `cuts`: inner cuts, in
/// time order, thinned, then the spans between them.
pub open spec fn scene_shots(cuts: Seq<u64>, dur: u64) -> Seq<(u64, u64)> {
    let s = cuts.filter(inner_cut(dur)).sort_by(|a: u64, b: u64| leq(a, b));
    shots_between(thinned(s, s.len() as int), dur)
}

proof fn lemma_leq_total()
    ensures
        total_ordering(|a: u64, b: u64| leq(a, b)),
{
}

pub open spec fn ascending(s: Seq<u64>) -> bool {
    forall|a: int, b: int| 0 <= a < b < s.len() ==> #[trigger] s[a] <= #[trigger] s[b]
}

/// Inserts `x` into a sorted vector, keeping it sorted.
fn insert_sorted(v: &mut Vec<u64>, x: u64)
    requires
        ascending(old(v)@),
    ensures
        ascending(final(v)@),
        final(v)@.to_multiset() == old(v)@.to_multiset().insert(x),
{
    let mut j: usize = 0;
    while j < v.len() && v[j] <= x
        invariant
            j <= v.len(),
            forall|k: int| 0 <= k < j ==> v@[k] <= x,
        decreases v.len() - j,
    {
        j += 1;
    }
    let ghost before = v@;
    v.insert(j, x);
    assert(v@ == before.insert(j as int, x));
    assert forall|a: int, b: int| 0 <= a < b < v@.len() implies #[trigger] v@[a] <= #[trigger] v@[b] by {
        if b < j {
            assert(before[a] <= before[b]);
        } else if b == j {
            assert(before[a] <= x);
        } else if a > j {
            assert(before[a - 1] <= before[b - 1]);
        } else if a == j {
            assert(j < before.len());
            assert(!(before[j as int] <= x));
            if b - 1 > j {
                assert(before[j as int] <= before[b - 1]);
            }
        } else {
            assert(before[a] <= before[b - 1]);
        }
    }
}

/// The shots between the scene cuts ffmpeg reported: cuts within 150 ms of either end are dropped, the rest
/// put in time order and thinned (200 ms apart at least), and the video split
/// at them.
pub fn scene_spans(cuts: &Vec<u64>, dur: u64) -> (r: Vec<(u64, u64)>)
    ensures
        r@ == scene_shots(cuts@, dur),
{
    let ghost pred = inner_cut(dur);
    let ghost leqf = |a: u64, b: u64| leq(a, b);
    // Keep the inner cuts, sorted.
    let mut sorted: Vec<u64> = Vec::new();
    let mut i: usize = 0;
    while i < cuts.len()
        invariant
            i <= cuts.len(),
            pred == inner_cut(dur),
            leqf == (|a: u64, b: u64| leq(a, b)),
            ascending(sorted@),
            sorted@.to_multiset() == cuts@.take(i as int).filter(pred).to_multiset(),
        decreases cuts.len() - i,
    {
        let v = cuts[i];
        proof {
            cuts@.take(i as int).lemma_filter_push(v, pred);
            assert(cuts@.take(i + 1) =~= cuts@.take(i as int).push(v));
        }
        if 150 < v && (v as u128) + 150 < dur as u128 {
            insert_sorted(&mut sorted, v);
        }
        i += 1;
    }
    proof {
        assert(cuts@.take(cuts.len() as int) =~= cuts@);
        let kept = cuts@.filter(pred);
        lemma_leq_total();
        kept.lemma_sort_by_ensures(leqf);
        assert forall|a: int, b: int| 0 <= a < b < sorted@.len() implies #[trigger] leqf(sorted@[a], sorted@[b]) by {
            assert(sorted@[a] <= sorted@[b]);
        }
        vstd::seq_lib::lemma_sorted_unique(sorted@, kept.sort_by(leqf), leqf);
        assert(sorted@ =~= kept.sort_by(leqf));
    }
    // Thin them.
    let ghost s = sorted@;
    let mut cut: Vec<u64> = Vec::new();
    let mut k: usize = 0;
    while k < sorted.len()
        invariant
            k <= sorted.len(),
            s == sorted@,
            cut@ == thinned(s, k as int),
        decreases sorted.len() - k,
    {
        let c = sorted[k];
        if cut.len() == 0 || c as u128 >= cut[cut.len() - 1] as u128 + 200 {
            cut.push(c);
        }
        k += 1;
    }
    // Split the video at them.
    let mut out: Vec<(u64, u64)> = Vec::new();
    let mut prev: u64 = 0;
    let mut m: usize = 0;
    let ghost want = shots_between(cut@, dur);
    while m < cut.len()
        invariant
            m <= cut.len(),
            want == shots_between(cut@, dur),
            prev == (if m == 0 { 0u64 } else { cut@[m - 1] }),
            out@ == want.take(m as int),
        decreases cut.len() - m,
    {
        out.push((prev, cut[m]));
        prev = cut[m];
        m += 1;
        assert(out@ =~= want.take(m as int));
    }
    out.push((prev, dur));
    assert(out@ =~= want);
    out
}

proof fn lemma_thinned(s: Seq<u64>, n: int)
    requires
        0 <= n <= s.len(),
    ensures
        forall|i: int| 0 <= i < thinned(s, n).len() ==> s.contains(#[trigger] thinned(s, n)[i]),
        forall|i: int| 0 < i < thinned(s, n).len() ==> #[trigger] thinned(s, n)[i] >= thinned(s, n)[i - 1] + 200,
    decreases n,
{
    if n > 0 {
        lemma_thinned(s, n - 1);
        let t = thinned(s, n - 1);
        if t.len() == 0 || s[n - 1] >= t.last() + 200 {
            assert(thinned(s, n) == t.push(s[n - 1]));
            assert(s.contains(s[n - 1]));
            assert forall|i: int| 0 <= i < thinned(s, n).len() implies s.contains(#[trigger] thinned(s, n)[i]) by {
                if i < t.len() {
                    assert(thinned(s, n)[i] == t[i]);
                }
            }
            assert forall|i: int| 0 < i < thinned(s, n).len() implies #[trigger] thinned(s, n)[i] >= thinned(s, n)[i - 1] + 200 by {
                if i < t.len() {
                    assert(thinned(s, n)[i] == t[i]);
                    assert(thinned(s, n)[i - 1] == t[i - 1]);
                }
            }
        }
    }
}

/// The shots tile the video: the first starts at 0, each ends where the next
/// begins, the last ends with the video, and every shot lasts at least
/// 150 ms when there are cuts (a lone shot is the whole video).
pub proof fn lemma_scene_shots_tile(cuts: Seq<u64>, dur: u64)
    ensures
        ({
            let r = scene_shots(cuts, dur);
            &&& r.len() >= 1
            &&& r[0].0 == 0
            &&& r[r.len() - 1].1 == dur
            &&& forall|i: int| 0 < i < r.len() ==> (#[trigger] r[i]).0 == r[i - 1].1
            &&& r.len() > 1 ==> forall|i: int| 0 <= i < r.len() ==> (#[trigger] r[i]).0 + 150 <= r[i].1
        }),
{
    let leqf = |a: u64, b: u64| leq(a, b);
    let kept = cuts.filter(inner_cut(dur));
    let s = kept.sort_by(leqf);
    lemma_leq_total();
    kept.lemma_sort_by_ensures(leqf);
    lemma_thinned(s, s.len() as int);
    let t = thinned(s, s.len() as int);
    let r = scene_shots(cuts, dur);
    assert(r == shots_between(t, dur));
    assert forall|i: int| 0 <= i < t.len() implies 150 < #[trigger] t[i] && t[i] + 150 < dur by {
        assert(s.contains(t[i]));
        assert(kept.to_multiset().count(t[i]) > 0);
        assert(kept.contains(t[i]));
        let k = choose|k: int| 0 <= k < kept.len() && kept[k] == t[i];
        cuts.lemma_filter_pred(inner_cut(dur), k);
    }
    if r.len() > 1 {
        assert forall|i: int| 0 <= i < r.len() implies (#[trigger] r[i]).0 + 150 <= r[i].1 by {
            if i == 0 {
                assert(t[0] > 150);
            } else if i == t.len() {
                assert(t[i - 1] + 150 < dur);
            } else {
                assert(t[i] >= t[i - 1] + 200);
            }
        }
    }
}

} // verus!
