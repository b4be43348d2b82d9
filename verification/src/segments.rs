//! Choosing which analysed transcript segments become clips.
//!
//! Segments are ranked by their virality score, segments that are too short or
//! that overlap a better one are dropped, at most the requested number is kept,
//! and the survivors are returned in timeline order.
use vstd::prelude::*;

verus! {

/// Scores the analysis model gives a segment.
pub struct ViralityScore {
    pub hook_score: i32,
    pub engagement_score: i32,
    pub value_score: i32,
    pub shareability_score: i32,
    pub total_score: i32,
    pub hook_type: String,
    pub virality_reasoning: String,
}

/// Timing and rank of one candidate segment, in milliseconds of source time.
#[derive(Clone, Copy)]
pub struct SegmentSpan {
    pub start_ms: u64,
    pub end_ms: u64,
    pub score: i32,
}

/// Shortest clip kept, in milliseconds.
pub const MIN_CLIP_MS: u64 = 15000;

/// A segment ends after it starts and lasts at least [`MIN_CLIP_MS`].
pub open spec fn long_enough(s: SegmentSpan) -> bool {
    s.end_ms > s.start_ms && s.end_ms - s.start_ms >= MIN_CLIP_MS
}

/// Two spans share some time (touching end to start is no overlap).
pub open spec fn overlaps(a: SegmentSpan, b: SegmentSpan) -> bool {
    !(b.end_ms <= a.start_ms || b.start_ms >= a.end_ms)
}

/// Inserts index `k` into `order` after every index whose score is at least
/// that of `k` (a stable, descending insertion).
pub open spec fn insert_by_score(segs: Seq<SegmentSpan>, order: Seq<int>, k: int) -> Seq<int>
    decreases order.len(),
{
    if order.len() == 0 {
        seq![k]
    } else if segs[order[0]].score >= segs[k].score {
        seq![order[0]] + insert_by_score(segs, order.drop_first(), k)
    } else {
        seq![k] + order
    }
}

/// Indices `0..n` ordered by descending score; equal scores keep their order.
pub open spec fn by_score(segs: Seq<SegmentSpan>, n: nat) -> Seq<int>
    decreases n,
{
    if n == 0 {
        seq![]
    } else {
        insert_by_score(segs, by_score(segs, (n - 1) as nat), n - 1)
    }
}

/// Whether span `k` overlaps any span already kept.
pub open spec fn overlaps_kept(segs: Seq<SegmentSpan>, kept: Seq<int>, k: int) -> bool {
    exists|j: int| 0 <= j < kept.len() && overlaps(segs[kept[j]], segs[k])
}

/// Walks `order`, keeping each long-enough span that overlaps nothing kept so
/// far, and stops as soon as `max` spans are kept (after the first is kept).
pub open spec fn greedy(segs: Seq<SegmentSpan>, order: Seq<int>, kept: Seq<int>, max: nat) -> Seq<int>
    decreases order.len(),
{
    if order.len() == 0 {
        kept
    } else {
        let k = order[0];
        if !long_enough(segs[k]) || overlaps_kept(segs, kept, k) {
            greedy(segs, order.drop_first(), kept, max)
        } else if kept.len() + 1 >= max {
            kept.push(k)
        } else {
            greedy(segs, order.drop_first(), kept.push(k), max)
        }
    }
}

/// Inserts `k` after every kept index whose span starts no later than `k`'s.
pub open spec fn insert_by_start(segs: Seq<SegmentSpan>, sorted: Seq<int>, k: int) -> Seq<int>
    decreases sorted.len(),
{
    if sorted.len() == 0 {
        seq![k]
    } else if segs[sorted[0]].start_ms <= segs[k].start_ms {
        seq![sorted[0]] + insert_by_start(segs, sorted.drop_first(), k)
    } else {
        seq![k] + sorted
    }
}

/// A stable sort of `kept` by start time.
pub open spec fn by_start(segs: Seq<SegmentSpan>, kept: Seq<int>) -> Seq<int>
    decreases kept.len(),
{
    if kept.len() == 0 {
        seq![]
    } else {
        insert_by_start(segs, by_start(segs, kept.drop_last()), kept.last())
    }
}

/// The indices of the segments kept, in timeline order.
pub open spec fn dedup_result(segs: Seq<SegmentSpan>, max: nat) -> Seq<int> {
    by_start(segs, greedy(segs, by_score(segs, segs.len()), seq![], max))
}

fn insert_score_exec(segs: &Vec<SegmentSpan>, order: &mut Vec<usize>, k: usize)
    requires
        k < segs.len(),
        forall|i: int| 0 <= i < old(order).len() ==> old(order)[i] < segs.len(),
    ensures
        final(order)@.map_values(|x: usize| x as int) == insert_by_score(
            segs@,
            old(order)@.map_values(|x: usize| x as int),
            k as int,
        ),
        forall|i: int| 0 <= i < final(order).len() ==> final(order)[i] < segs.len(),
{
    let ghost o = old(order)@.map_values(|x: usize| x as int);
    let mut pos: usize = 0;
    while pos < order.len() && segs[order[pos]].score >= segs[k].score
        invariant
            pos <= order.len(),
            k < segs.len(),
            order@ == old(order)@,
            forall|i: int| 0 <= i < order.len() ==> order[i] < segs.len(),
            forall|i: int| 0 <= i < pos ==> segs@[order@[i] as int].score >= segs@[k as int].score,
        decreases order.len() - pos,
    {
        pos += 1;
    }
    proof {
        lemma_insert_by_score_at(segs@, o, k as int, pos as int);
    }
    order.insert(pos, k);
    proof {
        assert(order@.map_values(|x: usize| x as int) =~= o.take(pos as int) + seq![k as int] + o.skip(pos as int));
    }
}

proof fn lemma_insert_by_score_at(segs: Seq<SegmentSpan>, o: Seq<int>, k: int, pos: int)
    requires
        0 <= pos <= o.len(),
        forall|i: int| 0 <= i < pos ==> segs[o[i]].score >= segs[k].score,
        pos == o.len() || segs[o[pos]].score < segs[k].score,
    ensures
        insert_by_score(segs, o, k) == o.take(pos) + seq![k] + o.skip(pos),
    decreases pos,
{
    if pos == 0 {
        assert(o.take(0) + seq![k] + o.skip(0) =~= seq![k] + o);
        if o.len() == 0 {
            assert(seq![k] + o =~= seq![k]);
        }
    } else {
        lemma_insert_by_score_at(segs, o.drop_first(), k, pos - 1);
        assert(o.take(pos) + seq![k] + o.skip(pos) =~= seq![o[0]] + (o.drop_first().take(pos - 1) + seq![k] + o.drop_first().skip(pos - 1)));
    }
}

proof fn lemma_insert_by_start_at(segs: Seq<SegmentSpan>, o: Seq<int>, k: int, pos: int)
    requires
        0 <= pos <= o.len(),
        forall|i: int| 0 <= i < pos ==> segs[o[i]].start_ms <= segs[k].start_ms,
        pos == o.len() || segs[o[pos]].start_ms > segs[k].start_ms,
    ensures
        insert_by_start(segs, o, k) == o.take(pos) + seq![k] + o.skip(pos),
    decreases pos,
{
    if pos == 0 {
        assert(o.take(0) + seq![k] + o.skip(0) =~= seq![k] + o);
        if o.len() == 0 {
            assert(seq![k] + o =~= seq![k]);
        }
    } else {
        lemma_insert_by_start_at(segs, o.drop_first(), k, pos - 1);
        assert(o.take(pos) + seq![k] + o.skip(pos) =~= seq![o[0]] + (o.drop_first().take(pos - 1) + seq![k] + o.drop_first().skip(pos - 1)));
    }
}

pub open spec fn ints(v: Seq<usize>) -> Seq<int> {
    v.map_values(|x: usize| x as int)
}

/// Removes overlapping candidates, keeping the best-scored ones.
///
/// Returns the indices into `segs` of the segments kept, in timeline order: at
/// most `max_clips` of them (one when `max_clips` is zero), each at least
/// fifteen seconds long, none overlapping another.
pub fn dedup_segments(segs: &Vec<SegmentSpan>, max_clips: usize) -> (out: Vec<usize>)
    ensures
        ints(out@) == dedup_result(segs@, max_clips as nat),
        forall|i: int| 0 <= i < out.len() ==> out[i] < segs.len(),
{
    // Rank by score, best first; equal scores keep their original order.
    let mut order: Vec<usize> = Vec::new();
    let mut n: usize = 0;
    while n < segs.len()
        invariant
            n <= segs.len(),
            ints(order@) == by_score(segs@, n as nat),
            forall|i: int| 0 <= i < order.len() ==> order[i] < segs.len(),
        decreases segs.len() - n,
    {
        insert_score_exec(segs, &mut order, n);
        n += 1;
    }
    // Greedy selection.
    let mut kept: Vec<usize> = Vec::new();
    let mut i: usize = 0;
    let ghost full = ints(order@);
    assert(full.skip(0) =~= full);
    assert(ints(kept@) =~= Seq::<int>::empty());
    let mut done = false;
    while i < order.len() && !done
        invariant
            i <= order.len(),
            full == ints(order@),
            forall|j: int| 0 <= j < order.len() ==> order[j] < segs.len(),
            forall|j: int| 0 <= j < kept.len() ==> kept[j] < segs.len(),
            !done ==> greedy(segs@, full, seq![], max_clips as nat) == greedy(segs@, full.skip(i as int), ints(kept@), max_clips as nat),
            done ==> greedy(segs@, full, seq![], max_clips as nat) == ints(kept@),
        decreases order.len() - i, (if done { 0int } else { 1int }),
    {
        let k = order[i];
        let sk = segs[k];
        let ghost rest = full.skip(i as int);
        assert(rest[0] == k as int);
        assert(rest.drop_first() =~= full.skip(i + 1));
        let valid = sk.end_ms > sk.start_ms && sk.end_ms - sk.start_ms >= MIN_CLIP_MS;
        let mut clash = false;
        if valid {
            let mut j: usize = 0;
            while j < kept.len() && !clash
                invariant
                    j <= kept.len(),
                    forall|m: int| 0 <= m < kept.len() ==> kept[m] < segs.len(),
                    k < segs.len(),
                    sk == segs@[k as int],
                    clash ==> overlaps_kept(segs@, ints(kept@), k as int),
                    forall|m: int| 0 <= m < j ==> !overlaps(segs@[kept@[m] as int], sk),
                decreases kept.len() - j + (if clash { 0int } else { 1int }),
            {
                let a = segs[kept[j]];
                if !(sk.end_ms <= a.start_ms || sk.start_ms >= a.end_ms) {
                    clash = true;
                    proof {
                        assert(ints(kept@)[j as int] == kept@[j as int] as int);
                        assert(overlaps(segs@[ints(kept@)[j as int]], segs@[k as int]));
                    }
                } else {
                    j += 1;
                }
            }
            proof {
                if !clash {
                    assert forall|m: int| 0 <= m < kept.len() implies !overlaps(segs@[ints(kept@)[m]], segs@[k as int]) by {
                        assert(ints(kept@)[m] == kept@[m] as int);
                    }
                }
            }
        }
        if !valid || clash {
            i += 1;
        } else {
            let ghost before = ints(kept@);
            kept.push(k);
            assert(ints(kept@) =~= before.push(k as int));
            if kept.len() >= max_clips {
                done = true;
            } else {
                i += 1;
            }
        }
    }
    proof {
        if !done {
            assert(full.skip(i as int).len() == 0);
        }
    }
    // Timeline order; equal starts keep their selection order.
    let mut out: Vec<usize> = Vec::new();
    let mut m: usize = 0;
    while m < kept.len()
        invariant
            m <= kept.len(),
            forall|j: int| 0 <= j < kept.len() ==> kept[j] < segs.len(),
            forall|j: int| 0 <= j < out.len() ==> out[j] < segs.len(),
            ints(out@) == by_start(segs@, ints(kept@).take(m as int)),
        decreases kept.len() - m,
    {
        let k = kept[m];
        let mut pos: usize = 0;
        while pos < out.len() && segs[out[pos]].start_ms <= segs[k].start_ms
            invariant
                pos <= out.len(),
                k < segs.len(),
                forall|j: int| 0 <= j < out.len() ==> out[j] < segs.len(),
                forall|j: int| 0 <= j < pos ==> segs@[out@[j] as int].start_ms <= segs@[k as int].start_ms,
            decreases out.len() - pos,
        {
            pos += 1;
        }
        let ghost o = ints(out@);
        proof {
            lemma_insert_by_start_at(segs@, o, k as int, pos as int);
            assert(ints(kept@).take(m + 1).drop_last() =~= ints(kept@).take(m as int));
        }
        out.insert(pos, k);
        assert(ints(out@) =~= o.take(pos as int) + seq![k as int] + o.skip(pos as int));
        m += 1;
    }
    assert(ints(kept@).take(kept.len() as int) =~= ints(kept@));
    out
}


// ---------------------------------------------------------------------------
// What a selection satisfies
// ---------------------------------------------------------------------------

/// Every index is in range, every span long enough, and no two spans at
/// different positions overlap.
pub open spec fn valid_selection(segs: Seq<SegmentSpan>, sel: Seq<int>) -> bool {
    &&& forall|i: int| 0 <= i < sel.len() ==> 0 <= #[trigger] sel[i] < segs.len()
    &&& forall|i: int| 0 <= i < sel.len() ==> long_enough(segs[#[trigger] sel[i]])
    &&& forall|i: int, j: int|
        0 <= i < sel.len() && 0 <= j < sel.len() && i != j ==> !overlaps(
            segs[#[trigger] sel[i]],
            segs[#[trigger] sel[j]],
        )
}

pub open spec fn starts_nondecreasing(segs: Seq<SegmentSpan>, sel: Seq<int>) -> bool {
    forall|i: int, j: int|
        0 <= i < j < sel.len() ==> segs[#[trigger] sel[i]].start_ms <= segs[#[trigger] sel[j]].start_ms
}

proof fn lemma_insert_by_start(segs: Seq<SegmentSpan>, sorted: Seq<int>, k: int)
    ensures
        insert_by_start(segs, sorted, k).len() == sorted.len() + 1,
        forall|x: int| #[trigger] insert_by_start(segs, sorted, k).contains(x) <==> (sorted.contains(x) || x == k),
        starts_nondecreasing(segs, sorted) ==> starts_nondecreasing(segs, insert_by_start(segs, sorted, k)),
        sorted.no_duplicates() && !sorted.contains(k) ==> insert_by_start(segs, sorted, k).no_duplicates(),
    decreases sorted.len(),
{
    let r = insert_by_start(segs, sorted, k);
    if sorted.len() == 0 {
        assert(r =~= seq![k]);
        assert forall|x: int| #[trigger] r.contains(x) <==> (sorted.contains(x) || x == k) by {
            if r.contains(x) {
                assert(r[0] == k);
            }
            if x == k {
                assert(r[0] == x);
            }
        }
    } else if segs[sorted[0]].start_ms <= segs[k].start_ms {
        let tail = sorted.drop_first();
        lemma_insert_by_start(segs, tail, k);
        let rt = insert_by_start(segs, tail, k);
        assert(r =~= seq![sorted[0]] + rt);
        assert forall|x: int| #[trigger] r.contains(x) <==> (sorted.contains(x) || x == k) by {
            if r.contains(x) {
                let i = choose|i: int| 0 <= i < r.len() && r[i] == x;
                if i > 0 {
                    assert(rt[i - 1] == x);
                    assert(rt.contains(x));
                    if tail.contains(x) {
                        let j = choose|j: int| 0 <= j < tail.len() && tail[j] == x;
                        assert(sorted[j + 1] == x);
                    }
                } else {
                    assert(sorted[0] == x);
                }
            }
            if sorted.contains(x) {
                let j = choose|j: int| 0 <= j < sorted.len() && sorted[j] == x;
                if j > 0 {
                    assert(tail[j - 1] == x);
                    assert(rt.contains(x));
                    let m = choose|m: int| 0 <= m < rt.len() && rt[m] == x;
                    assert(r[m + 1] == x);
                } else {
                    assert(r[0] == x);
                }
            }
            if x == k {
                assert(rt.contains(x));
                let m = choose|m: int| 0 <= m < rt.len() && rt[m] == x;
                assert(r[m + 1] == x);
            }
        }
        if starts_nondecreasing(segs, sorted) {
            assert(starts_nondecreasing(segs, tail)) by {
                assert forall|i: int, j: int| 0 <= i < j < tail.len() implies segs[#[trigger] tail[i]].start_ms <= segs[#[trigger] tail[j]].start_ms by {
                    assert(tail[i] == sorted[i + 1] && tail[j] == sorted[j + 1]);
                }
            }
            assert forall|i: int, j: int| 0 <= i < j < r.len() implies segs[#[trigger] r[i]].start_ms <= segs[#[trigger] r[j]].start_ms by {
                if i == 0 {
                    assert(rt.contains(r[j]));
                    if r[j] != k {
                        assert(tail.contains(r[j]));
                        let m = choose|m: int| 0 <= m < tail.len() && tail[m] == r[j];
                        assert(sorted[m + 1] == r[j]);
                    }
                } else {
                    assert(r[i] == rt[i - 1] && r[j] == rt[j - 1]);
                }
            }
        }
        if sorted.no_duplicates() && !sorted.contains(k) {
            assert(tail.no_duplicates());
            assert(!tail.contains(k)) by {
                if tail.contains(k) {
                    let m = choose|m: int| 0 <= m < tail.len() && tail[m] == k;
                    assert(sorted[m + 1] == k);
                }
            }
            assert forall|i: int, j: int| 0 <= i < r.len() && 0 <= j < r.len() && i != j implies r[i] != r[j] by {
                if i > 0 && j > 0 {
                    assert(r[i] == rt[i - 1] && r[j] == rt[j - 1]);
                } else if i == 0 {
                    assert(rt.contains(r[j]));
                    assert(r[j] != sorted[0]) by {
                        if r[j] == k {
                            assert(sorted.contains(k) == false);
                            assert(sorted[0] != k);
                        } else {
                            assert(tail.contains(r[j]));
                            let m = choose|m: int| 0 <= m < tail.len() && tail[m] == r[j];
                            assert(sorted[m + 1] == r[j]);
                        }
                    }
                } else {
                    assert(rt.contains(r[i]));
                    assert(r[i] != sorted[0]) by {
                        if r[i] == k {
                            assert(sorted[0] != k);
                        } else {
                            assert(tail.contains(r[i]));
                            let m = choose|m: int| 0 <= m < tail.len() && tail[m] == r[i];
                            assert(sorted[m + 1] == r[i]);
                        }
                    }
                }
            }
        }
    } else {
        assert(r =~= seq![k] + sorted);
        assert forall|x: int| #[trigger] r.contains(x) <==> (sorted.contains(x) || x == k) by {
            if r.contains(x) {
                let i = choose|i: int| 0 <= i < r.len() && r[i] == x;
                if i > 0 {
                    assert(sorted[i - 1] == x);
                }
            }
            if sorted.contains(x) {
                let j = choose|j: int| 0 <= j < sorted.len() && sorted[j] == x;
                assert(r[j + 1] == x);
            }
            if x == k {
                assert(r[0] == x);
            }
        }
        if starts_nondecreasing(segs, sorted) {
            assert forall|i: int, j: int| 0 <= i < j < r.len() implies segs[#[trigger] r[i]].start_ms <= segs[#[trigger] r[j]].start_ms by {
                if i == 0 {
                    assert(r[j] == sorted[j - 1]);
                    if j > 1 {
                        assert(segs[sorted[0]].start_ms <= segs[sorted[j - 1]].start_ms);
                    }
                } else {
                    assert(r[i] == sorted[i - 1] && r[j] == sorted[j - 1]);
                }
            }
        }
        if sorted.no_duplicates() && !sorted.contains(k) {
            assert forall|i: int, j: int| 0 <= i < r.len() && 0 <= j < r.len() && i != j implies r[i] != r[j] by {
                if i > 0 && j > 0 {
                    assert(r[i] == sorted[i - 1] && r[j] == sorted[j - 1]);
                } else if i == 0 {
                    assert(r[j] == sorted[j - 1]);
                } else {
                    assert(r[i] == sorted[i - 1]);
                }
            }
        }
    }
}

proof fn lemma_by_start(segs: Seq<SegmentSpan>, kept: Seq<int>)
    ensures
        by_start(segs, kept).len() == kept.len(),
        forall|x: int| #[trigger] by_start(segs, kept).contains(x) <==> kept.contains(x),
        starts_nondecreasing(segs, by_start(segs, kept)),
        kept.no_duplicates() ==> by_start(segs, kept).no_duplicates(),
    decreases kept.len(),
{
    if kept.len() > 0 {
        let init = kept.drop_last();
        lemma_by_start(segs, init);
        let b = by_start(segs, init);
        lemma_insert_by_start(segs, b, kept.last());
        assert forall|x: int| #[trigger] by_start(segs, kept).contains(x) <==> kept.contains(x) by {
            if kept.contains(x) {
                let j = choose|j: int| 0 <= j < kept.len() && kept[j] == x;
                if j < kept.len() - 1 {
                    assert(init[j] == x);
                    assert(init.contains(x));
                }
            }
            if init.contains(x) {
                let j = choose|j: int| 0 <= j < init.len() && init[j] == x;
                assert(kept[j] == x);
            }
        }
        if kept.no_duplicates() {
            assert(init.no_duplicates());
            assert(!b.contains(kept.last())) by {
                if init.contains(kept.last()) {
                    let j = choose|j: int| 0 <= j < init.len() && init[j] == kept.last();
                    assert(kept[j] == kept[kept.len() - 1]);
                }
            }
        }
    } else {
        assert(by_start(segs, kept) =~= Seq::<int>::empty());
    }
}

proof fn lemma_greedy(segs: Seq<SegmentSpan>, order: Seq<int>, kept: Seq<int>, max: nat)
    requires
        forall|i: int| 0 <= i < order.len() ==> 0 <= #[trigger] order[i] < segs.len(),
        valid_selection(segs, kept),
        kept.len() < if max == 0 { 1 } else { max },
    ensures
        valid_selection(segs, greedy(segs, order, kept, max)),
        greedy(segs, order, kept, max).len() <= if max == 0 { 1 } else { max },
        greedy(segs, order, kept, max).len() <= kept.len() + order.len(),
    decreases order.len(),
{
    if order.len() > 0 {
        let k = order[0];
        let tail = order.drop_first();
        assert forall|i: int| 0 <= i < tail.len() implies 0 <= #[trigger] tail[i] < segs.len() by {
            assert(tail[i] == order[i + 1]);
        }
        if !long_enough(segs[k]) || overlaps_kept(segs, kept, k) {
            lemma_greedy(segs, tail, kept, max);
        } else {
            let kp = kept.push(k);
            assert(valid_selection(segs, kp)) by {
                assert forall|i: int, j: int|
                    0 <= i < kp.len() && 0 <= j < kp.len() && i != j implies !overlaps(
                        segs[#[trigger] kp[i]],
                        segs[#[trigger] kp[j]],
                    ) by {
                    if i < kept.len() && j < kept.len() {
                        assert(kp[i] == kept[i] && kp[j] == kept[j]);
                    } else if i == kept.len() {
                        assert(kp[j] == kept[j]);
                        assert(!overlaps(segs[kept[j]], segs[k]));
                    } else {
                        assert(kp[i] == kept[i]);
                        assert(!overlaps(segs[kept[i]], segs[k]));
                    }
                }
                assert forall|i: int| 0 <= i < kp.len() implies long_enough(segs[#[trigger] kp[i]]) by {
                    if i < kept.len() {
                        assert(kp[i] == kept[i]);
                    }
                }
                assert forall|i: int| 0 <= i < kp.len() implies 0 <= #[trigger] kp[i] < segs.len() by {
                    if i < kept.len() {
                        assert(kp[i] == kept[i]);
                    }
                }
            }
            if kept.len() + 1 < max {
                lemma_greedy(segs, tail, kp, max);
            }
        }
    }
}

proof fn lemma_insert_by_score_len(segs: Seq<SegmentSpan>, order: Seq<int>, k: int)
    ensures
        insert_by_score(segs, order, k).len() == order.len() + 1,
        forall|i: int| 0 <= i < insert_by_score(segs, order, k).len() ==>
            (#[trigger] insert_by_score(segs, order, k)[i] == k || order.contains(insert_by_score(segs, order, k)[i])),
    decreases order.len(),
{
    if order.len() > 0 && segs[order[0]].score >= segs[k].score {
        let tail = order.drop_first();
        lemma_insert_by_score_len(segs, tail, k);
        let r = insert_by_score(segs, order, k);
        let rt = insert_by_score(segs, tail, k);
        assert forall|i: int| 0 <= i < r.len() implies (#[trigger] r[i] == k || order.contains(r[i])) by {
            if i == 0 {
                assert(order[0] == r[0]);
            } else {
                assert(r[i] == rt[i - 1]);
                if rt[i - 1] != k {
                    let m = choose|m: int| 0 <= m < tail.len() && tail[m] == rt[i - 1];
                    assert(order[m + 1] == r[i]);
                }
            }
        }
    } else if order.len() > 0 {
        let r = insert_by_score(segs, order, k);
        assert forall|i: int| 0 <= i < r.len() implies (#[trigger] r[i] == k || order.contains(r[i])) by {
            if i > 0 {
                assert(order[i - 1] == r[i]);
            }
        }
    }
}

proof fn lemma_by_score_range(segs: Seq<SegmentSpan>, n: nat)
    ensures
        by_score(segs, n).len() == n,
        forall|i: int| 0 <= i < by_score(segs, n).len() ==> 0 <= #[trigger] by_score(segs, n)[i] < n,
    decreases n,
{
    if n > 0 {
        let prev = by_score(segs, (n - 1) as nat);
        lemma_by_score_range(segs, (n - 1) as nat);
        lemma_insert_by_score_len(segs, prev, n - 1);
        let r = by_score(segs, n);
        assert forall|i: int| 0 <= i < r.len() implies 0 <= #[trigger] r[i] < n by {
            if r[i] != n - 1 {
                let m = choose|m: int| 0 <= m < prev.len() && prev[m] == r[i];
            }
        }
    }
}

/// The segments kept are in range, each at least fifteen seconds long, pairwise
/// non-overlapping, listed in strictly increasing start order, and there are no
/// more of them than requested (one when zero are requested) nor than there
/// were candidates.
pub proof fn lemma_dedup_selection(segs: Seq<SegmentSpan>, max: nat)
    ensures
        valid_selection(segs, dedup_result(segs, max)),
        dedup_result(segs, max).len() <= if max == 0 { 1 } else { max },
        dedup_result(segs, max).len() <= segs.len(),
        forall|i: int, j: int| 0 <= i < j < dedup_result(segs, max).len() ==>
            segs[#[trigger] dedup_result(segs, max)[i]].start_ms < segs[#[trigger] dedup_result(segs, max)[j]].start_ms,
{
    let order = by_score(segs, segs.len());
    lemma_by_score_range(segs, segs.len());
    let g = greedy(segs, order, seq![], max);
    lemma_greedy(segs, order, seq![], max);
    let r = by_start(segs, g);
    lemma_by_start(segs, g);
    // A valid selection has no repeated index: a long-enough span overlaps itself.
    assert(g.no_duplicates()) by {
        assert forall|i: int, j: int| 0 <= i < g.len() && 0 <= j < g.len() && i != j implies g[i] != g[j] by {
            assert(!overlaps(segs[g[i]], segs[g[j]]));
            assert(long_enough(segs[g[i]]));
        }
    }
    assert(valid_selection(segs, r)) by {
        assert forall|i: int| 0 <= i < r.len() implies 0 <= #[trigger] r[i] < segs.len() && long_enough(segs[r[i]]) by {
            assert(r.contains(r[i]));
            assert(g.contains(r[i]));
            let m = choose|m: int| 0 <= m < g.len() && g[m] == r[i];
            assert(long_enough(segs[g[m]]));
        }
        assert forall|i: int, j: int|
            0 <= i < r.len() && 0 <= j < r.len() && i != j implies !overlaps(segs[#[trigger] r[i]], segs[#[trigger] r[j]]) by {
            assert(r.contains(r[i]) && r.contains(r[j]));
            assert(g.contains(r[i]) && g.contains(r[j]));
            let p = choose|m: int| 0 <= m < g.len() && g[m] == r[i];
            let q = choose|m: int| 0 <= m < g.len() && g[m] == r[j];
            assert(r[i] != r[j]);
            assert(p != q);
            assert(!overlaps(segs[g[p]], segs[g[q]]));
        }
    }
    assert forall|i: int, j: int| 0 <= i < j < r.len() implies segs[#[trigger] r[i]].start_ms < segs[#[trigger] r[j]].start_ms by {
        assert(segs[r[i]].start_ms <= segs[r[j]].start_ms);
        assert(!overlaps(segs[r[i]], segs[r[j]]));
        assert(long_enough(segs[r[i]]) && long_enough(segs[r[j]]));
    }
}

/// The scores along `o` never increase.
pub open spec fn score_desc(segs: Seq<SegmentSpan>, o: Seq<int>) -> bool {
    forall|a: int, b: int| 0 <= a < b < o.len() ==> segs[#[trigger] o[a]].score >= segs[#[trigger] o[b]].score
}

proof fn lemma_insert_by_score_desc(segs: Seq<SegmentSpan>, o: Seq<int>, k: int)
    requires
        score_desc(segs, o),
    ensures
        score_desc(segs, insert_by_score(segs, o, k)),
        insert_by_score(segs, o, k).contains(k),
        forall|x: int| o.contains(x) ==> #[trigger] insert_by_score(segs, o, k).contains(x),
    decreases o.len(),
{
    lemma_insert_by_score_len(segs, o, k);
    let r = insert_by_score(segs, o, k);
    if o.len() == 0 {
        assert(r[0] == k);
    } else if segs[o[0]].score >= segs[k].score {
        let t = o.drop_first();
        assert(score_desc(segs, t)) by {
            assert forall|a: int, b: int| 0 <= a < b < t.len() implies segs[#[trigger] t[a]].score >= segs[#[trigger] t[b]].score by {
                assert(t[a] == o[a + 1] && t[b] == o[b + 1]);
            }
        }
        lemma_insert_by_score_desc(segs, t, k);
        lemma_insert_by_score_len(segs, t, k);
        let rt = insert_by_score(segs, t, k);
        assert(r == seq![o[0]] + rt);
        assert forall|a: int, b: int| 0 <= a < b < r.len() implies segs[#[trigger] r[a]].score >= segs[#[trigger] r[b]].score by {
            assert(r[b] == rt[b - 1]);
            if a == 0 {
                if rt[b - 1] != k {
                    let m = choose|m: int| 0 <= m < t.len() && t[m] == rt[b - 1];
                    assert(o[m + 1] == rt[b - 1]);
                }
            } else {
                assert(r[a] == rt[a - 1]);
            }
        }
        let mk = choose|m: int| 0 <= m < rt.len() && rt[m] == k;
        assert(r[mk + 1] == k);
        assert forall|x: int| o.contains(x) implies #[trigger] r.contains(x) by {
            let m = choose|m: int| 0 <= m < o.len() && o[m] == x;
            if m == 0 {
                assert(r[0] == x);
            } else {
                assert(t[m - 1] == x);
                assert(t.contains(x));
                assert(rt.contains(x));
                let q = choose|q: int| 0 <= q < rt.len() && rt[q] == x;
                assert(r[q + 1] == x);
            }
        }
    } else {
        assert(r == seq![k] + o);
        assert forall|a: int, b: int| 0 <= a < b < r.len() implies segs[#[trigger] r[a]].score >= segs[#[trigger] r[b]].score by {
            assert(r[b] == o[b - 1]);
            if a > 0 {
                assert(r[a] == o[a - 1]);
            } else if b > 1 {
                assert(segs[o[0]].score >= segs[o[b - 1]].score);
            }
        }
        assert(r[0] == k);
        assert forall|x: int| o.contains(x) implies #[trigger] r.contains(x) by {
            let m = choose|m: int| 0 <= m < o.len() && o[m] == x;
            assert(r[m + 1] == x);
        }
    }
}

proof fn lemma_by_score_desc(segs: Seq<SegmentSpan>, n: nat)
    ensures
        score_desc(segs, by_score(segs, n)),
        forall|k: int| 0 <= k < n ==> #[trigger] by_score(segs, n).contains(k),
    decreases n,
{
    if n > 0 {
        let prev = by_score(segs, (n - 1) as nat);
        lemma_by_score_desc(segs, (n - 1) as nat);
        lemma_insert_by_score_desc(segs, prev, n - 1);
        assert forall|k: int| 0 <= k < n implies #[trigger] by_score(segs, n).contains(k) by {
            if k < n - 1 {
                assert(prev.contains(k));
            }
        }
    }
}

proof fn lemma_greedy_extends(segs: Seq<SegmentSpan>, order: Seq<int>, kept: Seq<int>, max: nat)
    ensures
        greedy(segs, order, kept, max).len() >= kept.len(),
        forall|t: int| 0 <= t < kept.len() ==> #[trigger] greedy(segs, order, kept, max)[t] == kept[t],
    decreases order.len(),
{
    if order.len() > 0 {
        let k = order[0];
        let tail = order.drop_first();
        if !long_enough(segs[k]) || overlaps_kept(segs, kept, k) {
            lemma_greedy_extends(segs, tail, kept, max);
        } else if kept.len() + 1 < max {
            lemma_greedy_extends(segs, tail, kept.push(k), max);
            assert forall|t: int| 0 <= t < kept.len() implies #[trigger] greedy(segs, order, kept, max)[t] == kept[t] by {
                assert(kept.push(k)[t] == kept[t]);
            }
        }
    }
}

proof fn lemma_greedy_dominates(segs: Seq<SegmentSpan>, order: Seq<int>, kept: Seq<int>, max: nat, i: int)
    requires
        0 <= i < order.len(),
        score_desc(segs, order),
        forall|a: int, b: int| 0 <= a < kept.len() && 0 <= b < order.len() ==>
            segs[#[trigger] kept[a]].score >= segs[#[trigger] order[b]].score,
        kept.len() < if max == 0 { 1 } else { max },
        long_enough(segs[order[i]]),
        !greedy(segs, order, kept, max).contains(order[i]),
    ensures
        ({
            let r = greedy(segs, order, kept, max);
            ||| exists|j: int| 0 <= j < r.len() && overlaps(segs[#[trigger] r[j]], segs[order[i]]) && segs[r[j]].score >= segs[order[i]].score
            ||| r.len() == (if max == 0 { 1 } else { max }) && forall|j: int| 0 <= j < r.len() ==> segs[#[trigger] r[j]].score >= segs[order[i]].score
        }),
    decreases order.len(),
{
    let r = greedy(segs, order, kept, max);
    let k = order[0];
    let tail = order.drop_first();
    let kp = kept.push(k);
    lemma_greedy_extends(segs, order, kept, max);
    if i == 0 {
        if overlaps_kept(segs, kept, k) {
            let j = choose|j: int| 0 <= j < kept.len() && overlaps(segs[kept[j]], segs[k]);
            assert(r[j] == kept[j]);
            assert(segs[kept[j]].score >= segs[order[0]].score);
        } else {
            if kept.len() + 1 >= max {
                assert(r == kp);
                assert(r[kept.len() as int] == k);
            } else {
                lemma_greedy_extends(segs, tail, kp, max);
                assert(r[kept.len() as int] == kp[kept.len() as int]);
            }
            assert(r.contains(k));
        }
    } else {
        assert(score_desc(segs, tail)) by {
            assert forall|a: int, b: int| 0 <= a < b < tail.len() implies segs[#[trigger] tail[a]].score >= segs[#[trigger] tail[b]].score by {
                assert(tail[a] == order[a + 1] && tail[b] == order[b + 1]);
            }
        }
        assert(tail[i - 1] == order[i]);
        if !long_enough(segs[k]) || overlaps_kept(segs, kept, k) {
            assert forall|a: int, b: int| 0 <= a < kept.len() && 0 <= b < tail.len() implies
                segs[#[trigger] kept[a]].score >= segs[#[trigger] tail[b]].score by {
                assert(tail[b] == order[b + 1]);
            }
            lemma_greedy_dominates(segs, tail, kept, max, i - 1);
        } else if kept.len() + 1 >= max {
            assert(r == kp);
            assert forall|j: int| 0 <= j < r.len() implies segs[#[trigger] r[j]].score >= segs[order[i]].score by {
                if j < kept.len() {
                    assert(r[j] == kept[j]);
                } else {
                    assert(r[j] == order[0]);
                }
            }
        } else {
            assert forall|a: int, b: int| 0 <= a < kp.len() && 0 <= b < tail.len() implies
                segs[#[trigger] kp[a]].score >= segs[#[trigger] tail[b]].score by {
                assert(tail[b] == order[b + 1]);
                if a < kept.len() {
                    assert(kp[a] == kept[a]);
                } else {
                    assert(kp[a] == order[0]);
                }
            }
            lemma_greedy_dominates(segs, tail, kp, max, i - 1);
        }
    }
}

/// A long-enough segment is left out only for a better one: some kept
/// segment that overlaps it scores at least as high, or the selection is full
/// (as many as requested, one when zero are requested) of segments that all
/// score at least as high.
pub proof fn lemma_dedup_dominance(segs: Seq<SegmentSpan>, max: nat, k: int)
    requires
        0 <= k < segs.len(),
        long_enough(segs[k]),
        !dedup_result(segs, max).contains(k),
    ensures
        ({
            let r = dedup_result(segs, max);
            ||| exists|j: int| 0 <= j < r.len() && overlaps(segs[#[trigger] r[j]], segs[k]) && segs[r[j]].score >= segs[k].score
            ||| r.len() == (if max == 0 { 1 } else { max }) && forall|j: int| 0 <= j < r.len() ==> segs[#[trigger] r[j]].score >= segs[k].score
        }),
{
    let order = by_score(segs, segs.len());
    lemma_by_score_desc(segs, segs.len());
    assert(order.contains(k));
    let i = choose|i: int| 0 <= i < order.len() && order[i] == k;
    let g = greedy(segs, order, seq![], max);
    let r = by_start(segs, g);
    lemma_by_start(segs, g);
    if g.contains(k) {
        assert(r.contains(k));
    }
    lemma_greedy_dominates(segs, order, seq![], max, i);
    if exists|j: int| 0 <= j < g.len() && overlaps(segs[#[trigger] g[j]], segs[k]) && segs[g[j]].score >= segs[k].score {
        let j = choose|j: int| 0 <= j < g.len() && overlaps(segs[#[trigger] g[j]], segs[k]) && segs[g[j]].score >= segs[k].score;
        assert(g.contains(g[j]));
        assert(r.contains(g[j]));
        let q = choose|q: int| 0 <= q < r.len() && r[q] == g[j];
        assert(overlaps(segs[r[q]], segs[k]));
    } else {
        assert forall|j: int| 0 <= j < r.len() implies segs[#[trigger] r[j]].score >= segs[k].score by {
            assert(r.contains(r[j]));
            assert(g.contains(r[j]));
            let q = choose|q: int| 0 <= q < g.len() && g[q] == r[j];
        }
    }
}

} // verus!
