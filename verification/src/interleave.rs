//! Random interleaving of packed-record datasets: each step draws a
//! source with probability proportional to its remaining record count and
//! emits its next record, so the output holds every input record exactly
//! once. The file handling stays with the embedding program; the merge
//! itself is verified.
use vstd::prelude::*;
use vstd::multiset::Multiset;
use vstd::seq_lib::lemma_multiset_commutative;

use crate::marlinformat::PackedBoard;

verus! {

/// Relies on rand's thread_rng and Rng::gen_range: a draw below the
/// bound; nothing else is assumed of it.
#[verifier::external_body]
fn random_below(bound: u64) -> (r: u64)
    requires
        bound > 0,
    ensures
        r < bound,
{
    rand::Rng::gen_range(&mut rand::thread_rng(), 0..bound)
}

/// The records remaining across the tail of the source list.
pub open spec fn suffix_len(ss: Seq<Vec<PackedBoard>>, from: int) -> int
    decreases ss.len() - from,
{
    if from < 0 || from >= ss.len() {
        0
    } else {
        ss[from]@.len() + suffix_len(ss, from + 1)
    }
}

pub open spec fn total_len(ss: Seq<Vec<PackedBoard>>) -> int {
    suffix_len(ss, 0)
}

/// Everything the sources still hold, as one multiset.
pub open spec fn remaining_multiset(ss: Seq<Vec<PackedBoard>>) -> Multiset<PackedBoard>
    decreases ss.len(),
{
    if ss.len() == 0 {
        Multiset::empty()
    } else {
        remaining_multiset(ss.drop_last()).add(ss.last()@.to_multiset())
    }
}

proof fn lemma_suffix_len_nonneg(ss: Seq<Vec<PackedBoard>>, from: int)
    ensures
        suffix_len(ss, from) >= 0,
    decreases ss.len() - from,
{
    if 0 <= from < ss.len() {
        lemma_suffix_len_nonneg(ss, from + 1);
    }
}

/// Dropping one record from one source drops it from the totals.
proof fn lemma_pop_source(ss: Seq<Vec<PackedBoard>>, ss2: Seq<Vec<PackedBoard>>, idx: int)
    requires
        0 <= idx < ss.len(),
        ss[idx]@.len() > 0,
        ss2.len() == ss.len(),
        ss2[idx]@ == ss[idx]@.drop_last(),
        forall|j: int| 0 <= j < ss.len() && j != idx ==> ss2[j] == ss[j],
    ensures
        remaining_multiset(ss) == remaining_multiset(ss2).insert(ss[idx]@.last()),
        forall|from: int|
            0 <= from <= idx ==> #[trigger] suffix_len(ss2, from) == suffix_len(ss, from) - 1,
        forall|from: int| from > idx ==> #[trigger] suffix_len(ss2, from) == suffix_len(ss, from),
    decreases ss.len(),
{
    let x = ss[idx]@.last();
    assert forall|from: int| from > idx implies #[trigger] suffix_len(ss2, from) == suffix_len(
        ss,
        from,
    ) by {
        lemma_suffix_eq(ss, ss2, from, idx);
    }
    assert forall|from: int| 0 <= from <= idx implies #[trigger] suffix_len(ss2, from)
        == suffix_len(ss, from) - 1 by {
        lemma_suffix_drop(ss, ss2, from, idx);
    }
    if idx == ss.len() - 1 {
        assert(ss2.drop_last() =~= ss.drop_last());
        assert(ss[idx]@ =~= ss2[idx]@.push(x));
        vstd::seq_lib::to_multiset_build(ss2[idx]@, x);
        assert(ss[idx]@.to_multiset() == ss2[idx]@.to_multiset().insert(x));
        assert(remaining_multiset(ss) =~= remaining_multiset(ss2).insert(x));
    } else {
        lemma_pop_source(ss.drop_last(), ss2.drop_last(), idx);
        assert(ss.drop_last()[idx] == ss[idx] && ss2.drop_last()[idx] == ss2[idx]);
        assert(ss.last() == ss2.last());
        assert(remaining_multiset(ss) =~= remaining_multiset(ss2).insert(x));
    }
}

proof fn lemma_suffix_eq(ss: Seq<Vec<PackedBoard>>, ss2: Seq<Vec<PackedBoard>>, from: int, idx: int)
    requires
        ss2.len() == ss.len(),
        forall|j: int| 0 <= j < ss.len() && j != idx ==> ss2[j] == ss[j],
        from > idx,
    ensures
        suffix_len(ss2, from) == suffix_len(ss, from),
    decreases ss.len() - from,
{
    if 0 <= from < ss.len() {
        lemma_suffix_eq(ss, ss2, from + 1, idx);
    }
}

proof fn lemma_suffix_drop(
    ss: Seq<Vec<PackedBoard>>,
    ss2: Seq<Vec<PackedBoard>>,
    from: int,
    idx: int,
)
    requires
        0 <= idx < ss.len(),
        ss[idx]@.len() > 0,
        ss2.len() == ss.len(),
        ss2[idx]@ == ss[idx]@.drop_last(),
        forall|j: int| 0 <= j < ss.len() && j != idx ==> ss2[j] == ss[j],
        0 <= from <= idx,
    ensures
        suffix_len(ss2, from) == suffix_len(ss, from) - 1,
    decreases ss.len() - from,
{
    if from < idx {
        lemma_suffix_drop(ss, ss2, from + 1, idx);
    } else {
        lemma_suffix_eq(ss, ss2, from + 1, idx);
    }
}

/// The first source whose remaining records cover the drawn spot,
/// skipping exhausted sources.
fn pick_stream(streams: &Vec<Vec<PackedBoard>>, spot: u64) -> (idx: usize)
    requires
        spot < suffix_len(streams@, 0),
    ensures
        idx < streams@.len(),
        streams@[idx as int]@.len() > 0,
{
    let n = streams.len();
    let mut idx: usize = 0;
    let mut left: u64 = spot;
    proof {
        lemma_suffix_len_nonneg(streams@, 1);
    }
    while streams[idx].len() as u64 <= left
        invariant
            n == streams@.len(),
            idx < streams@.len(),
            left <= spot,
            left < suffix_len(streams@, idx as int),
        decreases streams@.len() - idx,
    {
        proof {
            if idx + 1 == streams@.len() {
                assert(suffix_len(streams@, idx as int + 1) == 0);
                assert(false);
            }
            lemma_suffix_len_nonneg(streams@, idx as int + 2);
        }
        left = left - streams[idx].len() as u64;
        idx += 1;
    }
    idx
}

/// The running total of the first `n` counts.
pub open spec fn counts_prefix(counts: Seq<u64>, n: int) -> int
    decreases n,
{
    if n <= 0 {
        0
    } else {
        counts_prefix(counts, n - 1) + counts[n - 1]
    }
}

/// The decision step of a streaming proportional merge: the source whose
/// interval of remaining counts covers the drawn spot, skipping exhausted
/// sources. The embedding program keeps only the file reads around it.
pub fn pick_by_counts(counts: &Vec<u64>, spot: u64) -> (idx: usize)
    requires
        spot < counts_prefix(counts@, counts@.len() as int),
    ensures
        idx < counts@.len(),
        counts@[idx as int] > 0,
        counts_prefix(counts@, idx as int) <= spot < counts_prefix(counts@, idx as int + 1),
{
    let n = counts.len();
    proof {
        if n == 0 {
            assert(counts_prefix(counts@, 0) == 0);
            assert(false);
        }
    }
    let mut idx: usize = 0;
    let mut left: u64 = spot;
    while counts[idx] <= left
        invariant
            n == counts@.len(),
            idx < n,
            left <= spot,
            left == spot - counts_prefix(counts@, idx as int),
            counts_prefix(counts@, idx as int) <= spot,
            spot < counts_prefix(counts@, n as int),
        decreases n - idx,
    {
        proof {
            assert(counts_prefix(counts@, idx as int + 1) == counts_prefix(counts@, idx as int)
                + counts@[idx as int]);
            if idx + 1 == n {
                assert(counts_prefix(counts@, n as int) <= spot);
                assert(false);
            }
        }
        left = left - counts[idx];
        idx += 1;
    }
    idx
}

/// Reverse a record list, consuming it.
fn reverse_records(v: Vec<PackedBoard>) -> (r: Vec<PackedBoard>)
    ensures
        r@ == v@.reverse(),
{
    let mut v = v;
    let mut r: Vec<PackedBoard> = Vec::new();
    let ghost orig = v@;
    while v.len() > 0
        invariant
            orig.len() == v@.len() + r@.len(),
            v@ == orig.subrange(0, v@.len() as int),
            forall|i: int| 0 <= i < r@.len() ==> r@[i] == orig[orig.len() - 1 - i],
        decreases v@.len(),
    {
        let x = match v.pop() {
            Some(x) => x,
            None => unreached(),
        };
        r.push(x);
    }
    proof {
        assert(r@ =~= v@.reverse() + r@);
        assert(r@ =~= orig.reverse());
    }
    r
}

/// One record list occurs in another in order, possibly with gaps.
pub open spec fn is_subsequence(a: Seq<PackedBoard>, b: Seq<PackedBoard>) -> bool
    decreases a.len() + b.len(),
{
    if a.len() == 0 {
        true
    } else if b.len() == 0 {
        false
    } else if a.last() == b.last() {
        is_subsequence(a.drop_last(), b.drop_last())
    } else {
        is_subsequence(a, b.drop_last())
    }
}

/// A subsequence stays one when its last element is dropped.
proof fn lemma_subseq_drop_left(a: Seq<PackedBoard>, b: Seq<PackedBoard>)
    requires
        is_subsequence(a, b),
        a.len() > 0,
    ensures
        is_subsequence(a.drop_last(), b),
    decreases b.len(),
{
    if b.len() > 0 {
        if a.last() == b.last() {
            if a.drop_last().len() > 0 {
                if a.drop_last().last() == b.last() {
                    lemma_subseq_drop_left(a.drop_last(), b.drop_last());
                }
            }
        } else {
            lemma_subseq_drop_left(a, b.drop_last());
            if a.drop_last().len() > 0 && a.drop_last().last() == b.last() {
                lemma_subseq_drop_left(a.drop_last(), b.drop_last());
            }
        }
    }
}

/// A subsequence stays one when the larger list grows.
proof fn lemma_subseq_grow_right(a: Seq<PackedBoard>, b: Seq<PackedBoard>, x: PackedBoard)
    requires
        is_subsequence(a, b),
    ensures
        is_subsequence(a, b.push(x)),
{
    assert(b.push(x).drop_last() =~= b);
    assert(b.push(x).last() == x);
    if a.len() > 0 && a.last() == x {
        lemma_subseq_drop_left(a, b);
    }
}

/// Appending the same record to both sides keeps the subsequence.
proof fn lemma_subseq_push_both(a: Seq<PackedBoard>, b: Seq<PackedBoard>, x: PackedBoard)
    requires
        is_subsequence(a, b),
    ensures
        is_subsequence(a.push(x), b.push(x)),
{
    assert(a.push(x).drop_last() =~= a);
    assert(b.push(x).drop_last() =~= b);
}

/// Taking the next record from a reversed suffix advances the suffix.
proof fn lemma_reverse_skip_pop(s: Seq<PackedBoard>, k: int)
    requires
        0 <= k < s.len(),
    ensures
        s.skip(k).reverse().len() == s.len() - k,
        s.skip(k).reverse().last() == s[k],
        s.skip(k).reverse().drop_last() =~= s.skip(k + 1).reverse(),
{
}

/// Merge the sources into one list by repeated proportional draws. The
/// output holds exactly the input records, each one exactly once as a
/// multiset, and every source's records keep their relative order.
pub fn interleave_records(inputs: Vec<Vec<PackedBoard>>) -> (out: Vec<PackedBoard>)
    requires
        total_len(inputs@) <= 0xffff_ffff_ffff_ffff,
    ensures
        out@.len() == total_len(inputs@),
        out@.to_multiset() == remaining_multiset(inputs@),
        forall|j: int| 0 <= j < inputs@.len() ==> is_subsequence(#[trigger] inputs@[j]@, out@),
{
    let ghost all = remaining_multiset(inputs@);
    let ghost full = total_len(inputs@);
    let mut inputs = inputs;
    let ghost orig_inputs = inputs@;
    let mut streams: Vec<Vec<PackedBoard>> = Vec::new();
    let mut total: u64 = 0;
    // reverse each source, so that taking from a source's end yields its
    // records in file order
    while inputs.len() > 0
        invariant
            total_len(orig_inputs) <= 0xffff_ffff_ffff_ffff,
            inputs@ == orig_inputs.subrange(
                streams@.len() as int,
                orig_inputs.len() as int,
            ),
            streams@.len() + inputs@.len() == orig_inputs.len(),
            total == total_len(orig_inputs) - suffix_len(orig_inputs, streams@.len() as int),
            forall|j: int|
                0 <= j < streams@.len() ==> (#[trigger] streams@[j])@ == orig_inputs[j]@.reverse(),
        decreases inputs@.len(),
    {
        let ghost k = streams@.len() as int;
        proof {
            lemma_suffix_len_nonneg(orig_inputs, k + 1);
            lemma_suffix_prefix_bound(orig_inputs, k);
            assert(inputs@[0] == orig_inputs[k]);
        }
        let v = inputs.remove(0);
        let n64 = v.len() as u64;
        let rev = reverse_records(v);
        streams.push(rev);
        total = total + n64;
        proof {
            assert(inputs@ =~= orig_inputs.subrange(
                streams@.len() as int,
                orig_inputs.len() as int,
            ));
        }
    }
    proof {
        assert(streams@.len() == orig_inputs.len());
        lemma_suffix_len_nonneg(orig_inputs, orig_inputs.len() as int);
        lemma_mirror_totals(orig_inputs, streams@);
    }
    let mut out: Vec<PackedBoard> = Vec::new();
    proof {
        out@.to_multiset_ensures();
        assert(out@.to_multiset() =~= Multiset::empty());
        assert(out@.to_multiset().add(remaining_multiset(streams@)) =~= all);
        assert forall|j: int| 0 <= j < streams@.len() implies (#[trigger] streams@[j])@
            == orig_inputs[j]@.skip(orig_inputs[j]@.len() - streams@[j]@.len()).reverse() by {
            assert(orig_inputs[j]@.skip(0) =~= orig_inputs[j]@);
        }
        assert forall|j: int| 0 <= j < streams@.len() implies is_subsequence(
            #[trigger] orig_inputs[j]@.take(orig_inputs[j]@.len() - streams@[j]@.len()),
            out@,
        ) by {
            assert(orig_inputs[j]@.take(0).len() == 0);
        }
    }
    while total > 0
        invariant
            total == suffix_len(streams@, 0),
            out@.len() + total == full,
            out@.to_multiset().add(remaining_multiset(streams@)) =~= all,
            streams@.len() == orig_inputs.len(),
            forall|j: int|
                0 <= j < streams@.len() ==> (#[trigger] streams@[j])@.len()
                    <= orig_inputs[j]@.len(),
            forall|j: int|
                0 <= j < streams@.len() ==> (#[trigger] streams@[j])@ == orig_inputs[j]@.skip(
                    orig_inputs[j]@.len() - streams@[j]@.len(),
                ).reverse(),
            forall|j: int|
                0 <= j < streams@.len() ==> is_subsequence(
                    #[trigger] orig_inputs[j]@.take(
                        orig_inputs[j]@.len() - streams@[j]@.len(),
                    ),
                    out@,
                ),
        decreases total,
    {
        let spot = random_below(total);
        let idx = pick_stream(&streams, spot);
        let ghost pre = streams@;
        let ghost pre_out = out@;
        let lane = &mut streams[idx];
        let rec = match lane.pop() {
            Some(rec) => rec,
            None => unreached(),
        };
        proof {
            lemma_pop_source(pre, streams@, idx as int);
            vstd::seq_lib::to_multiset_build(out@, rec);
            let source = orig_inputs[idx as int]@;
            let k = source.len() - pre[idx as int]@.len();
            assert(0 < pre[idx as int]@.len() <= source.len());
            lemma_reverse_skip_pop(source, k);
            assert(rec == source[k]);
            assert(streams@[idx as int]@ =~= source.skip(k + 1).reverse());
        }
        out.push(rec);
        total = total - 1;
        proof {
            let source = orig_inputs[idx as int]@;
            let k = source.len() - pre[idx as int]@.len();
            assert forall|j: int| 0 <= j < streams@.len() implies is_subsequence(
                #[trigger] orig_inputs[j]@.take(orig_inputs[j]@.len() - streams@[j]@.len()),
                out@,
            ) by {
                if j == idx {
                    assert(source.take(k + 1) =~= source.take(k).push(source[k]));
                    lemma_subseq_push_both(source.take(k), pre_out, rec);
                } else {
                    lemma_subseq_grow_right(
                        orig_inputs[j]@.take(orig_inputs[j]@.len() - streams@[j]@.len()),
                        pre_out,
                        rec,
                    );
                }
            }
        }
    }
    proof {
        lemma_empty_remaining(streams@, 0);
        lemma_suffix_all_zero(streams@, 0);
        assert(out@.to_multiset() =~= all);
        assert forall|j: int| 0 <= j < orig_inputs.len() implies is_subsequence(
            #[trigger] orig_inputs[j]@,
            out@,
        ) by {
            assert(streams@[j]@.len() == 0);
            assert(is_subsequence(
                orig_inputs[j]@.take(orig_inputs[j]@.len() - streams@[j]@.len()),
                out@,
            ));
            assert(orig_inputs[j]@.take(orig_inputs[j]@.len() - 0) =~= orig_inputs[j]@);
        }
    }
    out
}

proof fn lemma_suffix_prefix_bound(ss: Seq<Vec<PackedBoard>>, from: int)
    requires
        0 <= from <= ss.len(),
    ensures
        suffix_len(ss, 0) >= suffix_len(ss, from),
    decreases from,
{
    if from > 0 {
        lemma_suffix_prefix_bound(ss, from - 1);
        if from - 1 < ss.len() {
            lemma_suffix_len_nonneg(ss, from - 1);
            lemma_suffix_len_nonneg(ss, from);
        }
    }
}

/// Reversing every source changes neither the total count nor the
/// combined multiset.
proof fn lemma_mirror_totals(a: Seq<Vec<PackedBoard>>, b: Seq<Vec<PackedBoard>>)
    requires
        a.len() == b.len(),
        forall|j: int| 0 <= j < a.len() ==> (#[trigger] b[j])@ == a[j]@.reverse(),
    ensures
        remaining_multiset(b) == remaining_multiset(a),
        forall|from: int| #[trigger] suffix_len(b, from) == suffix_len(a, from),
    decreases a.len(),
{
    assert forall|from: int| #[trigger] suffix_len(b, from) == suffix_len(a, from) by {
        lemma_mirror_suffix(a, b, from);
    }
    if a.len() > 0 {
        lemma_mirror_totals(a.drop_last(), b.drop_last());
        b.last()@.lemma_reverse_to_multiset();
        assert(b.last()@ == a.last()@.reverse());
        assert(a.last()@.reverse().to_multiset() == a.last()@.to_multiset()) by {
            a.last()@.lemma_reverse_to_multiset();
        }
        assert(remaining_multiset(b) =~= remaining_multiset(a));
    }
}

proof fn lemma_mirror_suffix(a: Seq<Vec<PackedBoard>>, b: Seq<Vec<PackedBoard>>, from: int)
    requires
        a.len() == b.len(),
        forall|j: int| 0 <= j < a.len() ==> (#[trigger] b[j])@ == a[j]@.reverse(),
    ensures
        suffix_len(b, from) == suffix_len(a, from),
    decreases a.len() - from,
{
    if 0 <= from < a.len() {
        lemma_mirror_suffix(a, b, from + 1);
    }
}

/// Sources with nothing left hold the empty multiset.
proof fn lemma_empty_remaining(ss: Seq<Vec<PackedBoard>>, from: int)
    requires
        suffix_len(ss, 0) == 0,
    ensures
        remaining_multiset(ss) =~= Multiset::empty(),
    decreases ss.len(),
{
    if ss.len() > 0 {
        lemma_suffix_all_zero(ss, 0);
        assert(ss.last()@.len() == 0);
        assert(ss.last()@.to_multiset() =~= Multiset::<PackedBoard>::empty()) by {
            ss.last()@.to_multiset_ensures();
        }
        lemma_drop_last_suffix(ss);
        lemma_empty_remaining(ss.drop_last(), 0);
    }
}

proof fn lemma_suffix_all_zero(ss: Seq<Vec<PackedBoard>>, from: int)
    requires
        0 <= from <= ss.len(),
        suffix_len(ss, from) == 0,
    ensures
        forall|j: int| from <= j < ss.len() ==> (#[trigger] ss[j])@.len() == 0,
    decreases ss.len() - from,
{
    if from < ss.len() {
        lemma_suffix_len_nonneg(ss, from + 1);
        lemma_suffix_all_zero(ss, from + 1);
    }
}

proof fn lemma_drop_last_suffix(ss: Seq<Vec<PackedBoard>>)
    requires
        ss.len() > 0,
        ss.last()@.len() == 0,
        suffix_len(ss, 0) == 0,
    ensures
        suffix_len(ss.drop_last(), 0) == 0,
{
    lemma_suffix_drop_last(ss, 0);
}

proof fn lemma_suffix_drop_last(ss: Seq<Vec<PackedBoard>>, from: int)
    requires
        ss.len() > 0,
        ss.last()@.len() == 0,
    ensures
        suffix_len(ss.drop_last(), from) == suffix_len(ss, from),
    decreases ss.len() - from,
{
    if 0 <= from < ss.len() - 1 {
        lemma_suffix_drop_last(ss, from + 1);
    } else if from == ss.len() - 1 {
        assert(suffix_len(ss.drop_last(), from) == 0);
        assert(suffix_len(ss, from) == ss[from]@.len() + suffix_len(ss, from + 1));
        assert(suffix_len(ss, from + 1) == 0);
    }
}

} // verus!
