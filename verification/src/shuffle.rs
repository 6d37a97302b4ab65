//! The in-memory stage of the large-file shuffle: records are split into
//! fixed-size blocks and each block is permuted in place, keeping the
//! whole record multiset. The multi-level group interleave over temporary
//! files stays with the embedding program.
use vstd::prelude::*;
use vstd::multiset::Multiset;
use vstd::seq_lib::lemma_multiset_commutative;

use crate::marlinformat::PackedBoard;

verus! {

/// Relies on rand's SliceRandom::shuffle: permute the subrange in place;
/// the rest of the list is untouched.
#[verifier::external_body]
fn shuffle_range(v: &mut Vec<PackedBoard>, a: usize, b: usize)
    requires
        a <= b <= old(v)@.len(),
    ensures
        final(v)@.len() == old(v)@.len(),
        final(v)@.subrange(a as int, b as int).to_multiset() == old(v)@.subrange(
            a as int,
            b as int,
        ).to_multiset(),
        forall|i: int| 0 <= i < a ==> final(v)@[i] == old(v)@[i],
        forall|i: int| b <= i < old(v)@.len() ==> final(v)@[i] == old(v)@[i],
{
    rand::seq::SliceRandom::shuffle(&mut v[a..b], &mut rand::thread_rng());
}

/// Permuting a subrange while fixing the rest permutes the whole.
proof fn lemma_subrange_permutation(s1: Seq<PackedBoard>, s2: Seq<PackedBoard>, a: int, b: int)
    requires
        s1.len() == s2.len(),
        0 <= a <= b <= s1.len(),
        s1.subrange(a, b).to_multiset() == s2.subrange(a, b).to_multiset(),
        forall|i: int| 0 <= i < a ==> s2[i] == s1[i],
        forall|i: int| b <= i < s1.len() ==> s2[i] == s1[i],
    ensures
        s1.to_multiset() == s2.to_multiset(),
{
    let n = s1.len() as int;
    assert(s1 =~= s1.subrange(0, a) + s1.subrange(a, b) + s1.subrange(b, n));
    assert(s2 =~= s2.subrange(0, a) + s2.subrange(a, b) + s2.subrange(b, n));
    assert(s2.subrange(0, a) =~= s1.subrange(0, a));
    assert(s2.subrange(b, n) =~= s1.subrange(b, n));
    lemma_multiset_commutative(s1.subrange(0, a) + s1.subrange(a, b), s1.subrange(b, n));
    lemma_multiset_commutative(s1.subrange(0, a), s1.subrange(a, b));
    lemma_multiset_commutative(s2.subrange(0, a) + s2.subrange(a, b), s2.subrange(b, n));
    lemma_multiset_commutative(s2.subrange(0, a), s2.subrange(a, b));
}

/// The end of the block starting at `a0`: one block further, or the end
/// of the list for the trailing partial block.
pub open spec fn block_end(a0: int, block_size: int, n: int) -> int {
    if a0 + block_size <= n {
        a0 + block_size
    } else {
        n
    }
}

/// Shuffle the records block by block: the list keeps its length and its
/// record multiset, and each block is permuted within itself.
pub fn shuffle_blocks(records: &mut Vec<PackedBoard>, block_size: usize)
    requires
        block_size > 0,
    ensures
        final(records)@.len() == old(records)@.len(),
        final(records)@.to_multiset() == old(records)@.to_multiset(),
        forall|a0: int|
            0 <= a0 < old(records)@.len() && a0 % (block_size as int) == 0
                ==> final(records)@.subrange(
                a0,
                block_end(a0, block_size as int, old(records)@.len() as int),
            ).to_multiset() =~= old(records)@.subrange(
                a0,
                block_end(a0, block_size as int, old(records)@.len() as int),
            ).to_multiset(),
{
    let n = records.len();
    let mut a: usize = 0;
    while a < n
        invariant
            n == records@.len(),
            block_size > 0,
            a <= n,
            a % block_size == 0 || a == n,
            records@.to_multiset() == old(records)@.to_multiset(),
            records@.len() == old(records)@.len(),
            forall|i: int| a <= i < n ==> records@[i] == old(records)@[i],
            forall|a0: int|
                0 <= a0 < a && a0 % (block_size as int) == 0 ==> records@.subrange(
                    a0,
                    block_end(a0, block_size as int, n as int),
                ).to_multiset() =~= old(records)@.subrange(
                    a0,
                    block_end(a0, block_size as int, n as int),
                ).to_multiset(),
        decreases n - a,
    {
        let b = if n - a < block_size {
            n
        } else {
            a + block_size
        };
        let ghost pre = records@;
        shuffle_range(records, a, b);
        proof {
            lemma_subrange_permutation(pre, records@, a as int, b as int);
            assert(pre.subrange(a as int, b as int) =~= old(records)@.subrange(a as int, b as int));
            assert(records@.subrange(a as int, b as int).to_multiset()
                =~= old(records)@.subrange(a as int, b as int).to_multiset());
            assert(block_end(a as int, block_size as int, n as int) == b as int);
            if b < n {
                assert((a as int + block_size as int) % (block_size as int) == 0)
                    by (nonlinear_arith)
                    requires
                        (a as int) % (block_size as int) == 0,
                        block_size as int > 0,
                ;
            }
            assert forall|a0: int|
                0 <= a0 < b && a0 % (block_size as int) == 0 implies records@.subrange(
                a0,
                block_end(a0, block_size as int, n as int),
            ).to_multiset() =~= old(records)@.subrange(
                a0,
                block_end(a0, block_size as int, n as int),
            ).to_multiset() by {
                if a0 < a {
                    assert(a0 + block_size as int <= a as int) by (nonlinear_arith)
                        requires
                            a0 % (block_size as int) == 0,
                            (a as int) % (block_size as int) == 0,
                            0 <= a0 < a as int,
                            block_size as int > 0,
                    ;
                    assert(block_end(a0, block_size as int, n as int) <= a as int);
                    assert(records@.subrange(a0, block_end(a0, block_size as int, n as int))
                        =~= pre.subrange(a0, block_end(a0, block_size as int, n as int)));
                } else {
                    assert(a0 == a as int) by (nonlinear_arith)
                        requires
                            a0 % (block_size as int) == 0,
                            (a as int) % (block_size as int) == 0,
                            a as int <= a0 < a as int + block_size as int,
                            block_size as int > 0,
                    ;
                }
            }
        }
        a = b;
    }
}

} // verus!
