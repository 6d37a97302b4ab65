//! The king-all encoding: every piece indexed together with its
//! perspective's king square, 49152 features. `HalfKa` writes sparse
//! coordinate lanes; `HalfKaCuda` writes the dense layout, one index per
//! feature, padded with the sentinel -1 to a fixed 32 slots per entry.
use vstd::prelude::*;

use crate::batch::Batch;
use crate::batch::EntryFeatureWriter;
use crate::batch::VALUE_UNIT;
use crate::board::Position;
use crate::board::Color;
use crate::board::Occupant;
use crate::board::Piece;
use crate::board::count_occupied;
use crate::board::count_occupied_below;
use crate::board::flip_rank;
use crate::board::spec_flip_rank;
use crate::board::spec_king_square_of;
use crate::features::coo_flat;
use crate::features::lemma_add_push;
use crate::features::lemma_coo_flat_len;
use crate::features::lemma_coo_flat_push;
use crate::marlinformat::lemma_count_occupied_strict;

verus! {

/// The feature index of a piece for one perspective, given that
/// perspective's king square; from black's view, colors swap and ranks
/// flip for king and piece alike.
pub open spec fn halfka_feature(persp: Color, king: int, c: Color, p: Piece, sq: int) -> int {
    let king2 = if persp is White {
        king
    } else {
        spec_flip_rank(king)
    };
    let sq2 = if persp is White {
        sq
    } else {
        spec_flip_rank(sq)
    };
    let c2 = if persp is White {
        c
    } else {
        c.spec_opposite()
    };
    king2 * 768 + c2.spec_code() * 384 + p.spec_code() * 64 + sq2
}

/// The feature indices of the occupied squares below `n`, in square
/// order, for the perspective whose king stands on `king`.
pub open spec fn halfka_seq(s: Seq<Occupant>, persp: Color, king: int, n: int) -> Seq<i64>
    decreases n,
{
    if n <= 0 {
        Seq::empty()
    } else {
        let prev = halfka_seq(s, persp, king, n - 1);
        match s[n - 1] {
            Some((c, p)) => prev.push(halfka_feature(persp, king, c, p, n - 1) as i64),
            None => prev,
        }
    }
}

pub proof fn lemma_halfka_seq_len(s: Seq<Occupant>, persp: Color, king: int, n: int)
    ensures
        halfka_seq(s, persp, king, n).len() == count_occupied_below(s, n),
    decreases n,
{
    if n > 0 {
        lemma_halfka_seq_len(s, persp, king, n - 1);
    }
}

/// Every emitted index lies in the 49152-wide feature space.
pub proof fn lemma_halfka_seq_range(s: Seq<Occupant>, persp: Color, king: int, n: int)
    requires
        n <= 64,
        0 <= king < 64,
    ensures
        forall|i: int|
            0 <= i < halfka_seq(s, persp, king, n).len() ==> 0 <= #[trigger] halfka_seq(
                s,
                persp,
                king,
                n,
            )[i] < 49152,
    decreases n,
{
    if n > 0 {
        lemma_halfka_seq_range(s, persp, king, n - 1);
        let prev = halfka_seq(s, persp, king, n - 1);
        let cur = halfka_seq(s, persp, king, n);
        assert forall|i: int| 0 <= i < cur.len() implies 0 <= #[trigger] cur[i] < 49152 by {
            match s[n - 1] {
                Some((c, p)) => {
                    if i < prev.len() {
                        assert(cur[i] == prev[i]);
                        assert(0 <= prev[i] < 49152);
                    } else {
                        assert(0 <= spec_flip_rank(n - 1) < 64 && 0 <= spec_flip_rank(king) < 64);
                    }
                },
                None => {
                    assert(0 <= prev[i] < 49152);
                },
            }
        }
    }
}

pub struct HalfKa;

impl HalfKa {
    pub const MAX_FEATURES: usize = 32;

    pub const INDICES_PER_FEATURE: usize = 2;

    pub const TENSORS_PER_BOARD: usize = 2;

    /// Write the board's features: lane zero for the side to move's
    /// perspective and king, lane one for the other side's.
    pub fn add_features(board: &Position, batch: &mut Batch, entry: EntryFeatureWriter)
        requires
            board.wf(),
            old(batch).wf(),
            entry.index_in_batch < old(batch).entries,
            old(batch).indices_per_feature == 2,
            old(batch).features@.len() == 2,
            old(batch).max_features == 32,
            forall|t: int|
                0 <= t < 2 ==> (#[trigger] old(batch).features@[t]).feature_count_spec() + 32
                    <= old(batch).capacity * old(batch).max_features,
        ensures
            final(batch).wf(),
            final(batch).same_shape(*old(batch)),
            final(batch).entries == old(batch).entries,
            final(batch).cp@ == old(batch).cp@,
            final(batch).wdl@ == old(batch).wdl@,
            final(batch).buckets@ == old(batch).buckets@,
            final(batch).features@[0].feature_buffer@ == old(batch).features@[0].feature_buffer@
                + coo_flat(
                entry.index_in_batch as i64,
                halfka_seq(
                    board.squares@,
                    board.side_to_move,
                    spec_king_square_of(board.squares@, board.side_to_move),
                    64,
                ),
            ),
            final(batch).features@[1].feature_buffer@ == old(batch).features@[1].feature_buffer@
                + coo_flat(
                entry.index_in_batch as i64,
                halfka_seq(
                    board.squares@,
                    board.side_to_move.spec_opposite(),
                    spec_king_square_of(board.squares@, board.side_to_move.spec_opposite()),
                    64,
                ),
            ),
            forall|t: int|
                0 <= t < 2 ==> (#[trigger] final(batch).features@[t]).feature_count_spec()
                    <= old(batch).features@[t].feature_count_spec() + 32,
            forall|t: int, i: int|
                0 <= t < 2 && old(batch).features@[t].values@.len() <= i
                    < final(batch).features@[t].values@.len()
                    ==> #[trigger] final(batch).features@[t].values@[i] == VALUE_UNIT,
    {
        let stm = board.side_to_move;
        let nstm = stm.opposite();
        let stm_king = board.king(stm);
        let nstm_king = board.king(nstm);
        let row = entry.index_in_batch as i64;
        let mut sq: usize = 0;
        while sq < 64
            invariant
                board.wf(),
                batch.wf(),
                batch.same_shape(*old(batch)),
                batch.entries == old(batch).entries,
                batch.cp@ == old(batch).cp@,
                batch.wdl@ == old(batch).wdl@,
                batch.buckets@ == old(batch).buckets@,
                entry.index_in_batch < batch.entries,
                stm == board.side_to_move,
                nstm == stm.spec_opposite(),
                stm_king == spec_king_square_of(board.squares@, stm),
                nstm_king == spec_king_square_of(board.squares@, nstm),
                stm_king < 64,
                nstm_king < 64,
                row == entry.index_in_batch as i64,
                sq <= 64,
                batch.features@.len() == 2,
                batch.indices_per_feature == 2,
                batch.max_features == 32,
                batch.features@[0].feature_buffer@ == old(batch).features@[0].feature_buffer@
                    + coo_flat(row, halfka_seq(board.squares@, stm, stm_king as int, sq as int)),
                batch.features@[1].feature_buffer@ == old(batch).features@[1].feature_buffer@
                    + coo_flat(row, halfka_seq(board.squares@, nstm, nstm_king as int, sq as int)),
                batch.features@[0].values@.len() == old(batch).features@[0].values@.len()
                    + count_occupied_below(board.squares@, sq as int),
                batch.features@[1].values@.len() == old(batch).features@[1].values@.len()
                    + count_occupied_below(board.squares@, sq as int),
                forall|t: int, i: int|
                    0 <= t < 2 && old(batch).features@[t].values@.len() <= i
                        < batch.features@[t].values@.len()
                        ==> #[trigger] batch.features@[t].values@[i] == VALUE_UNIT,
                forall|t: int|
                    0 <= t < 2 ==> (#[trigger] old(batch).features@[t]).feature_count_spec() + 32
                        <= old(batch).capacity * old(batch).max_features,
            decreases 64 - sq,
        {
            proof {
                crate::marlinformat::lemma_count_occupied_monotonic(board.squares@, 0, sq as int);
                crate::marlinformat::lemma_count_occupied_monotonic(board.squares@, sq as int, 64);
                lemma_halfka_seq_len(board.squares@, stm, stm_king as int, sq as int);
                lemma_halfka_seq_len(board.squares@, nstm, nstm_king as int, sq as int);
            }
            match board.squares[sq] {
                Some((c, p)) => {
                    proof {
                        lemma_count_occupied_strict(board.squares@, sq as int, 64);
                    }
                    let stm_feature = Self::feature(stm, stm_king, c, p, sq as u8);
                    let nstm_feature = Self::feature(nstm, nstm_king, c, p, sq as u8);
                    proof {
                        lemma_coo_flat_len(
                            row,
                            halfka_seq(board.squares@, stm, stm_king as int, sq as int),
                        );
                        lemma_coo_flat_len(
                            row,
                            halfka_seq(board.squares@, nstm, nstm_king as int, sq as int),
                        );
                    }
                    entry.add_feature(batch, 0, stm_feature as i64, VALUE_UNIT);
                    entry.add_feature(batch, 1, nstm_feature as i64, VALUE_UNIT);
                    proof {
                        let s2 = board.squares@;
                        let prev0 = halfka_seq(s2, stm, stm_king as int, sq as int);
                        let prev1 = halfka_seq(s2, nstm, nstm_king as int, sq as int);
                        let f0 = halfka_feature(stm, stm_king as int, c, p, sq as int) as i64;
                        let f1 = halfka_feature(nstm, nstm_king as int, c, p, sq as int) as i64;
                        assert(halfka_seq(s2, stm, stm_king as int, sq as int + 1) == prev0.push(
                            f0,
                        ));
                        assert(halfka_seq(s2, nstm, nstm_king as int, sq as int + 1) == prev1.push(
                            f1,
                        ));
                        lemma_coo_flat_push(row, prev0, f0);
                        lemma_coo_flat_push(row, prev1, f1);
                        lemma_add_push(
                            old(batch).features@[0].feature_buffer@,
                            coo_flat(row, prev0),
                            row,
                        );
                        lemma_add_push(
                            old(batch).features@[0].feature_buffer@,
                            coo_flat(row, prev0).push(row),
                            f0,
                        );
                        lemma_add_push(
                            old(batch).features@[1].feature_buffer@,
                            coo_flat(row, prev1),
                            row,
                        );
                        lemma_add_push(
                            old(batch).features@[1].feature_buffer@,
                            coo_flat(row, prev1).push(row),
                            f1,
                        );
                    }
                },
                None => {},
            }
            sq += 1;
        }
        proof {
            lemma_halfka_seq_len(board.squares@, stm, stm_king as int, 64);
            lemma_halfka_seq_len(board.squares@, nstm, nstm_king as int, 64);
        }
    }

    /// The feature index of one piece for one perspective and king.
    pub fn feature(persp: Color, king: u8, c: Color, p: Piece, sq: u8) -> (r: u32)
        requires
            king < 64,
            sq < 64,
        ensures
            r == halfka_feature(persp, king as int, c, p, sq as int),
            r < 49152,
    {
        let king2 = match persp {
            Color::White => king,
            Color::Black => flip_rank(king),
        };
        let sq2 = match persp {
            Color::White => sq,
            Color::Black => flip_rank(sq),
        };
        let c2 = match persp {
            Color::White => c,
            Color::Black => c.opposite(),
        };
        king2 as u32 * 768 + c2.code() as u32 * 384 + p.code() as u32 * 64 + sq2 as u32
    }
}

pub struct HalfKaCuda;

impl HalfKaCuda {
    pub const MAX_FEATURES: usize = 32;

    pub const INDICES_PER_FEATURE: usize = 1;

    pub const TENSORS_PER_BOARD: usize = 2;

    /// Write the board's features densely: the real indices first, then
    /// the sentinel -1 until the entry's 32 slots are full. Padding slots
    /// carry value zero.
    pub fn add_features(board: &Position, batch: &mut Batch, entry: EntryFeatureWriter)
        requires
            board.wf(),
            old(batch).wf(),
            entry.index_in_batch < old(batch).entries,
            old(batch).indices_per_feature == 1,
            old(batch).features@.len() == 2,
            old(batch).max_features == 32,
            forall|t: int|
                0 <= t < 2 ==> (#[trigger] old(batch).features@[t]).feature_count_spec() + 32
                    <= old(batch).capacity * old(batch).max_features,
        ensures
            final(batch).wf(),
            final(batch).same_shape(*old(batch)),
            final(batch).entries == old(batch).entries,
            final(batch).cp@ == old(batch).cp@,
            final(batch).wdl@ == old(batch).wdl@,
            final(batch).buckets@ == old(batch).buckets@,
            forall|t: int|
                0 <= t < 2 ==> (#[trigger] final(batch).features@[t]).feature_count_spec()
                    == old(batch).features@[t].feature_count_spec() + 32,
            ({
                let n = count_occupied(board.squares@);
                let s0 = halfka_seq(
                    board.squares@,
                    board.side_to_move,
                    spec_king_square_of(board.squares@, board.side_to_move),
                    64,
                );
                let s1 = halfka_seq(
                    board.squares@,
                    board.side_to_move.spec_opposite(),
                    spec_king_square_of(board.squares@, board.side_to_move.spec_opposite()),
                    64,
                );
                &&& forall|i: int|
                    0 <= i < n ==> #[trigger] final(batch).features@[0].feature_buffer@[old(batch).features@[0].feature_buffer@.len() + i] == s0[i]
                &&& forall|i: int|
                    0 <= i < n ==> #[trigger] final(batch).features@[1].feature_buffer@[old(batch).features@[1].feature_buffer@.len() + i] == s1[i]
                &&& forall|t: int, i: int|
                    0 <= t < 2 && n <= i < 32
                        ==> #[trigger] final(batch).features@[t].feature_buffer@[old(batch).features@[t].feature_buffer@.len() + i] == -1
            }),
    {
        let stm = board.side_to_move;
        let nstm = stm.opposite();
        let stm_king = board.king(stm);
        let nstm_king = board.king(nstm);
        let row = entry.index_in_batch as i64;
        let ghost old0 = batch.features@[0].feature_buffer@;
        let ghost old1 = batch.features@[1].feature_buffer@;
        let mut written: usize = 0;
        let mut sq: usize = 0;
        while sq < 64
            invariant
                board.wf(),
                batch.wf(),
                batch.same_shape(*old(batch)),
                batch.entries == old(batch).entries,
                batch.cp@ == old(batch).cp@,
                batch.wdl@ == old(batch).wdl@,
                batch.buckets@ == old(batch).buckets@,
                entry.index_in_batch < batch.entries,
                stm == board.side_to_move,
                nstm == stm.spec_opposite(),
                stm_king == spec_king_square_of(board.squares@, stm),
                nstm_king == spec_king_square_of(board.squares@, nstm),
                stm_king < 64,
                nstm_king < 64,
                old0 == old(batch).features@[0].feature_buffer@,
                old1 == old(batch).features@[1].feature_buffer@,
                sq <= 64,
                written == count_occupied_below(board.squares@, sq as int),
                batch.features@.len() == 2,
                batch.indices_per_feature == 1,
                batch.max_features == 32,
                batch.features@[0].feature_buffer@ == old0 + halfka_seq(
                    board.squares@,
                    stm,
                    stm_king as int,
                    sq as int,
                ),
                batch.features@[1].feature_buffer@ == old1 + halfka_seq(
                    board.squares@,
                    nstm,
                    nstm_king as int,
                    sq as int,
                ),
                batch.features@[0].values@.len() == old(batch).features@[0].values@.len() + written,
                batch.features@[1].values@.len() == old(batch).features@[1].values@.len() + written,
                forall|t: int|
                    0 <= t < 2 ==> (#[trigger] old(batch).features@[t]).feature_count_spec() + 32
                        <= old(batch).capacity * old(batch).max_features,
            decreases 64 - sq,
        {
            proof {
                crate::marlinformat::lemma_count_occupied_monotonic(board.squares@, 0, sq as int);
                crate::marlinformat::lemma_count_occupied_monotonic(board.squares@, sq as int, 64);
                lemma_halfka_seq_len(board.squares@, stm, stm_king as int, sq as int);
                lemma_halfka_seq_len(board.squares@, nstm, nstm_king as int, sq as int);
            }
            match board.squares[sq] {
                Some((c, p)) => {
                    proof {
                        lemma_count_occupied_strict(board.squares@, sq as int, 64);
                    }
                    let stm_feature = HalfKa::feature(stm, stm_king, c, p, sq as u8);
                    let nstm_feature = HalfKa::feature(nstm, nstm_king, c, p, sq as u8);
                    entry.add_feature(batch, 0, stm_feature as i64, VALUE_UNIT);
                    entry.add_feature(batch, 1, nstm_feature as i64, VALUE_UNIT);
                    written += 1;
                    proof {
                        let s2 = board.squares@;
                        let prev0 = halfka_seq(s2, stm, stm_king as int, sq as int);
                        let prev1 = halfka_seq(s2, nstm, nstm_king as int, sq as int);
                        let f0 = halfka_feature(stm, stm_king as int, c, p, sq as int) as i64;
                        let f1 = halfka_feature(nstm, nstm_king as int, c, p, sq as int) as i64;
                        assert(halfka_seq(s2, stm, stm_king as int, sq as int + 1) == prev0.push(
                            f0,
                        ));
                        assert(halfka_seq(s2, nstm, nstm_king as int, sq as int + 1) == prev1.push(
                            f1,
                        ));
                        lemma_add_push(old0, prev0, f0);
                        lemma_add_push(old1, prev1, f1);
                    }
                },
                None => {},
            }
            sq += 1;
        }
        proof {
            lemma_halfka_seq_len(board.squares@, stm, stm_king as int, 64);
            lemma_halfka_seq_len(board.squares@, nstm, nstm_king as int, 64);
        }
        let ghost n = count_occupied(board.squares@);
        let mut pad: usize = written;
        while pad < 32
            invariant
                batch.wf(),
                batch.same_shape(*old(batch)),
                batch.entries == old(batch).entries,
                batch.cp@ == old(batch).cp@,
                batch.wdl@ == old(batch).wdl@,
                batch.buckets@ == old(batch).buckets@,
                entry.index_in_batch < batch.entries,
                old0 == old(batch).features@[0].feature_buffer@,
                old1 == old(batch).features@[1].feature_buffer@,
                batch.features@.len() == 2,
                batch.indices_per_feature == 1,
                batch.max_features == 32,
                n == count_occupied(board.squares@),
                written == n,
                written <= pad <= 32,
                batch.features@[0].feature_buffer@.len() == old0.len() + pad,
                batch.features@[1].feature_buffer@.len() == old1.len() + pad,
                forall|i: int|
                    0 <= i < n ==> #[trigger] batch.features@[0].feature_buffer@[old0.len() + i]
                        == halfka_seq(
                        board.squares@,
                        board.side_to_move,
                        spec_king_square_of(board.squares@, board.side_to_move),
                        64,
                    )[i],
                forall|i: int|
                    0 <= i < n ==> #[trigger] batch.features@[1].feature_buffer@[old1.len() + i]
                        == halfka_seq(
                        board.squares@,
                        board.side_to_move.spec_opposite(),
                        spec_king_square_of(board.squares@, board.side_to_move.spec_opposite()),
                        64,
                    )[i],
                forall|i: int|
                    n <= i < pad ==> #[trigger] batch.features@[0].feature_buffer@[old0.len() + i]
                        == -1,
                forall|i: int|
                    n <= i < pad ==> #[trigger] batch.features@[1].feature_buffer@[old1.len() + i]
                        == -1,
                batch.features@[0].values@.len() == old(batch).features@[0].values@.len() + pad,
                batch.features@[1].values@.len() == old(batch).features@[1].values@.len() + pad,
                forall|t: int|
                    0 <= t < 2 ==> (#[trigger] old(batch).features@[t]).feature_count_spec() + 32
                        <= old(batch).capacity * old(batch).max_features,
            decreases 32 - pad,
        {
            entry.add_feature(batch, 0, -1, 0);
            entry.add_feature(batch, 1, -1, 0);
            pad += 1;
        }
    }
}

} // verus!
