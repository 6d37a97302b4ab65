//! The king-piece encoding: every piece but the kings, indexed together
//! with its perspective's king square, 40960 features.
use vstd::prelude::*;

use crate::batch::Batch;
use crate::batch::EntryFeatureWriter;
use crate::batch::VALUE_UNIT;
use crate::board::Position;
use crate::board::Color;
use crate::board::Occupant;
use crate::board::Piece;
use crate::board::count_occupied_below;
use crate::board::count_piece_below;
use crate::board::flip_rank;
use crate::board::occupant_piece;
use crate::board::spec_flip_rank;
use crate::board::spec_king_square_of;
use crate::features::coo_flat;
use crate::features::lemma_add_push;
use crate::features::lemma_coo_flat_len;
use crate::features::lemma_coo_flat_push;

verus! {

/// The feature index of a non-king piece for one perspective, given that
/// perspective's king square.
pub open spec fn halfkp_feature(persp: Color, king: int, c: Color, p: Piece, sq: int) -> int {
    let king2 = if persp is White {
        king
    } else {
        spec_flip_rank(king)
    };
    let sq2 = if persp is White {
        sq
    } else {
        spec_flip_rank(sq)
    };
    let c2 = if persp is White {
        c
    } else {
        c.spec_opposite()
    };
    king2 * 640 + c2.spec_code() * 320 + p.spec_code() * 64 + sq2
}

/// The feature indices of the occupied non-king squares below `n`.
pub open spec fn halfkp_seq(s: Seq<Occupant>, persp: Color, king: int, n: int) -> Seq<i64>
    decreases n,
{
    if n <= 0 {
        Seq::empty()
    } else {
        let prev = halfkp_seq(s, persp, king, n - 1);
        match s[n - 1] {
            Some((c, p)) => if p == Piece::King {
                prev
            } else {
                prev.push(halfkp_feature(persp, king, c, p, n - 1) as i64)
            },
            None => prev,
        }
    }
}

/// How many of the squares below `n` hold a piece other than a king.
pub open spec fn count_nonking_below(s: Seq<Occupant>, n: int) -> int
    decreases n,
{
    if n <= 0 {
        0
    } else {
        count_nonking_below(s, n - 1) + if s[n - 1] is Some && occupant_piece(s[n - 1])
            != Piece::King {
            1int
        } else {
            0int
        }
    }
}

pub proof fn lemma_halfkp_seq_len(s: Seq<Occupant>, persp: Color, king: int, n: int)
    ensures
        halfkp_seq(s, persp, king, n).len() == count_nonking_below(s, n),
    decreases n,
{
    if n > 0 {
        lemma_halfkp_seq_len(s, persp, king, n - 1);
    }
}

/// Every emitted index lies in the 40960-wide feature space.
pub proof fn lemma_halfkp_seq_range(s: Seq<Occupant>, persp: Color, king: int, n: int)
    requires
        n <= 64,
        0 <= king < 64,
    ensures
        forall|i: int|
            0 <= i < halfkp_seq(s, persp, king, n).len() ==> 0 <= #[trigger] halfkp_seq(
                s,
                persp,
                king,
                n,
            )[i] < 40960,
    decreases n,
{
    if n > 0 {
        lemma_halfkp_seq_range(s, persp, king, n - 1);
        let prev = halfkp_seq(s, persp, king, n - 1);
        let cur = halfkp_seq(s, persp, king, n);
        assert forall|i: int| 0 <= i < cur.len() implies 0 <= #[trigger] cur[i] < 40960 by {
            match s[n - 1] {
                Some((c, p)) => {
                    if i < prev.len() {
                        assert(cur[i] == prev[i]);
                        assert(0 <= prev[i] < 40960);
                    } else {
                        assert(p != Piece::King && p.spec_code() <= 4);
                        assert(0 <= spec_flip_rank(n - 1) < 64 && 0 <= spec_flip_rank(king) < 64);
                    }
                },
                None => {
                    assert(0 <= prev[i] < 40960);
                },
            }
        }
    }
}

/// Non-king pieces and kings together are the occupied squares.
pub proof fn lemma_count_nonking_split(s: Seq<Occupant>, n: int)
    ensures
        count_nonking_below(s, n) + count_piece_below(s, Color::White, Piece::King, n)
            + count_piece_below(s, Color::Black, Piece::King, n) == count_occupied_below(s, n),
    decreases n,
{
    if n > 0 {
        lemma_count_nonking_split(s, n - 1);
        match s[n - 1] {
            Some((c, p)) => {
                if p == Piece::King {
                    assert(s[n - 1] == Some((c, Piece::King)));
                }
            },
            None => {},
        }
    }
}

pub proof fn lemma_count_nonking_monotonic(s: Seq<Occupant>, m: int, n: int)
    requires
        m <= n,
    ensures
        count_nonking_below(s, m) <= count_nonking_below(s, n),
    decreases n - m,
{
    if m < n {
        lemma_count_nonking_monotonic(s, m, n - 1);
    }
}

pub proof fn lemma_count_nonking_strict(s: Seq<Occupant>, sq: int, n: int)
    requires
        0 <= sq < n,
        s[sq] is Some,
        occupant_piece(s[sq]) != Piece::King,
    ensures
        count_nonking_below(s, sq) < count_nonking_below(s, n),
{
    lemma_count_nonking_monotonic(s, sq + 1, n);
}

pub struct HalfKp;

impl HalfKp {
    pub const MAX_FEATURES: usize = 30;

    pub const INDICES_PER_FEATURE: usize = 2;

    pub const TENSORS_PER_BOARD: usize = 2;

    /// Write the board's non-king features: lane zero for the side to
    /// move's perspective and king, lane one for the other side's.
    pub fn add_features(board: &Position, batch: &mut Batch, entry: EntryFeatureWriter)
        requires
            board.wf(),
            old(batch).wf(),
            entry.index_in_batch < old(batch).entries,
            old(batch).indices_per_feature == 2,
            old(batch).features@.len() == 2,
            old(batch).max_features == 30,
            forall|t: int|
                0 <= t < 2 ==> (#[trigger] old(batch).features@[t]).feature_count_spec() + 30
                    <= old(batch).capacity * old(batch).max_features,
        ensures
            final(batch).wf(),
            final(batch).same_shape(*old(batch)),
            final(batch).entries == old(batch).entries,
            final(batch).cp@ == old(batch).cp@,
            final(batch).wdl@ == old(batch).wdl@,
            final(batch).buckets@ == old(batch).buckets@,
            final(batch).features@[0].feature_buffer@ == old(batch).features@[0].feature_buffer@
                + coo_flat(
                entry.index_in_batch as i64,
                halfkp_seq(
                    board.squares@,
                    board.side_to_move,
                    spec_king_square_of(board.squares@, board.side_to_move),
                    64,
                ),
            ),
            final(batch).features@[1].feature_buffer@ == old(batch).features@[1].feature_buffer@
                + coo_flat(
                entry.index_in_batch as i64,
                halfkp_seq(
                    board.squares@,
                    board.side_to_move.spec_opposite(),
                    spec_king_square_of(board.squares@, board.side_to_move.spec_opposite()),
                    64,
                ),
            ),
            forall|t: int|
                0 <= t < 2 ==> (#[trigger] final(batch).features@[t]).feature_count_spec()
                    <= old(batch).features@[t].feature_count_spec() + 30,
            forall|t: int, i: int|
                0 <= t < 2 && old(batch).features@[t].values@.len() <= i
                    < final(batch).features@[t].values@.len()
                    ==> #[trigger] final(batch).features@[t].values@[i] == VALUE_UNIT,
    {
        let stm = board.side_to_move;
        let nstm = stm.opposite();
        let stm_king = board.king(stm);
        let nstm_king = board.king(nstm);
        let row = entry.index_in_batch as i64;
        let mut sq: usize = 0;
        while sq < 64
            invariant
                board.wf(),
                batch.wf(),
                batch.same_shape(*old(batch)),
                batch.entries == old(batch).entries,
                batch.cp@ == old(batch).cp@,
                batch.wdl@ == old(batch).wdl@,
                batch.buckets@ == old(batch).buckets@,
                entry.index_in_batch < batch.entries,
                stm == board.side_to_move,
                nstm == stm.spec_opposite(),
                stm_king == spec_king_square_of(board.squares@, stm),
                nstm_king == spec_king_square_of(board.squares@, nstm),
                stm_king < 64,
                nstm_king < 64,
                row == entry.index_in_batch as i64,
                sq <= 64,
                batch.features@.len() == 2,
                batch.indices_per_feature == 2,
                batch.max_features == 30,
                batch.features@[0].feature_buffer@ == old(batch).features@[0].feature_buffer@
                    + coo_flat(row, halfkp_seq(board.squares@, stm, stm_king as int, sq as int)),
                batch.features@[1].feature_buffer@ == old(batch).features@[1].feature_buffer@
                    + coo_flat(row, halfkp_seq(board.squares@, nstm, nstm_king as int, sq as int)),
                batch.features@[0].values@.len() == old(batch).features@[0].values@.len()
                    + count_nonking_below(board.squares@, sq as int),
                batch.features@[1].values@.len() == old(batch).features@[1].values@.len()
                    + count_nonking_below(board.squares@, sq as int),
                forall|t: int, i: int|
                    0 <= t < 2 && old(batch).features@[t].values@.len() <= i
                        < batch.features@[t].values@.len()
                        ==> #[trigger] batch.features@[t].values@[i] == VALUE_UNIT,
                forall|t: int|
                    0 <= t < 2 ==> (#[trigger] old(batch).features@[t]).feature_count_spec() + 30
                        <= old(batch).capacity * old(batch).max_features,
            decreases 64 - sq,
        {
            proof {
                lemma_count_nonking_monotonic(board.squares@, 0, sq as int);
                lemma_count_nonking_monotonic(board.squares@, sq as int, 64);
                lemma_count_nonking_split(board.squares@, 64);
                lemma_halfkp_seq_len(board.squares@, stm, stm_king as int, sq as int);
                lemma_halfkp_seq_len(board.squares@, nstm, nstm_king as int, sq as int);
            }
            match board.squares[sq] {
                Some((c, p)) => {
                    if !matches!(p, Piece::King) {
                        proof {
                            lemma_count_nonking_strict(board.squares@, sq as int, 64);
                        }
                        let stm_feature = Self::feature(stm, stm_king, c, p, sq as u8);
                        let nstm_feature = Self::feature(nstm, nstm_king, c, p, sq as u8);
                        proof {
                            lemma_coo_flat_len(
                                row,
                                halfkp_seq(board.squares@, stm, stm_king as int, sq as int),
                            );
                            lemma_coo_flat_len(
                                row,
                                halfkp_seq(board.squares@, nstm, nstm_king as int, sq as int),
                            );
                        }
                        entry.add_feature(batch, 0, stm_feature as i64, VALUE_UNIT);
                        entry.add_feature(batch, 1, nstm_feature as i64, VALUE_UNIT);
                        proof {
                            let s2 = board.squares@;
                            let prev0 = halfkp_seq(s2, stm, stm_king as int, sq as int);
                            let prev1 = halfkp_seq(s2, nstm, nstm_king as int, sq as int);
                            let f0 = halfkp_feature(stm, stm_king as int, c, p, sq as int) as i64;
                            let f1 = halfkp_feature(nstm, nstm_king as int, c, p, sq as int) as i64;
                            assert(halfkp_seq(s2, stm, stm_king as int, sq as int + 1)
                                == prev0.push(f0));
                            assert(halfkp_seq(s2, nstm, nstm_king as int, sq as int + 1)
                                == prev1.push(f1));
                            lemma_coo_flat_push(row, prev0, f0);
                            lemma_coo_flat_push(row, prev1, f1);
                            lemma_add_push(
                                old(batch).features@[0].feature_buffer@,
                                coo_flat(row, prev0),
                                row,
                            );
                            lemma_add_push(
                                old(batch).features@[0].feature_buffer@,
                                coo_flat(row, prev0).push(row),
                                f0,
                            );
                            lemma_add_push(
                                old(batch).features@[1].feature_buffer@,
                                coo_flat(row, prev1),
                                row,
                            );
                            lemma_add_push(
                                old(batch).features@[1].feature_buffer@,
                                coo_flat(row, prev1).push(row),
                                f1,
                            );
                        }
                    }
                },
                None => {},
            }
            sq += 1;
        }
        proof {
            lemma_halfkp_seq_len(board.squares@, stm, stm_king as int, 64);
            lemma_halfkp_seq_len(board.squares@, nstm, nstm_king as int, 64);
            lemma_count_nonking_split(board.squares@, 64);
        }
    }

    /// The feature index of one non-king piece for one perspective and
    /// king.
    pub fn feature(persp: Color, king: u8, c: Color, p: Piece, sq: u8) -> (r: u32)
        requires
            king < 64,
            sq < 64,
            p != Piece::King,
        ensures
            r == halfkp_feature(persp, king as int, c, p, sq as int),
            r < 40960,
    {
        let king2 = match persp {
            Color::White => king,
            Color::Black => flip_rank(king),
        };
        let sq2 = match persp {
            Color::White => sq,
            Color::Black => flip_rank(sq),
        };
        let c2 = match persp {
            Color::White => c,
            Color::Black => c.opposite(),
        };
        king2 as u32 * 640 + c2.code() as u32 * 320 + p.code() as u32 * 64 + sq2 as u32
    }
}

} // verus!
