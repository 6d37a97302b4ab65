//! The phase-split variant of the horizontally-mirrored encoding: each
//! piece writes its feature twice, once weighted by the game phase and
//! once, shifted by 192, by the remaining phase.
use vstd::prelude::*;

use crate::batch::Batch;
use crate::batch::EntryFeatureWriter;
use crate::batch::VALUE_UNIT;
use crate::board::Position;
use crate::board::Color;
use crate::board::Occupant;
use crate::board::Piece;
use crate::board::count_color_below;
use crate::board::lemma_count_color_monotonic;
use crate::board::lemma_count_color_strict;
use crate::bucketing::count_piece_type;
use crate::bucketing::count_piece_type_exec;
use crate::bucketing::lemma_count_piece_type_bounds;
use crate::features::coo_flat;
use crate::features::hm_stm_board_192::HmStmBoard192;
use crate::features::hm_stm_board_192::hm192_feature;
use crate::features::hm_stm_board_192::hm192_lane;
use crate::features::hm_stm_board_192::hm192_lane_color;
use crate::features::lemma_add_push;
use crate::features::lemma_coo_flat_len;
use crate::features::lemma_coo_flat_push;

verus! {

/// The game-phase numerator over [`VALUE_UNIT`]: minor pieces count one,
/// rooks two, queens four.
pub open spec fn phase_numerator(s: Seq<Occupant>) -> int {
    count_piece_type(s, Piece::Knight) + count_piece_type(s, Piece::Bishop) + 2 * count_piece_type(
        s,
        Piece::Rook,
    ) + 4 * count_piece_type(s, Piece::Queen)
}

/// Compute the phase numerator of a well-formed board.
pub fn phase_numerator_exec(board: &Position) -> (r: i32)
    requires
        board.wf(),
    ensures
        r == phase_numerator(board.squares@),
        0 <= r <= 256,
{
    proof {
        lemma_count_piece_type_bounds(board.squares@, Piece::Knight, 64);
        lemma_count_piece_type_bounds(board.squares@, Piece::Bishop, 64);
        lemma_count_piece_type_bounds(board.squares@, Piece::Rook, 64);
        lemma_count_piece_type_bounds(board.squares@, Piece::Queen, 64);
    }
    count_piece_type_exec(&board.squares, Piece::Knight) as i32 + count_piece_type_exec(
        &board.squares,
        Piece::Bishop,
    ) as i32 + 2 * count_piece_type_exec(&board.squares, Piece::Rook) as i32 + 4
        * count_piece_type_exec(&board.squares, Piece::Queen) as i32
}

/// The feature indices written to one lane, two per piece: the base
/// feature and its phase-complement copy 192 above.
pub open spec fn phased_hm192_seq(s: Seq<Occupant>, stm: Color, lane: int, n: int) -> Seq<i64>
    decreases n,
{
    if n <= 0 {
        Seq::empty()
    } else {
        let prev = phased_hm192_seq(s, stm, lane, n - 1);
        match s[n - 1] {
            Some((c, p)) => if hm192_lane(stm, c, n - 1) == lane {
                prev.push(hm192_feature(c, p, n - 1) as i64).push(
                    (hm192_feature(c, p, n - 1) + 192) as i64,
                )
            } else {
                prev
            },
            None => prev,
        }
    }
}

/// A lane holds at most two features per piece of its color.
pub proof fn lemma_phased_hm192_seq_len(s: Seq<Occupant>, stm: Color, lane: int, n: int)
    requires
        0 <= lane < 4,
    ensures
        phased_hm192_seq(s, stm, lane, n).len() <= 2 * count_color_below(
            s,
            hm192_lane_color(stm, lane),
            n,
        ),
    decreases n,
{
    if n > 0 {
        lemma_phased_hm192_seq_len(s, stm, lane, n - 1);
    }
}

/// Features come in pairs, so every lane's run has even length.
pub proof fn lemma_phased_hm192_seq_even(s: Seq<Occupant>, stm: Color, lane: int, n: int)
    ensures
        phased_hm192_seq(s, stm, lane, n).len() % 2 == 0,
    decreases n,
{
    if n > 0 {
        lemma_phased_hm192_seq_even(s, stm, lane, n - 1);
    }
}

/// Every emitted index lies in the doubled 384-wide feature space.
pub proof fn lemma_phased_hm192_seq_range(s: Seq<Occupant>, stm: Color, lane: int, n: int)
    requires
        n <= 64,
    ensures
        forall|i: int|
            0 <= i < phased_hm192_seq(s, stm, lane, n).len() ==> 0 <= #[trigger] phased_hm192_seq(
                s,
                stm,
                lane,
                n,
            )[i] < 384,
    decreases n,
{
    if n > 0 {
        lemma_phased_hm192_seq_range(s, stm, lane, n - 1);
        let prev = phased_hm192_seq(s, stm, lane, n - 1);
        let cur = phased_hm192_seq(s, stm, lane, n);
        assert forall|i: int| 0 <= i < cur.len() implies 0 <= #[trigger] cur[i] < 384 by {
            match s[n - 1] {
                Some((c, p)) => {
                    if i < prev.len() {
                        assert(cur[i] == prev[i]);
                        assert(0 <= prev[i] < 384);
                    } else {
                        assert(0 <= hm192_feature(c, p, n - 1) < 192);
                    }
                },
                None => {
                    assert(0 <= prev[i] < 384);
                },
            }
        }
    }
}

pub struct PhasedHmStmBoard192;

impl PhasedHmStmBoard192 {
    pub const MAX_FEATURES: usize = 32;

    pub const INDICES_PER_FEATURE: usize = 2;

    pub const TENSORS_PER_BOARD: usize = 4;

    /// Write the board's features into the four lanes, phase-weighted:
    /// within each appended run, even offsets carry the phase numerator
    /// and odd offsets its complement.
    #[verifier::spinoff_prover]
    #[verifier::rlimit(60)]
    pub fn add_features(board: &Position, batch: &mut Batch, entry: EntryFeatureWriter)
        requires
            board.wf(),
            old(batch).wf(),
            entry.index_in_batch < old(batch).entries,
            old(batch).indices_per_feature == 2,
            old(batch).features@.len() == 4,
            old(batch).max_features == 32,
            forall|t: int|
                0 <= t < 4 ==> (#[trigger] old(batch).features@[t]).feature_count_spec() + 32
                    <= old(batch).capacity * old(batch).max_features,
        ensures
            final(batch).wf(),
            final(batch).same_shape(*old(batch)),
            final(batch).entries == old(batch).entries,
            final(batch).cp@ == old(batch).cp@,
            final(batch).wdl@ == old(batch).wdl@,
            final(batch).buckets@ == old(batch).buckets@,
            forall|t: int|
                0 <= t < 4 ==> #[trigger] final(batch).features@[t].feature_buffer@ == old(
                    batch,
                ).features@[t].feature_buffer@ + coo_flat(
                    entry.index_in_batch as i64,
                    phased_hm192_seq(board.squares@, board.side_to_move, t, 64),
                ),
            forall|t: int|
                0 <= t < 4 ==> (#[trigger] final(batch).features@[t]).feature_count_spec()
                    <= old(batch).features@[t].feature_count_spec() + 32,
            forall|t: int, i: int|
                0 <= t < 4 && old(batch).features@[t].values@.len() <= i
                    < final(batch).features@[t].values@.len()
                    ==> #[trigger] final(batch).features@[t].values@[i] == (if (i - old(
                    batch,
                ).features@[t].values@.len()) % 2 == 0 {
                    phase_numerator(board.squares@)
                } else {
                    VALUE_UNIT - phase_numerator(board.squares@)
                }),
    {
        let stm = board.side_to_move;
        let row = entry.index_in_batch as i64;
        let phase = phase_numerator_exec(board);
        let mut sq: usize = 0;
        while sq < 64
            invariant
                board.wf(),
                batch.wf(),
                batch.same_shape(*old(batch)),
                batch.entries == old(batch).entries,
                batch.cp@ == old(batch).cp@,
                batch.wdl@ == old(batch).wdl@,
                batch.buckets@ == old(batch).buckets@,
                entry.index_in_batch < batch.entries,
                stm == board.side_to_move,
                row == entry.index_in_batch as i64,
                phase == phase_numerator(board.squares@),
                0 <= phase <= 256,
                sq <= 64,
                batch.features@.len() == 4,
                batch.indices_per_feature == 2,
                batch.max_features == 32,
                forall|t: int|
                    0 <= t < 4 ==> #[trigger] batch.features@[t].feature_buffer@ == old(
                        batch,
                    ).features@[t].feature_buffer@ + coo_flat(
                        row,
                        phased_hm192_seq(board.squares@, stm, t, sq as int),
                    ),
                forall|t: int|
                    0 <= t < 4 ==> (#[trigger] batch.features@[t]).feature_count_spec() == old(
                        batch,
                    ).features@[t].feature_count_spec() + phased_hm192_seq(
                        board.squares@,
                        stm,
                        t,
                        sq as int,
                    ).len(),
                forall|t: int, i: int|
                    0 <= t < 4 && old(batch).features@[t].values@.len() <= i
                        < batch.features@[t].values@.len()
                        ==> #[trigger] batch.features@[t].values@[i] == (if (i - old(
                        batch,
                    ).features@[t].values@.len()) % 2 == 0 {
                        phase_numerator(board.squares@)
                    } else {
                        VALUE_UNIT - phase_numerator(board.squares@)
                    }),
                forall|t: int|
                    0 <= t < 4 ==> (#[trigger] old(batch).features@[t]).feature_count_spec() + 32
                        <= old(batch).capacity * old(batch).max_features,
            decreases 64 - sq,
        {
            match board.squares[sq] {
                Some((c, p)) => {
                    let lane: usize = (if sq % 8 >= 4 {
                        1
                    } else {
                        0
                    }) + (if c == stm {
                        0
                    } else {
                        2
                    });
                    proof {
                        lemma_count_color_monotonic(
                            board.squares@,
                            hm192_lane_color(stm, lane as int),
                            0,
                            sq as int,
                        );
                        lemma_count_color_strict(board.squares@, c, sq as int, 64);
                        lemma_phased_hm192_seq_len(board.squares@, stm, lane as int, sq as int);
                        assert(hm192_lane_color(stm, lane as int) == c);
                        assert(count_color_below(board.squares@, c, 64) <= 16);
                        lemma_coo_flat_len(
                            row,
                            phased_hm192_seq(board.squares@, stm, lane as int, sq as int),
                        );
                        lemma_phased_hm192_seq_even(board.squares@, stm, lane as int, sq as int);
                    }
                    let feature = HmStmBoard192::feature(c, p, sq as u8);
                    entry.add_feature(batch, lane, feature as i64, phase);
                    entry.add_feature(batch, lane, feature as i64 + 192, VALUE_UNIT - phase);
                    proof {
                        let s2 = board.squares@;
                        let prev = phased_hm192_seq(s2, stm, lane as int, sq as int);
                        let f = hm192_feature(c, p, sq as int) as i64;
                        let f2 = (hm192_feature(c, p, sq as int) + 192) as i64;
                        assert(phased_hm192_seq(s2, stm, lane as int, sq as int + 1) == prev.push(
                            f,
                        ).push(f2));
                        lemma_coo_flat_push(row, prev, f);
                        lemma_coo_flat_push(row, prev.push(f), f2);
                        let base = old(batch).features@[lane as int].feature_buffer@;
                        lemma_add_push(base, coo_flat(row, prev), row);
                        lemma_add_push(base, coo_flat(row, prev).push(row), f);
                        lemma_add_push(base, coo_flat(row, prev).push(row).push(f), row);
                        lemma_add_push(base, coo_flat(row, prev).push(row).push(f).push(row), f2);
                        assert forall|t: int| 0 <= t < 4 && t != lane implies phased_hm192_seq(
                            s2,
                            stm,
                            t,
                            sq as int + 1,
                        ) == phased_hm192_seq(s2, stm, t, sq as int) by {}
                    }
                },
                None => {},
            }
            sq += 1;
        }
        proof {
            assert forall|t: int| 0 <= t < 4 implies phased_hm192_seq(
                board.squares@,
                stm,
                t,
                64,
            ).len() <= 32 by {
                lemma_phased_hm192_seq_len(board.squares@, stm, t, 64);
            }
        }
    }
}

} // verus!
