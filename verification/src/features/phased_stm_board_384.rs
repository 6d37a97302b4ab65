//! The phase-split 384-feature encoding: two lanes keyed by whether the
//! piece belongs to the side to move; indices use color-relative squares,
//! with a phase-complement copy 384 above.
use vstd::prelude::*;

use crate::batch::Batch;
use crate::batch::EntryFeatureWriter;
use crate::batch::VALUE_UNIT;
use crate::board::Position;
use crate::board::Color;
use crate::board::Occupant;
use crate::board::Piece;
use crate::board::count_color_below;
use crate::board::flip_rank;
use crate::board::lemma_count_color_monotonic;
use crate::board::lemma_count_color_strict;
use crate::board::spec_flip_rank;
use crate::features::coo_flat;
use crate::features::lemma_add_push;
use crate::features::lemma_coo_flat_len;
use crate::features::lemma_coo_flat_push;
use crate::features::phased_hm_stm_board_192::phase_numerator;
use crate::features::phased_hm_stm_board_192::phase_numerator_exec;

verus! {

/// The lane a piece goes to: one for the side to move's own pieces, zero
/// for the other side's.
pub open spec fn stm384_lane(stm: Color, c: Color) -> int {
    if c == stm {
        1
    } else {
        0
    }
}

/// The feature index: piece type and color-relative square.
pub open spec fn stm384_feature(c: Color, p: Piece, sq: int) -> int {
    let sq2 = if c is White {
        sq
    } else {
        spec_flip_rank(sq)
    };
    p.spec_code() * 64 + sq2
}

/// The feature indices written to one lane, two per piece: the base
/// feature and its phase-complement copy 384 above.
pub open spec fn stm384_seq(s: Seq<Occupant>, stm: Color, lane: int, n: int) -> Seq<i64>
    decreases n,
{
    if n <= 0 {
        Seq::empty()
    } else {
        let prev = stm384_seq(s, stm, lane, n - 1);
        match s[n - 1] {
            Some((c, p)) => if stm384_lane(stm, c) == lane {
                prev.push(stm384_feature(c, p, n - 1) as i64).push(
                    (stm384_feature(c, p, n - 1) + 384) as i64,
                )
            } else {
                prev
            },
            None => prev,
        }
    }
}

/// The color whose pieces a lane holds.
pub open spec fn stm384_lane_color(stm: Color, lane: int) -> Color {
    if lane == 1 {
        stm
    } else {
        stm.spec_opposite()
    }
}

/// A lane holds at most two features per piece of its color.
pub proof fn lemma_stm384_seq_len(s: Seq<Occupant>, stm: Color, lane: int, n: int)
    requires
        0 <= lane < 2,
    ensures
        stm384_seq(s, stm, lane, n).len() <= 2 * count_color_below(
            s,
            stm384_lane_color(stm, lane),
            n,
        ),
    decreases n,
{
    if n > 0 {
        lemma_stm384_seq_len(s, stm, lane, n - 1);
    }
}

/// Features come in pairs, so every lane's run has even length.
pub proof fn lemma_stm384_seq_even(s: Seq<Occupant>, stm: Color, lane: int, n: int)
    ensures
        stm384_seq(s, stm, lane, n).len() % 2 == 0,
    decreases n,
{
    if n > 0 {
        lemma_stm384_seq_even(s, stm, lane, n - 1);
    }
}

/// Every emitted index lies in the doubled 768-wide feature space.
pub proof fn lemma_stm384_seq_range(s: Seq<Occupant>, stm: Color, lane: int, n: int)
    requires
        n <= 64,
    ensures
        forall|i: int|
            0 <= i < stm384_seq(s, stm, lane, n).len() ==> 0 <= #[trigger] stm384_seq(
                s,
                stm,
                lane,
                n,
            )[i] < 768,
    decreases n,
{
    if n > 0 {
        lemma_stm384_seq_range(s, stm, lane, n - 1);
        let prev = stm384_seq(s, stm, lane, n - 1);
        let cur = stm384_seq(s, stm, lane, n);
        assert forall|i: int| 0 <= i < cur.len() implies 0 <= #[trigger] cur[i] < 768 by {
            match s[n - 1] {
                Some((c, p)) => {
                    if i < prev.len() {
                        assert(cur[i] == prev[i]);
                        assert(0 <= prev[i] < 768);
                    } else {
                        assert(0 <= spec_flip_rank(n - 1) < 64);
                        assert(0 <= stm384_feature(c, p, n - 1) < 384);
                    }
                },
                None => {
                    assert(0 <= prev[i] < 768);
                },
            }
        }
    }
}

pub struct PhasedStmBoard384;

impl PhasedStmBoard384 {
    pub const MAX_FEATURES: usize = 32;

    pub const INDICES_PER_FEATURE: usize = 2;

    pub const TENSORS_PER_BOARD: usize = 2;

    /// Write the board's features into the two lanes, phase-weighted:
    /// within each appended run, even offsets carry the phase numerator
    /// and odd offsets its complement.
    #[verifier::spinoff_prover]
    #[verifier::rlimit(60)]
    pub fn add_features(board: &Position, batch: &mut Batch, entry: EntryFeatureWriter)
        requires
            board.wf(),
            old(batch).wf(),
            entry.index_in_batch < old(batch).entries,
            old(batch).indices_per_feature == 2,
            old(batch).features@.len() == 2,
            old(batch).max_features == 32,
            forall|t: int|
                0 <= t < 2 ==> (#[trigger] old(batch).features@[t]).feature_count_spec() + 32
                    <= old(batch).capacity * old(batch).max_features,
        ensures
            final(batch).wf(),
            final(batch).same_shape(*old(batch)),
            final(batch).entries == old(batch).entries,
            final(batch).cp@ == old(batch).cp@,
            final(batch).wdl@ == old(batch).wdl@,
            final(batch).buckets@ == old(batch).buckets@,
            forall|t: int|
                0 <= t < 2 ==> #[trigger] final(batch).features@[t].feature_buffer@ == old(
                    batch,
                ).features@[t].feature_buffer@ + coo_flat(
                    entry.index_in_batch as i64,
                    stm384_seq(board.squares@, board.side_to_move, t, 64),
                ),
            forall|t: int|
                0 <= t < 2 ==> (#[trigger] final(batch).features@[t]).feature_count_spec()
                    <= old(batch).features@[t].feature_count_spec() + 32,
            forall|t: int, i: int|
                0 <= t < 2 && old(batch).features@[t].values@.len() <= i
                    < final(batch).features@[t].values@.len()
                    ==> #[trigger] final(batch).features@[t].values@[i] == (if (i - old(
                    batch,
                ).features@[t].values@.len()) % 2 == 0 {
                    phase_numerator(board.squares@)
                } else {
                    VALUE_UNIT - phase_numerator(board.squares@)
                }),
    {
        let stm = board.side_to_move;
        let row = entry.index_in_batch as i64;
        let phase = phase_numerator_exec(board);
        let mut sq: usize = 0;
        while sq < 64
            invariant
                board.wf(),
                batch.wf(),
                batch.same_shape(*old(batch)),
                batch.entries == old(batch).entries,
                batch.cp@ == old(batch).cp@,
                batch.wdl@ == old(batch).wdl@,
                batch.buckets@ == old(batch).buckets@,
                entry.index_in_batch < batch.entries,
                stm == board.side_to_move,
                row == entry.index_in_batch as i64,
                phase == phase_numerator(board.squares@),
                0 <= phase <= 256,
                sq <= 64,
                batch.features@.len() == 2,
                batch.indices_per_feature == 2,
                batch.max_features == 32,
                forall|t: int|
                    0 <= t < 2 ==> #[trigger] batch.features@[t].feature_buffer@ == old(
                        batch,
                    ).features@[t].feature_buffer@ + coo_flat(
                        row,
                        stm384_seq(board.squares@, stm, t, sq as int),
                    ),
                forall|t: int|
                    0 <= t < 2 ==> (#[trigger] batch.features@[t]).feature_count_spec() == old(
                        batch,
                    ).features@[t].feature_count_spec() + stm384_seq(
                        board.squares@,
                        stm,
                        t,
                        sq as int,
                    ).len(),
                forall|t: int, i: int|
                    0 <= t < 2 && old(batch).features@[t].values@.len() <= i
                        < batch.features@[t].values@.len()
                        ==> #[trigger] batch.features@[t].values@[i] == (if (i - old(
                        batch,
                    ).features@[t].values@.len()) % 2 == 0 {
                        phase_numerator(board.squares@)
                    } else {
                        VALUE_UNIT - phase_numerator(board.squares@)
                    }),
                forall|t: int|
                    0 <= t < 2 ==> (#[trigger] old(batch).features@[t]).feature_count_spec() + 32
                        <= old(batch).capacity * old(batch).max_features,
            decreases 64 - sq,
        {
            match board.squares[sq] {
                Some((c, p)) => {
                    let lane: usize = if c == stm {
                        1
                    } else {
                        0
                    };
                    proof {
                        lemma_count_color_monotonic(
                            board.squares@,
                            stm384_lane_color(stm, lane as int),
                            0,
                            sq as int,
                        );
                        lemma_count_color_strict(board.squares@, c, sq as int, 64);
                        lemma_stm384_seq_len(board.squares@, stm, lane as int, sq as int);
                        assert(stm384_lane_color(stm, lane as int) == c);
                        assert(count_color_below(board.squares@, c, 64) <= 16);
                        lemma_coo_flat_len(
                            row,
                            stm384_seq(board.squares@, stm, lane as int, sq as int),
                        );
                        lemma_stm384_seq_even(board.squares@, stm, lane as int, sq as int);
                    }
                    let feature = Self::feature(c, p, sq as u8);
                    entry.add_feature(batch, lane, feature as i64, phase);
                    entry.add_feature(batch, lane, feature as i64 + 384, VALUE_UNIT - phase);
                    proof {
                        let s2 = board.squares@;
                        let prev = stm384_seq(s2, stm, lane as int, sq as int);
                        let f = stm384_feature(c, p, sq as int) as i64;
                        let f2 = (stm384_feature(c, p, sq as int) + 384) as i64;
                        assert(stm384_seq(s2, stm, lane as int, sq as int + 1) == prev.push(
                            f,
                        ).push(f2));
                        lemma_coo_flat_push(row, prev, f);
                        lemma_coo_flat_push(row, prev.push(f), f2);
                        let base = old(batch).features@[lane as int].feature_buffer@;
                        lemma_add_push(base, coo_flat(row, prev), row);
                        lemma_add_push(base, coo_flat(row, prev).push(row), f);
                        lemma_add_push(base, coo_flat(row, prev).push(row).push(f), row);
                        lemma_add_push(base, coo_flat(row, prev).push(row).push(f).push(row), f2);
                        assert forall|t: int| 0 <= t < 2 && t != lane implies stm384_seq(
                            s2,
                            stm,
                            t,
                            sq as int + 1,
                        ) == stm384_seq(s2, stm, t, sq as int) by {}
                    }
                },
                None => {},
            }
            sq += 1;
        }
        proof {
            assert forall|t: int| 0 <= t < 2 implies stm384_seq(
                board.squares@,
                stm,
                t,
                64,
            ).len() <= 32 by {
                lemma_stm384_seq_len(board.squares@, stm, t, 64);
            }
        }
    }

    /// The feature index of one piece.
    pub fn feature(c: Color, p: Piece, sq: u8) -> (r: u16)
        requires
            sq < 64,
        ensures
            r == stm384_feature(c, p, sq as int),
            r < 384,
    {
        let sq2 = match c {
            Color::White => sq,
            Color::Black => flip_rank(sq),
        };
        p.code() as u16 * 64 + sq2 as u16
    }
}

} // verus!
