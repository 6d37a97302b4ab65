//! The horizontally-mirrored 192-feature encoding: four tensor lanes keyed
//! by board half and by whether the piece belongs to the side to move;
//! indices use color-relative ranks and half-board files.
use vstd::prelude::*;

use crate::batch::Batch;
use crate::batch::EntryFeatureWriter;
use crate::batch::VALUE_UNIT;
use crate::board::Position;
use crate::board::Color;
use crate::board::Occupant;
use crate::board::Piece;
use crate::board::count_color_below;
use crate::board::lemma_count_color_monotonic;
use crate::board::lemma_count_color_strict;
use crate::board::occupant_color;
use crate::features::coo_flat;
use crate::features::lemma_add_push;
use crate::features::lemma_coo_flat_len;
use crate::features::lemma_coo_flat_push;

verus! {

/// The lane a piece goes to: bit zero is set on the king-side half of the
/// board, bit one for pieces of the side not to move.
pub open spec fn hm192_lane(stm: Color, c: Color, sq: int) -> int {
    (if sq % 8 >= 4 {
        1int
    } else {
        0int
    }) + (if c == stm {
        0int
    } else {
        2int
    })
}

/// The color whose pieces a lane holds.
pub open spec fn hm192_lane_color(stm: Color, lane: int) -> Color {
    if lane < 2 {
        stm
    } else {
        stm.spec_opposite()
    }
}

/// The feature index: piece type, color-relative rank, and the file
/// folded onto one half of the board.
pub open spec fn hm192_feature(c: Color, p: Piece, sq: int) -> int {
    let rank = if c is White {
        sq / 8
    } else {
        7 - sq / 8
    };
    let file = if sq % 8 >= 4 {
        7 - sq % 8
    } else {
        sq % 8
    };
    p.spec_code() * 32 + rank * 4 + file
}

/// The feature indices written to one lane, in square order.
pub open spec fn hm192_seq(s: Seq<Occupant>, stm: Color, lane: int, n: int) -> Seq<i64>
    decreases n,
{
    if n <= 0 {
        Seq::empty()
    } else {
        let prev = hm192_seq(s, stm, lane, n - 1);
        match s[n - 1] {
            Some((c, p)) => if hm192_lane(stm, c, n - 1) == lane {
                prev.push(hm192_feature(c, p, n - 1) as i64)
            } else {
                prev
            },
            None => prev,
        }
    }
}

/// A lane holds at most one feature per piece of its color.
pub proof fn lemma_hm192_seq_len(s: Seq<Occupant>, stm: Color, lane: int, n: int)
    requires
        0 <= lane < 4,
    ensures
        hm192_seq(s, stm, lane, n).len() <= count_color_below(s, hm192_lane_color(stm, lane), n),
    decreases n,
{
    if n > 0 {
        lemma_hm192_seq_len(s, stm, lane, n - 1);
    }
}

/// Every emitted index lies in the 192-wide feature space.
pub proof fn lemma_hm192_seq_range(s: Seq<Occupant>, stm: Color, lane: int, n: int)
    requires
        n <= 64,
    ensures
        forall|i: int|
            0 <= i < hm192_seq(s, stm, lane, n).len() ==> 0 <= #[trigger] hm192_seq(
                s,
                stm,
                lane,
                n,
            )[i] < 192,
    decreases n,
{
    if n > 0 {
        lemma_hm192_seq_range(s, stm, lane, n - 1);
        let prev = hm192_seq(s, stm, lane, n - 1);
        let cur = hm192_seq(s, stm, lane, n);
        assert forall|i: int| 0 <= i < cur.len() implies 0 <= #[trigger] cur[i] < 192 by {
            match s[n - 1] {
                Some((c, p)) => {
                    if i < prev.len() {
                        assert(cur[i] == prev[i]);
                        assert(0 <= prev[i] < 192);
                    } else {
                        assert(0 <= hm192_feature(c, p, n - 1) < 192);
                    }
                },
                None => {
                    assert(0 <= prev[i] < 192);
                },
            }
        }
    }
}

pub struct HmStmBoard192;

impl HmStmBoard192 {
    pub const MAX_FEATURES: usize = 16;

    pub const INDICES_PER_FEATURE: usize = 2;

    pub const TENSORS_PER_BOARD: usize = 4;

    /// Write the board's features into the four lanes.
    pub fn add_features(board: &Position, batch: &mut Batch, entry: EntryFeatureWriter)
        requires
            board.wf(),
            old(batch).wf(),
            entry.index_in_batch < old(batch).entries,
            old(batch).indices_per_feature == 2,
            old(batch).features@.len() == 4,
            old(batch).max_features == 16,
            forall|t: int|
                0 <= t < 4 ==> (#[trigger] old(batch).features@[t]).feature_count_spec() + 16
                    <= old(batch).capacity * old(batch).max_features,
        ensures
            final(batch).wf(),
            final(batch).same_shape(*old(batch)),
            final(batch).entries == old(batch).entries,
            final(batch).cp@ == old(batch).cp@,
            final(batch).wdl@ == old(batch).wdl@,
            final(batch).buckets@ == old(batch).buckets@,
            forall|t: int|
                0 <= t < 4 ==> #[trigger] final(batch).features@[t].feature_buffer@ == old(
                    batch,
                ).features@[t].feature_buffer@ + coo_flat(
                    entry.index_in_batch as i64,
                    hm192_seq(board.squares@, board.side_to_move, t, 64),
                ),
            forall|t: int|
                0 <= t < 4 ==> (#[trigger] final(batch).features@[t]).feature_count_spec()
                    <= old(batch).features@[t].feature_count_spec() + 16,
            forall|t: int, i: int|
                0 <= t < 4 && old(batch).features@[t].values@.len() <= i
                    < final(batch).features@[t].values@.len()
                    ==> #[trigger] final(batch).features@[t].values@[i] == VALUE_UNIT,
    {
        let stm = board.side_to_move;
        let row = entry.index_in_batch as i64;
        let mut sq: usize = 0;
        while sq < 64
            invariant
                board.wf(),
                batch.wf(),
                batch.same_shape(*old(batch)),
                batch.entries == old(batch).entries,
                batch.cp@ == old(batch).cp@,
                batch.wdl@ == old(batch).wdl@,
                batch.buckets@ == old(batch).buckets@,
                entry.index_in_batch < batch.entries,
                stm == board.side_to_move,
                row == entry.index_in_batch as i64,
                sq <= 64,
                batch.features@.len() == 4,
                batch.indices_per_feature == 2,
                batch.max_features == 16,
                forall|t: int|
                    0 <= t < 4 ==> #[trigger] batch.features@[t].feature_buffer@ == old(
                        batch,
                    ).features@[t].feature_buffer@ + coo_flat(
                        row,
                        hm192_seq(board.squares@, stm, t, sq as int),
                    ),
                forall|t: int|
                    0 <= t < 4 ==> (#[trigger] batch.features@[t]).feature_count_spec() == old(
                        batch,
                    ).features@[t].feature_count_spec() + hm192_seq(
                        board.squares@,
                        stm,
                        t,
                        sq as int,
                    ).len(),
                forall|t: int, i: int|
                    0 <= t < 4 && old(batch).features@[t].values@.len() <= i
                        < batch.features@[t].values@.len()
                        ==> #[trigger] batch.features@[t].values@[i] == VALUE_UNIT,
                forall|t: int|
                    0 <= t < 4 ==> (#[trigger] old(batch).features@[t]).feature_count_spec() + 16
                        <= old(batch).capacity * old(batch).max_features,
            decreases 64 - sq,
        {
            match board.squares[sq] {
                Some((c, p)) => {
                    let lane: usize = (if sq % 8 >= 4 {
                        1
                    } else {
                        0
                    }) + (if c == stm {
                        0
                    } else {
                        2
                    });
                    proof {
                        lemma_count_color_monotonic(
                            board.squares@,
                            hm192_lane_color(stm, lane as int),
                            0,
                            sq as int,
                        );
                        lemma_count_color_strict(board.squares@, c, sq as int, 64);
                        lemma_hm192_seq_len(board.squares@, stm, lane as int, sq as int);
                        assert(hm192_lane_color(stm, lane as int) == c);
                        assert(count_color_below(board.squares@, c, 64) <= 16);
                    }
                    let feature = Self::feature(c, p, sq as u8);
                    proof {
                        lemma_coo_flat_len(
                            row,
                            hm192_seq(board.squares@, stm, lane as int, sq as int),
                        );
                    }
                    entry.add_feature(batch, lane, feature as i64, VALUE_UNIT);
                    proof {
                        let s2 = board.squares@;
                        let prev = hm192_seq(s2, stm, lane as int, sq as int);
                        let f = hm192_feature(c, p, sq as int) as i64;
                        assert(hm192_seq(s2, stm, lane as int, sq as int + 1) == prev.push(f));
                        lemma_coo_flat_push(row, prev, f);
                        lemma_add_push(
                            old(batch).features@[lane as int].feature_buffer@,
                            coo_flat(row, prev),
                            row,
                        );
                        lemma_add_push(
                            old(batch).features@[lane as int].feature_buffer@,
                            coo_flat(row, prev).push(row),
                            f,
                        );
                        assert forall|t: int| 0 <= t < 4 && t != lane implies hm192_seq(
                            s2,
                            stm,
                            t,
                            sq as int + 1,
                        ) == hm192_seq(s2, stm, t, sq as int) by {}
                    }
                },
                None => {},
            }
            sq += 1;
        }
        proof {
            assert forall|t: int| 0 <= t < 4 implies hm192_seq(
                board.squares@,
                stm,
                t,
                64,
            ).len() <= 16 by {
                lemma_hm192_seq_len(board.squares@, stm, t, 64);
            }
        }
    }

    /// The feature index of one piece.
    pub fn feature(c: Color, p: Piece, sq: u8) -> (r: u16)
        requires
            sq < 64,
        ensures
            r == hm192_feature(c, p, sq as int),
            r < 192,
    {
        let rank = match c {
            Color::White => sq / 8,
            Color::Black => 7 - sq / 8,
        };
        let file = if sq % 8 >= 4 {
            7 - sq % 8
        } else {
            sq % 8
        };
        p.code() as u16 * 32 + rank as u16 * 4 + file as u16
    }
}

} // verus!
