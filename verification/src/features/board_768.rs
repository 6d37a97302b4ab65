//! The plain 768-feature board encoding: one feature per piece, indexed by
//! perspective-relative color, piece type and square.
use vstd::prelude::*;

use crate::batch::Batch;
use crate::batch::EntryFeatureWriter;
use crate::batch::VALUE_UNIT;
use crate::board::Position;
use crate::board::Color;
use crate::board::Occupant;
use crate::board::Piece;
use crate::board::count_occupied;
use crate::board::count_occupied_below;
use crate::board::spec_flip_rank;
use crate::board::flip_rank;
use crate::board::mirror_occupant;
use crate::board::occupant_color;
use crate::board::occupant_piece;
use crate::features::coo_flat;
use crate::features::lemma_coo_flat_len;
use crate::features::lemma_coo_flat_push;

verus! {

/// The feature index of a piece seen from one perspective: from black's,
/// colors are swapped and the rank axis is flipped.
pub open spec fn board768_feature(persp: Color, c: Color, p: Piece, sq: int) -> int {
    let sq2 = if persp is White {
        sq
    } else {
        spec_flip_rank(sq)
    };
    let c2 = if persp is White {
        c
    } else {
        c.spec_opposite()
    };
    c2.spec_code() * 384 + p.spec_code() * 64 + sq2
}

/// The feature indices of the occupied squares below `n`, in square order.
pub open spec fn board768_seq(s: Seq<Occupant>, persp: Color, n: int) -> Seq<i64>
    decreases n,
{
    if n <= 0 {
        Seq::empty()
    } else {
        let prev = board768_seq(s, persp, n - 1);
        match s[n - 1] {
            Some((c, p)) => prev.push(board768_feature(persp, c, p, n - 1) as i64),
            None => prev,
        }
    }
}

/// One feature per occupied square.
pub proof fn lemma_board768_seq_len(s: Seq<Occupant>, persp: Color, n: int)
    ensures
        board768_seq(s, persp, n).len() == count_occupied_below(s, n),
    decreases n,
{
    if n > 0 {
        lemma_board768_seq_len(s, persp, n - 1);
    }
}

/// The index of any piece on a real square lies in the 768-wide space.
pub proof fn lemma_board768_feature_range(persp: Color, c: Color, p: Piece, sq: int)
    requires
        0 <= sq < 64,
    ensures
        0 <= board768_feature(persp, c, p, sq) < 768,
{
    assert(0 <= spec_flip_rank(sq) < 64);
}

/// Every emitted index lies in the 768-wide feature space.
pub proof fn lemma_board768_seq_range(s: Seq<Occupant>, persp: Color, n: int)
    requires
        n <= 64,
    ensures
        forall|i: int|
            0 <= i < board768_seq(s, persp, n).len() ==> 0 <= #[trigger] board768_seq(
                s,
                persp,
                n,
            )[i] < 768,
    decreases n,
{
    if n > 0 {
        lemma_board768_seq_range(s, persp, n - 1);
        let prev = board768_seq(s, persp, n - 1);
        let cur = board768_seq(s, persp, n);
        assert forall|i: int| 0 <= i < cur.len() implies 0 <= #[trigger] cur[i] < 768 by {
            match s[n - 1] {
                Some((c, p)) => {
                    if i < prev.len() {
                        assert(cur[i] == prev[i]);
                        assert(0 <= prev[i] < 768);
                    } else {
                        lemma_board768_feature_range(persp, c, p, n - 1);
                    }
                },
                None => {
                    assert(0 <= prev[i] < 768);
                },
            }
        }
    }
}

/// An index occurs in the projection exactly when some occupied square
/// produces it.
pub proof fn lemma_board768_seq_contains(s: Seq<Occupant>, persp: Color, n: int, f: i64)
    ensures
        board768_seq(s, persp, n).contains(f) <==> exists|sq: int|
            0 <= sq < n && #[trigger] s[sq] is Some && f == board768_feature(
                persp,
                occupant_color(s[sq]),
                occupant_piece(s[sq]),
                sq,
            ) as i64,
    decreases n,
{
    if n > 0 {
        lemma_board768_seq_contains(s, persp, n - 1, f);
        let prev = board768_seq(s, persp, n - 1);
        match s[n - 1] {
            Some((c, p)) => {
                let cur = prev.push(board768_feature(persp, c, p, n - 1) as i64);
                assert forall|i: int| 0 <= i < cur.len() implies (cur[i] == f ==> (exists|sq: int|
                    0 <= sq < n && #[trigger] s[sq] is Some && f == board768_feature(
                        persp,
                        occupant_color(s[sq]),
                        occupant_piece(s[sq]),
                        sq,
                    ) as i64)) by {
                    if i < prev.len() {
                        if cur[i] == f {
                            assert(prev.contains(f));
                        }
                    }
                }
                if exists|sq: int|
                    0 <= sq < n && #[trigger] s[sq] is Some && f == board768_feature(
                        persp,
                        occupant_color(s[sq]),
                        occupant_piece(s[sq]),
                        sq,
                    ) as i64 {
                    let sq = choose|sq: int|
                        0 <= sq < n && #[trigger] s[sq] is Some && f == board768_feature(
                            persp,
                            occupant_color(s[sq]),
                            occupant_piece(s[sq]),
                            sq,
                        ) as i64;
                    if sq == n - 1 {
                        assert(cur.last() == f);
                        assert(cur.contains(f));
                    } else {
                        assert(prev.contains(f));
                        let j = choose|j: int| 0 <= j < prev.len() && prev[j] == f;
                        assert(cur[j] == f);
                        assert(cur.contains(f));
                    }
                }
            },
            None => {},
        }
    }
}

pub struct Board768;

impl Board768 {
    pub const MAX_FEATURES: usize = 32;

    pub const INDICES_PER_FEATURE: usize = 2;

    pub const TENSORS_PER_BOARD: usize = 2;

    /// Write the board's features: lane zero from the side to move's
    /// perspective, lane one from the other side's.
    pub fn add_features(board: &Position, batch: &mut Batch, entry: EntryFeatureWriter)
        requires
            board.wf(),
            old(batch).wf(),
            entry.index_in_batch < old(batch).entries,
            old(batch).indices_per_feature == 2,
            old(batch).features@.len() == 2,
            old(batch).max_features == 32,
            forall|t: int|
                0 <= t < 2 ==> (#[trigger] old(batch).features@[t]).feature_count_spec() + 32
                    <= old(batch).capacity * old(batch).max_features,
        ensures
            final(batch).wf(),
            final(batch).same_shape(*old(batch)),
            final(batch).entries == old(batch).entries,
            final(batch).cp@ == old(batch).cp@,
            final(batch).wdl@ == old(batch).wdl@,
            final(batch).buckets@ == old(batch).buckets@,
            final(batch).features@[0].feature_buffer@ == old(batch).features@[0].feature_buffer@
                + coo_flat(
                entry.index_in_batch as i64,
                board768_seq(board.squares@, board.side_to_move, 64),
            ),
            final(batch).features@[1].feature_buffer@ == old(batch).features@[1].feature_buffer@
                + coo_flat(
                entry.index_in_batch as i64,
                board768_seq(board.squares@, board.side_to_move.spec_opposite(), 64),
            ),
            final(batch).features@[0].values@.len() == old(batch).features@[0].values@.len()
                + count_occupied(board.squares@),
            final(batch).features@[1].values@.len() == old(batch).features@[1].values@.len()
                + count_occupied(board.squares@),
            forall|t: int, i: int|
                0 <= t < 2 && old(batch).features@[t].values@.len() <= i
                    < final(batch).features@[t].values@.len()
                    ==> #[trigger] final(batch).features@[t].values@[i] == VALUE_UNIT,
    {
        let stm = board.side_to_move;
        let nstm = stm.opposite();
        let row = entry.index_in_batch as i64;
        let mut sq: usize = 0;
        while sq < 64
            invariant
                board.wf(),
                batch.wf(),
                batch.same_shape(*old(batch)),
                batch.entries == old(batch).entries,
                batch.cp@ == old(batch).cp@,
                batch.wdl@ == old(batch).wdl@,
                batch.buckets@ == old(batch).buckets@,
                entry.index_in_batch < batch.entries,
                stm == board.side_to_move,
                nstm == stm.spec_opposite(),
                row == entry.index_in_batch as i64,
                sq <= 64,
                batch.features@.len() == 2,
                batch.indices_per_feature == 2,
                batch.max_features == 32,
                batch.features@[0].feature_buffer@ == old(batch).features@[0].feature_buffer@
                    + coo_flat(row, board768_seq(board.squares@, stm, sq as int)),
                batch.features@[1].feature_buffer@ == old(batch).features@[1].feature_buffer@
                    + coo_flat(row, board768_seq(board.squares@, nstm, sq as int)),
                batch.features@[0].values@.len() == old(batch).features@[0].values@.len()
                    + count_occupied_below(board.squares@, sq as int),
                batch.features@[1].values@.len() == old(batch).features@[1].values@.len()
                    + count_occupied_below(board.squares@, sq as int),
                forall|t: int, i: int|
                    0 <= t < 2 && old(batch).features@[t].values@.len() <= i < batch.features@[t].values@.len()
                        ==> #[trigger] batch.features@[t].values@[i] == VALUE_UNIT,
                forall|t: int|
                    0 <= t < 2 ==> (#[trigger] old(batch).features@[t]).feature_count_spec() + 32
                        <= old(batch).capacity * old(batch).max_features,
            decreases 64 - sq,
        {
            proof {
                crate::marlinformat::lemma_count_occupied_monotonic(board.squares@, 0, sq as int);
                crate::marlinformat::lemma_count_occupied_monotonic(
                    board.squares@,
                    sq as int,
                    64,
                );
                lemma_board768_seq_len(board.squares@, stm, sq as int);
                lemma_board768_seq_len(board.squares@, nstm, sq as int);
            }
            match board.squares[sq] {
                Some((c, p)) => {
                    proof {
                        crate::marlinformat::lemma_count_occupied_strict(
                            board.squares@,
                            sq as int,
                            64,
                        );
                    }
                    let stm_feature = Self::feature(stm, c, p, sq as u8);
                    let nstm_feature = Self::feature(nstm, c, p, sq as u8);
                    proof {
                        lemma_coo_flat_len(row, board768_seq(board.squares@, stm, sq as int));
                        lemma_coo_flat_len(row, board768_seq(board.squares@, nstm, sq as int));
                    }
                    entry.add_feature(batch, 0, stm_feature as i64, VALUE_UNIT);
                    entry.add_feature(batch, 1, nstm_feature as i64, VALUE_UNIT);
                    proof {
                        let s2 = board.squares@;
                        let prev0 = board768_seq(s2, stm, sq as int);
                        let prev1 = board768_seq(s2, nstm, sq as int);
                        let f0 = board768_feature(stm, c, p, sq as int) as i64;
                        let f1 = board768_feature(nstm, c, p, sq as int) as i64;
                        assert(board768_seq(s2, stm, sq as int + 1) == prev0.push(f0));
                        assert(board768_seq(s2, nstm, sq as int + 1) == prev1.push(f1));
                        lemma_coo_flat_push(row, prev0, f0);
                        lemma_coo_flat_push(row, prev1, f1);
                        crate::features::lemma_add_push(
                            old(batch).features@[0].feature_buffer@,
                            coo_flat(row, prev0),
                            row,
                        );
                        crate::features::lemma_add_push(
                            old(batch).features@[0].feature_buffer@,
                            coo_flat(row, prev0).push(row),
                            f0,
                        );
                        crate::features::lemma_add_push(
                            old(batch).features@[1].feature_buffer@,
                            coo_flat(row, prev1),
                            row,
                        );
                        crate::features::lemma_add_push(
                            old(batch).features@[1].feature_buffer@,
                            coo_flat(row, prev1).push(row),
                            f1,
                        );
                    }
                },
                None => {},
            }
            sq += 1;
        }
        proof {
            lemma_board768_seq_len(board.squares@, stm, 64);
            lemma_board768_seq_len(board.squares@, nstm, 64);
        }
    }

    /// The feature index of one piece for one perspective.
    pub fn feature(persp: Color, c: Color, p: Piece, sq: u8) -> (r: u16)
        requires
            sq < 64,
        ensures
            r == board768_feature(persp, c, p, sq as int),
            r < 768,
    {
        let sq2 = match persp {
            Color::White => sq,
            Color::Black => flip_rank(sq),
        };
        let c2 = match persp {
            Color::White => c,
            Color::Black => c.opposite(),
        };
        c2.code() as u16 * 384 + p.code() as u16 * 64 + sq2 as u16
    }
}

/// Perspective symmetry: with white to move, the indices of the
/// other-side lane are exactly the side-to-move indices of the board with
/// colors swapped and ranks flipped. Within one lane, indices occur at
/// most once, so containment captures the whole multiset.
pub proof fn lemma_board768_perspective_symmetry(b: Position, m: Position, f: i64)
    requires
        b.wf(),
        b.side_to_move is White,
        m.squares@.len() == 64,
        forall|sq: int|
            0 <= sq < 64 ==> m.squares@[sq] == mirror_occupant(b.squares@[spec_flip_rank(sq)]),
    ensures
        board768_seq(b.squares@, Color::Black, 64).contains(f) <==> board768_seq(
            m.squares@,
            Color::White,
            64,
        ).contains(f),
{
    lemma_board768_seq_contains(b.squares@, Color::Black, 64, f);
    lemma_board768_seq_contains(m.squares@, Color::White, 64, f);
    if board768_seq(b.squares@, Color::Black, 64).contains(f) {
        let sq = choose|sq: int|
            0 <= sq < 64 && #[trigger] b.squares@[sq] is Some && f == board768_feature(
                Color::Black,
                occupant_color(b.squares@[sq]),
                occupant_piece(b.squares@[sq]),
                sq,
            ) as i64;
        let sq2 = spec_flip_rank(sq);
        assert(0 <= sq2 < 64 && spec_flip_rank(sq2) == sq);
        assert(m.squares@[sq2] == mirror_occupant(b.squares@[sq]));
        assert(m.squares@[sq2] is Some && f == board768_feature(
            Color::White,
            occupant_color(m.squares@[sq2]),
            occupant_piece(m.squares@[sq2]),
            sq2,
        ) as i64);
    }
    if board768_seq(m.squares@, Color::White, 64).contains(f) {
        let sq = choose|sq: int|
            0 <= sq < 64 && #[trigger] m.squares@[sq] is Some && f == board768_feature(
                Color::White,
                occupant_color(m.squares@[sq]),
                occupant_piece(m.squares@[sq]),
                sq,
            ) as i64;
        let sq2 = spec_flip_rank(sq);
        assert(0 <= sq2 < 64 && spec_flip_rank(sq2) == sq);
        assert(m.squares@[sq] == mirror_occupant(b.squares@[sq2]));
        assert(b.squares@[sq2] is Some && f == board768_feature(
            Color::Black,
            occupant_color(b.squares@[sq2]),
            occupant_piece(b.squares@[sq2]),
            sq2,
        ) as i64);
    }
}

} // verus!
