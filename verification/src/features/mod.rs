//! Feature sets: perspective-relative sparse projections of a board into
//! index/value tuples, all sharing the batch writer. Each set states the
//! exact sequence of indices it appends, square by square in ascending
//! order.
use vstd::prelude::*;

use crate::batch::Batch;
use crate::batch::EntryFeatureWriter;
use crate::board::Position;

pub mod board_768;
pub mod half_ka;
pub mod half_kp;
pub mod hm_stm_board_192;
pub mod phased_hm_stm_board_192;
pub mod phased_stm_board_384;

pub use board_768::Board768;
pub use half_ka::HalfKa;
pub use half_ka::HalfKaCuda;
pub use half_kp::HalfKp;
pub use hm_stm_board_192::HmStmBoard192;
pub use phased_hm_stm_board_192::PhasedHmStmBoard192;
pub use phased_stm_board_384::PhasedStmBoard384;

verus! {

/// Sparse coordinate layout: each feature id preceded by its entry row.
pub open spec fn coo_flat(row: i64, feats: Seq<i64>) -> Seq<i64>
    decreases feats.len(),
{
    if feats.len() == 0 {
        Seq::empty()
    } else {
        coo_flat(row, feats.drop_last()).push(row).push(feats.last())
    }
}

pub proof fn lemma_coo_flat_len(row: i64, feats: Seq<i64>)
    ensures
        coo_flat(row, feats).len() == 2 * feats.len(),
    decreases feats.len(),
{
    if feats.len() > 0 {
        lemma_coo_flat_len(row, feats.drop_last());
    }
}

/// Appending one feature appends its row/id pair.
pub proof fn lemma_coo_flat_push(row: i64, feats: Seq<i64>, f: i64)
    ensures
        coo_flat(row, feats.push(f)) == coo_flat(row, feats).push(row).push(f),
{
    assert(feats.push(f).drop_last() =~= feats);
    assert(feats.push(f).last() == f);
}

/// Pushing onto a concatenation pushes onto its tail.
pub proof fn lemma_add_push<T>(a: Seq<T>, b: Seq<T>, x: T)
    ensures
        (a + b).push(x) == a + b.push(x),
{
    assert((a + b).push(x) =~= a + b.push(x));
}

/// The closed set of feature projections.
#[derive(Clone, Copy, Debug)]
pub enum InputFeatureSetType {
    Board768,
    HalfKp,
    HalfKa,
    HalfKaCuda,
    HmStmBoard192,
    PhasedHmStmBoard192,
    PhasedStmBoard384,
}

impl InputFeatureSetType {
    pub open spec fn spec_max_features(self) -> int {
        match self {
            InputFeatureSetType::Board768 => 32,
            InputFeatureSetType::HalfKp => 30,
            InputFeatureSetType::HalfKa => 32,
            InputFeatureSetType::HalfKaCuda => 32,
            InputFeatureSetType::HmStmBoard192 => 16,
            InputFeatureSetType::PhasedHmStmBoard192 => 32,
            InputFeatureSetType::PhasedStmBoard384 => 32,
        }
    }

    /// The most features one position can write to one lane.
    pub fn max_features(self) -> (r: usize)
        ensures
            r == self.spec_max_features(),
    {
        match self {
            InputFeatureSetType::Board768 => 32,
            InputFeatureSetType::HalfKp => 30,
            InputFeatureSetType::HalfKa => 32,
            InputFeatureSetType::HalfKaCuda => 32,
            InputFeatureSetType::HmStmBoard192 => 16,
            InputFeatureSetType::PhasedHmStmBoard192 => 32,
            InputFeatureSetType::PhasedStmBoard384 => 32,
        }
    }

    pub open spec fn spec_indices_per_feature(self) -> int {
        match self {
            InputFeatureSetType::HalfKaCuda => 1,
            _ => 2,
        }
    }

    /// Two for sparse coordinate lanes, one for the dense layout.
    pub fn indices_per_feature(self) -> (r: usize)
        ensures
            r == self.spec_indices_per_feature(),
    {
        match self {
            InputFeatureSetType::HalfKaCuda => 1,
            _ => 2,
        }
    }

    pub open spec fn spec_tensors_per_board(self) -> int {
        match self {
            InputFeatureSetType::HmStmBoard192 => 4,
            InputFeatureSetType::PhasedHmStmBoard192 => 4,
            _ => 2,
        }
    }

    /// How many independent output tensor lanes the set fills.
    pub fn tensors_per_board(self) -> (r: usize)
        ensures
            r == self.spec_tensors_per_board(),
    {
        match self {
            InputFeatureSetType::HmStmBoard192 => 4,
            InputFeatureSetType::PhasedHmStmBoard192 => 4,
            _ => 2,
        }
    }

    /// The index sequence one lane receives for one board: what each
    /// set's `add_features` appends, stated once per set. For every set
    /// this is a function of the placement and side to move alone.
    pub open spec fn spec_lane_indices_of(
        self,
        s: Seq<crate::board::Occupant>,
        stm: crate::board::Color,
        lane: int,
    ) -> Seq<i64> {
        let persp = if lane == 0 {
            stm
        } else {
            stm.spec_opposite()
        };
        match self {
            InputFeatureSetType::Board768 => board_768::board768_seq(s, persp, 64),
            InputFeatureSetType::HalfKp => half_kp::halfkp_seq(
                s,
                persp,
                crate::board::spec_king_square_of(s, persp),
                64,
            ),
            InputFeatureSetType::HalfKa => half_ka::halfka_seq(
                s,
                persp,
                crate::board::spec_king_square_of(s, persp),
                64,
            ),
            InputFeatureSetType::HalfKaCuda => half_ka::halfka_seq(
                s,
                persp,
                crate::board::spec_king_square_of(s, persp),
                64,
            ),
            InputFeatureSetType::HmStmBoard192 => hm_stm_board_192::hm192_seq(s, stm, lane, 64),
            InputFeatureSetType::PhasedHmStmBoard192 => phased_hm_stm_board_192::phased_hm192_seq(
                s,
                stm,
                lane,
                64,
            ),
            InputFeatureSetType::PhasedStmBoard384 => phased_stm_board_384::stm384_seq(
                s,
                stm,
                lane,
                64,
            ),
        }
    }

    /// The lane projection of a whole board.
    pub open spec fn spec_lane_indices(self, board: Position, lane: int) -> Seq<i64> {
        self.spec_lane_indices_of(board.squares@, board.side_to_move, lane)
    }

    /// A batch shaped to receive this set's features.
    pub open spec fn fits(self, batch: Batch) -> bool {
        &&& batch.indices_per_feature == self.spec_indices_per_feature()
        &&& batch.features@.len() == self.spec_tensors_per_board()
        &&& batch.max_features == self.spec_max_features()
    }

    /// Project a board into the batch's open entry row.
    pub fn add_features(self, board: &Position, batch: &mut Batch, entry: EntryFeatureWriter)
        requires
            board.wf(),
            old(batch).wf(),
            entry.index_in_batch < old(batch).entries,
            self.fits(*old(batch)),
            forall|t: int|
                0 <= t < old(batch).features@.len()
                    ==> (#[trigger] old(batch).features@[t]).feature_count_spec()
                    + self.spec_max_features() <= old(batch).capacity * old(batch).max_features,
        ensures
            final(batch).wf(),
            final(batch).same_shape(*old(batch)),
            final(batch).entries == old(batch).entries,
            final(batch).cp@ == old(batch).cp@,
            final(batch).wdl@ == old(batch).wdl@,
            final(batch).buckets@ == old(batch).buckets@,
            forall|t: int|
                0 <= t < final(batch).features@.len()
                    ==> (#[trigger] final(batch).features@[t]).feature_count_spec()
                    <= old(batch).features@[t].feature_count_spec() + self.spec_max_features(),
            self.spec_indices_per_feature() == 2 ==> forall|t: int|
                0 <= t < final(batch).features@.len()
                    ==> #[trigger] final(batch).features@[t].feature_buffer@
                    == old(batch).features@[t].feature_buffer@ + coo_flat(
                    entry.index_in_batch as i64,
                    self.spec_lane_indices(*board, t),
                ),
            self.spec_indices_per_feature() == 1 ==> forall|t: int|
                0 <= t < final(batch).features@.len()
                    ==> #[trigger] final(batch).features@[t].feature_buffer@.len()
                    == old(batch).features@[t].feature_buffer@.len()
                    + self.spec_max_features() && (forall|i: int|
                    0 <= i < self.spec_lane_indices(*board, t).len()
                        ==> #[trigger] final(batch).features@[t].feature_buffer@[old(
                        batch,
                    ).features@[t].feature_buffer@.len() + i] == self.spec_lane_indices(*board, t)[i])
                    && (forall|i: int|
                    self.spec_lane_indices(*board, t).len() <= i < self.spec_max_features()
                        ==> #[trigger] final(batch).features@[t].feature_buffer@[old(
                        batch,
                    ).features@[t].feature_buffer@.len() + i] == -1),
    {
        match self {
            InputFeatureSetType::Board768 => Board768::add_features(board, batch, entry),
            InputFeatureSetType::HalfKp => HalfKp::add_features(board, batch, entry),
            InputFeatureSetType::HalfKa => HalfKa::add_features(board, batch, entry),
            InputFeatureSetType::HalfKaCuda => {
                HalfKaCuda::add_features(board, batch, entry);
                proof {
                    let stm = board.side_to_move;
                    half_ka::lemma_halfka_seq_len(
                        board.squares@,
                        stm,
                        crate::board::spec_king_square_of(board.squares@, stm),
                        64,
                    );
                    half_ka::lemma_halfka_seq_len(
                        board.squares@,
                        stm.spec_opposite(),
                        crate::board::spec_king_square_of(board.squares@, stm.spec_opposite()),
                        64,
                    );
                    assert forall|t: int|
                        0 <= t < batch.features@.len() implies #[trigger] batch.features@[t].feature_buffer@.len()
                        == old(batch).features@[t].feature_buffer@.len()
                        + self.spec_max_features() && (forall|i: int|
                        0 <= i < self.spec_lane_indices(*board, t).len()
                            ==> #[trigger] batch.features@[t].feature_buffer@[old(
                            batch,
                        ).features@[t].feature_buffer@.len() + i] == self.spec_lane_indices(
                            *board,
                            t,
                        )[i]) && (forall|i: int|
                        self.spec_lane_indices(*board, t).len() <= i < self.spec_max_features()
                            ==> #[trigger] batch.features@[t].feature_buffer@[old(
                            batch,
                        ).features@[t].feature_buffer@.len() + i] == -1) by {
                        assert(batch.features@[t].wf(
                            batch.capacity as int,
                            batch.max_features as int,
                            batch.indices_per_feature as int,
                            batch.entries as int,
                        ));
                        assert(old(batch).features@[t].wf(
                            old(batch).capacity as int,
                            old(batch).max_features as int,
                            old(batch).indices_per_feature as int,
                            old(batch).entries as int,
                        ));
                        assert(batch.features@[t].feature_buffer@.len()
                            == batch.features@[t].values@.len());
                        assert(old(batch).features@[t].feature_buffer@.len() == old(
                            batch,
                        ).features@[t].values@.len());
                        if t == 0 {
                            assert(self.spec_lane_indices(*board, 0) == half_ka::halfka_seq(
                                board.squares@,
                                stm,
                                crate::board::spec_king_square_of(board.squares@, stm),
                                64,
                            ));
                        } else {
                            assert(self.spec_lane_indices(*board, 1) == half_ka::halfka_seq(
                                board.squares@,
                                stm.spec_opposite(),
                                crate::board::spec_king_square_of(
                                    board.squares@,
                                    stm.spec_opposite(),
                                ),
                                64,
                            ));
                        }
                    }
                }
            },
            InputFeatureSetType::HmStmBoard192 => HmStmBoard192::add_features(board, batch, entry),
            InputFeatureSetType::PhasedHmStmBoard192 => PhasedHmStmBoard192::add_features(
                board,
                batch,
                entry,
            ),
            InputFeatureSetType::PhasedStmBoard384 => PhasedStmBoard384::add_features(
                board,
                batch,
                entry,
            ),
        }
    }
}

/// Feature-set determinism: each set's lane projection is a function of
/// the board alone, so repeated projections of one board from the same
/// write position append identical index runs, and so the same
/// index multiset.
pub proof fn lemma_projection_deterministic(
    set: InputFeatureSetType,
    board: Position,
    row: i64,
    base: Seq<i64>,
    out1: Seq<i64>,
    out2: Seq<i64>,
    lane: int,
)
    requires
        out1 == base + coo_flat(row, set.spec_lane_indices(board, lane)),
        out2 == base + coo_flat(row, set.spec_lane_indices(board, lane)),
    ensures
        out1 == out2,
        out1.to_multiset() == out2.to_multiset(),
{
}

} // verus!
