//! The record-processing core of the streaming loader: unpack a chunk of
//! packed records, drop the ones out of evaluation range, annotate them
//! from the side to move's perspective, bucket them, and project their
//! features into one batch. The surrounding thread, channel and file
//! plumbing lives with the embedding program; everything that decides is
//! here.
use vstd::prelude::*;

use crate::batch::Batch;
use crate::board::Color;
use crate::board::Occupant;
use crate::board::Position;
use crate::bucketing::BucketingSchemeType;
use crate::features::InputFeatureSetType;
use crate::marlinformat::PackedBoard;
use crate::marlinformat::decode_squares;
use crate::marlinformat::decode_stm;

verus! {

/// How many batches one reader generation holds.
pub const BUFFERED_BATCHES: usize = 64;

/// The transient decoded form between unpack and projection.
pub struct AnnotatedBoard {
    pub board: Position,
    /// White-relative centipawns.
    pub cp: i16,
    /// White-relative outcome: 0 black win, 1 draw, 2 white win.
    pub wdl: u8,
}

impl AnnotatedBoard {
    /// Records farther than 3000 centipawns from level are dropped.
    pub open spec fn passes(self) -> bool {
        -3000 <= self.cp <= 3000
    }

    /// The centipawn target, negated when black is to move.
    pub open spec fn adjusted_cp(self) -> int {
        if self.board.side_to_move is White {
            self.cp as int
        } else {
            -(self.cp as int)
        }
    }

    /// The outcome numerator over two, complemented when black is to
    /// move.
    pub open spec fn adjusted_wdl(self) -> int {
        if self.board.side_to_move is White {
            self.wdl as int
        } else {
            2 - self.wdl as int
        }
    }
}

/// How many of the first `n` records pass the evaluation filter.
pub open spec fn count_passing(rs: Seq<AnnotatedBoard>, n: int) -> int
    decreases n,
{
    if n <= 0 {
        0
    } else {
        count_passing(rs, n - 1) + if rs[n - 1].passes() {
            1int
        } else {
            0int
        }
    }
}

/// The centipawn targets of the passing records, in order.
pub open spec fn cp_column(rs: Seq<AnnotatedBoard>, n: int) -> Seq<i32>
    decreases n,
{
    if n <= 0 {
        Seq::empty()
    } else if rs[n - 1].passes() {
        cp_column(rs, n - 1).push(rs[n - 1].adjusted_cp() as i32)
    } else {
        cp_column(rs, n - 1)
    }
}

/// The outcome targets of the passing records, in order.
pub open spec fn wdl_column(rs: Seq<AnnotatedBoard>, n: int) -> Seq<i32>
    decreases n,
{
    if n <= 0 {
        Seq::empty()
    } else if rs[n - 1].passes() {
        wdl_column(rs, n - 1).push(rs[n - 1].adjusted_wdl() as i32)
    } else {
        wdl_column(rs, n - 1)
    }
}

/// The bucket tags of the passing records, in order.
pub open spec fn bucket_column(scheme: BucketingSchemeType, rs: Seq<AnnotatedBoard>, n: int) -> Seq<
    i32,
>
    decreases n,
{
    if n <= 0 {
        Seq::empty()
    } else if rs[n - 1].passes() {
        bucket_column(scheme, rs, n - 1).push(scheme.spec_bucket(rs[n - 1].board.squares@) as i32)
    } else {
        bucket_column(scheme, rs, n - 1)
    }
}

pub proof fn lemma_column_lens(scheme: BucketingSchemeType, rs: Seq<AnnotatedBoard>, n: int)
    ensures
        cp_column(rs, n).len() == count_passing(rs, n),
        wdl_column(rs, n).len() == count_passing(rs, n),
        bucket_column(scheme, rs, n).len() == count_passing(rs, n),
        0 <= count_passing(rs, n),
        count_passing(rs, n) <= (if n >= 0 {
            n
        } else {
            0
        }),
    decreases n,
{
    if n > 0 {
        lemma_column_lens(scheme, rs, n - 1);
    }
}

/// The flat feature-index contents one lane accrues over the passing
/// records, each record's projection tagged with its entry row.
pub open spec fn lane_column(
    feature_set: InputFeatureSetType,
    rs: Seq<AnnotatedBoard>,
    lane: int,
    base_row: int,
    n: int,
) -> Seq<i64>
    decreases n,
{
    if n <= 0 {
        Seq::empty()
    } else {
        let prev = lane_column(feature_set, rs, lane, base_row, n - 1);
        if rs[n - 1].passes() {
            prev + crate::features::coo_flat(
                (base_row + count_passing(rs, n - 1)) as i64,
                feature_set.spec_lane_indices(rs[n - 1].board, lane),
            )
        } else {
            prev
        }
    }
}

/// A packed record the pipeline keeps: it decodes structurally, the
/// chess library accepts its position, and its evaluation is within
/// range.
pub open spec fn record_kept(p: PackedBoard) -> bool {
    &&& p.spec_structural_ok()
    &&& p.spec_accepted()
    &&& -3000 <= p.eval.spec_get() <= 3000
}

pub open spec fn record_squares(p: PackedBoard) -> Seq<Occupant> {
    decode_squares(p.occupancy.spec_get(), p.pieces@)
}

pub open spec fn record_stm(p: PackedBoard) -> Color {
    decode_stm(p.stm_ep_square)
}

/// The centipawn target of a packed record, negated when black is to
/// move.
pub open spec fn record_cp(p: PackedBoard) -> int {
    if record_stm(p) is White {
        p.eval.spec_get() as int
    } else {
        -(p.eval.spec_get() as int)
    }
}

/// The outcome numerator of a packed record, complemented when black is
/// to move.
pub open spec fn record_wdl(p: PackedBoard) -> int {
    if record_stm(p) is White {
        p.wdl as int
    } else {
        2 - p.wdl as int
    }
}

/// How many of the first `n` packed records are kept.
pub open spec fn packed_kept_count(bs: Seq<PackedBoard>, n: int) -> int
    decreases n,
{
    if n <= 0 {
        0
    } else {
        packed_kept_count(bs, n - 1) + if record_kept(bs[n - 1]) {
            1int
        } else {
            0int
        }
    }
}

/// The centipawn targets of the kept packed records, in order.
pub open spec fn packed_cp_column(bs: Seq<PackedBoard>, n: int) -> Seq<i32>
    decreases n,
{
    if n <= 0 {
        Seq::empty()
    } else if record_kept(bs[n - 1]) {
        packed_cp_column(bs, n - 1).push(record_cp(bs[n - 1]) as i32)
    } else {
        packed_cp_column(bs, n - 1)
    }
}

/// The outcome targets of the kept packed records, in order.
pub open spec fn packed_wdl_column(bs: Seq<PackedBoard>, n: int) -> Seq<i32>
    decreases n,
{
    if n <= 0 {
        Seq::empty()
    } else if record_kept(bs[n - 1]) {
        packed_wdl_column(bs, n - 1).push(record_wdl(bs[n - 1]) as i32)
    } else {
        packed_wdl_column(bs, n - 1)
    }
}

/// The bucket tags of the kept packed records, in order.
pub open spec fn packed_bucket_column(
    scheme: BucketingSchemeType,
    bs: Seq<PackedBoard>,
    n: int,
) -> Seq<i32>
    decreases n,
{
    if n <= 0 {
        Seq::empty()
    } else if record_kept(bs[n - 1]) {
        packed_bucket_column(scheme, bs, n - 1).push(
            scheme.spec_bucket(record_squares(bs[n - 1])) as i32,
        )
    } else {
        packed_bucket_column(scheme, bs, n - 1)
    }
}

/// The flat feature-index contents one lane accrues over the kept packed
/// records.
pub open spec fn packed_lane_column(
    feature_set: InputFeatureSetType,
    bs: Seq<PackedBoard>,
    lane: int,
    base_row: int,
    n: int,
) -> Seq<i64>
    decreases n,
{
    if n <= 0 {
        Seq::empty()
    } else {
        let prev = packed_lane_column(feature_set, bs, lane, base_row, n - 1);
        if record_kept(bs[n - 1]) {
            prev + crate::features::coo_flat(
                (base_row + packed_kept_count(bs, n - 1)) as i64,
                feature_set.spec_lane_indices_of(
                    record_squares(bs[n - 1]),
                    record_stm(bs[n - 1]),
                    lane,
                ),
            )
        } else {
            prev
        }
    }
}

/// The annotated columns read only the records below `n`.
proof fn lemma_columns_prefix(
    feature_set: InputFeatureSetType,
    scheme: BucketingSchemeType,
    rs1: Seq<AnnotatedBoard>,
    rs2: Seq<AnnotatedBoard>,
    lane: int,
    base_row: int,
    n: int,
)
    requires
        forall|j: int| 0 <= j < n ==> rs1[j] == rs2[j],
    ensures
        count_passing(rs1, n) == count_passing(rs2, n),
        cp_column(rs1, n) == cp_column(rs2, n),
        wdl_column(rs1, n) == wdl_column(rs2, n),
        bucket_column(scheme, rs1, n) == bucket_column(scheme, rs2, n),
        lane_column(feature_set, rs1, lane, base_row, n) == lane_column(
            feature_set,
            rs2,
            lane,
            base_row,
            n,
        ),
    decreases n,
{
    if n > 0 {
        lemma_columns_prefix(feature_set, scheme, rs1, rs2, lane, base_row, n - 1);
    }
}

/// Every lane's feature count stays within the batch's budget.
pub open spec fn lanes_within(batch: Batch, entries: int) -> bool {
    forall|t: int|
        0 <= t < batch.features@.len() ==> (#[trigger] batch.features@[t]).feature_count_spec()
            <= entries * batch.max_features
}

/// Fill one batch from decoded, annotated records. This is the pipeline's
/// preservation point: exactly the in-range records become entries, in
/// order, with their side-to-move-adjusted targets and buckets; the
/// feature lanes grow by each passing board's projection.
pub fn process_decoded(
    batch: &mut Batch,
    records: &Vec<AnnotatedBoard>,
    feature_set: InputFeatureSetType,
    scheme: BucketingSchemeType,
)
    requires
        old(batch).wf(),
        feature_set.fits(*old(batch)),
        old(batch).entries + records@.len() <= old(batch).capacity,
        lanes_within(*old(batch), old(batch).entries as int),
        forall|i: int| 0 <= i < records@.len() ==> (#[trigger] records@[i]).board.wf(),
    ensures
        final(batch).wf(),
        final(batch).same_shape(*old(batch)),
        feature_set.fits(*final(batch)),
        lanes_within(*final(batch), final(batch).entries as int),
        final(batch).entries == old(batch).entries + count_passing(
            records@,
            records@.len() as int,
        ),
        final(batch).cp@ == old(batch).cp@ + cp_column(records@, records@.len() as int),
        final(batch).wdl@ == old(batch).wdl@ + wdl_column(records@, records@.len() as int),
        final(batch).buckets@ == old(batch).buckets@ + bucket_column(
            scheme,
            records@,
            records@.len() as int,
        ),
        feature_set.spec_indices_per_feature() == 2 ==> forall|t: int|
            0 <= t < final(batch).features@.len()
                ==> #[trigger] final(batch).features@[t].feature_buffer@
                == old(batch).features@[t].feature_buffer@ + lane_column(
                feature_set,
                records@,
                t,
                old(batch).entries as int,
                records@.len() as int,
            ),
{
    let n = records.len();
    let mut i: usize = 0;
    proof {
        lemma_column_lens(scheme, records@, 0);
        assert(batch.cp@ + cp_column(records@, 0) =~= batch.cp@);
        assert(batch.wdl@ + wdl_column(records@, 0) =~= batch.wdl@);
        assert(batch.buckets@ + bucket_column(scheme, records@, 0) =~= batch.buckets@);
        assert forall|t: int| 0 <= t < batch.features@.len() implies #[trigger] batch.features@[t].feature_buffer@
            == batch.features@[t].feature_buffer@ + lane_column(
            feature_set,
            records@,
            t,
            batch.entries as int,
            0,
        ) by {
            assert(batch.features@[t].feature_buffer@ + lane_column(
                feature_set,
                records@,
                t,
                batch.entries as int,
                0,
            ) =~= batch.features@[t].feature_buffer@);
        }
    }
    while i < n
        invariant
            batch.wf(),
            batch.same_shape(*old(batch)),
            feature_set.fits(*batch),
            lanes_within(*batch, batch.entries as int),
            n == records@.len(),
            i <= n,
            forall|k: int| 0 <= k < records@.len() ==> (#[trigger] records@[k]).board.wf(),
            batch.entries == old(batch).entries + count_passing(records@, i as int),
            old(batch).entries + records@.len() <= old(batch).capacity,
            batch.cp@ == old(batch).cp@ + cp_column(records@, i as int),
            batch.wdl@ == old(batch).wdl@ + wdl_column(records@, i as int),
            batch.buckets@ == old(batch).buckets@ + bucket_column(scheme, records@, i as int),
            feature_set.spec_indices_per_feature() == 2 ==> forall|t: int|
                0 <= t < batch.features@.len()
                    ==> #[trigger] batch.features@[t].feature_buffer@
                    == old(batch).features@[t].feature_buffer@ + lane_column(
                    feature_set,
                    records@,
                    t,
                    old(batch).entries as int,
                    i as int,
                ),
        decreases n - i,
    {
        proof {
            lemma_column_lens(scheme, records@, i as int);
        }
        let record = &records[i];
        let cp_wide = record.cp as i32;
        if -3000 <= cp_wide && cp_wide <= 3000 {
            let (cp, wdl) = match record.board.side_to_move {
                Color::White => (cp_wide, record.wdl as i32),
                Color::Black => (-cp_wide, 2 - record.wdl as i32),
            };
            let bucket = scheme.bucket(&record.board);
            let entry = batch.make_entry(cp, wdl, bucket);
            proof {
                assert forall|t: int|
                    0 <= t < batch.features@.len() implies (
                #[trigger] batch.features@[t]).feature_count_spec()
                    + feature_set.spec_max_features() <= batch.capacity * batch.max_features by {
                    assert(batch.features@[t].feature_count_spec() <= (batch.entries - 1)
                        * batch.max_features);
                    assert((batch.entries - 1) * batch.max_features + batch.max_features
                        == batch.entries * batch.max_features) by (nonlinear_arith);
                    assert(batch.entries * batch.max_features <= batch.capacity
                        * batch.max_features) by (nonlinear_arith)
                        requires
                            batch.entries <= batch.capacity,
                            batch.max_features >= 0,
                    ;
                }
            }

            feature_set.add_features(&record.board, batch, entry);
            proof {
                assert forall|t: int|
                    0 <= t < batch.features@.len() implies (
                #[trigger] batch.features@[t]).feature_count_spec() <= batch.entries
                    * batch.max_features by {
                    assert((batch.entries - 1) * batch.max_features + batch.max_features
                        == batch.entries * batch.max_features) by (nonlinear_arith);
                }
                if feature_set.spec_indices_per_feature() == 2 {
                    assert forall|t: int|
                        0 <= t < batch.features@.len() implies #[trigger] batch.features@[t].feature_buffer@
                        == old(batch).features@[t].feature_buffer@ + lane_column(
                        feature_set,
                        records@,
                        t,
                        old(batch).entries as int,
                        i as int + 1,
                    ) by {
                        let base = old(batch).features@[t].feature_buffer@;
                        let prev = lane_column(
                            feature_set,
                            records@,
                            t,
                            old(batch).entries as int,
                            i as int,
                        );
                        let piece = crate::features::coo_flat(
                            entry.index_in_batch as i64,
                            feature_set.spec_lane_indices(records@[i as int].board, t),
                        );
                        assert(batch.features@[t].feature_buffer@ == (base + prev) + piece);
                        assert((base + prev) + piece =~= base + (prev + piece));
                    }
                }
            }
        }
        i += 1;
        proof {
            assert(batch.cp@ == old(batch).cp@ + cp_column(records@, i as int));
            assert(batch.wdl@ == old(batch).wdl@ + wdl_column(records@, i as int));
            assert(batch.buckets@ == old(batch).buckets@ + bucket_column(
                scheme,
                records@,
                i as int,
            ));
        }
    }
}

/// Decode a chunk of packed records and fill one batch. Exactly the kept
/// records become entries, in order: those the codec decodes, the chess
/// library accepts, and the evaluation filter passes; their adjusted
/// targets, buckets and feature projections are appended as
/// `process_decoded` states, restated here over the packed records.
pub fn process(
    batch: &mut Batch,
    boards: &Vec<PackedBoard>,
    feature_set: InputFeatureSetType,
    scheme: BucketingSchemeType,
)
    requires
        old(batch).wf(),
        feature_set.fits(*old(batch)),
        old(batch).entries + boards@.len() <= old(batch).capacity,
        lanes_within(*old(batch), old(batch).entries as int),
        forall|i: int| 0 <= i < boards@.len() ==> (#[trigger] boards@[i]).pieces.wf(),
    ensures
        final(batch).wf(),
        final(batch).same_shape(*old(batch)),
        feature_set.fits(*final(batch)),
        lanes_within(*final(batch), final(batch).entries as int),
        final(batch).entries == old(batch).entries + packed_kept_count(
            boards@,
            boards@.len() as int,
        ),
        final(batch).cp@ == old(batch).cp@ + packed_cp_column(boards@, boards@.len() as int),
        final(batch).wdl@ == old(batch).wdl@ + packed_wdl_column(boards@, boards@.len() as int),
        final(batch).buckets@ == old(batch).buckets@ + packed_bucket_column(
            scheme,
            boards@,
            boards@.len() as int,
        ),
        feature_set.spec_indices_per_feature() == 2 ==> forall|t: int|
            0 <= t < final(batch).features@.len()
                ==> #[trigger] final(batch).features@[t].feature_buffer@
                == old(batch).features@[t].feature_buffer@ + packed_lane_column(
                feature_set,
                boards@,
                t,
                old(batch).entries as int,
                boards@.len() as int,
            ),
{
    let n = boards.len();
    let ghost base_row = batch.entries as int;
    let mut decoded: Vec<AnnotatedBoard> = Vec::new();
    let mut i: usize = 0;
    while i < n
        invariant
            n == boards@.len(),
            i <= n,
            decoded@.len() <= i,
            base_row == batch.entries as int,
            forall|k: int| 0 <= k < boards@.len() ==> (#[trigger] boards@[k]).pieces.wf(),
            forall|k: int| 0 <= k < decoded@.len() ==> (#[trigger] decoded@[k]).board.wf(),
            count_passing(decoded@, decoded@.len() as int) == packed_kept_count(boards@, i as int),
            cp_column(decoded@, decoded@.len() as int) == packed_cp_column(boards@, i as int),
            wdl_column(decoded@, decoded@.len() as int) == packed_wdl_column(boards@, i as int),
            bucket_column(scheme, decoded@, decoded@.len() as int) == packed_bucket_column(
                scheme,
                boards@,
                i as int,
            ),
            forall|t: int|
                0 <= t < feature_set.spec_tensors_per_board() ==> #[trigger] lane_column(
                    feature_set,
                    decoded@,
                    t,
                    base_row,
                    decoded@.len() as int,
                ) == packed_lane_column(feature_set, boards@, t, base_row, i as int),
        decreases n - i,
    {
        let ghost pre = decoded@;
        let record = &boards[i];
        match record.unpack() {
            Some((board, cp, wdl, _)) => {
                decoded.push(AnnotatedBoard { board, cp, wdl });
                proof {
                    let rec = decoded@.last();
                    assert(rec.board.squares@ == record_squares(boards@[i as int]));
                    assert(rec.board.side_to_move == record_stm(boards@[i as int]));
                    assert(rec.passes() == record_kept(boards@[i as int]));
                    assert forall|t: int|
                        0 <= t < feature_set.spec_tensors_per_board() implies #[trigger] lane_column(
                        feature_set,
                        decoded@,
                        t,
                        base_row,
                        decoded@.len() as int,
                    ) == packed_lane_column(feature_set, boards@, t, base_row, i as int + 1) by {
                        lemma_columns_prefix(
                            feature_set,
                            scheme,
                            decoded@,
                            pre,
                            t,
                            base_row,
                            pre.len() as int,
                        );
                    }
                    lemma_columns_prefix(
                        feature_set,
                        scheme,
                        decoded@,
                        pre,
                        0,
                        base_row,
                        pre.len() as int,
                    );
                }
            },
            None => {
                proof {
                    assert(!record_kept(boards@[i as int]));
                }
            },
        }
        i += 1;
    }
    proof {
        lemma_column_lens(scheme, decoded@, decoded@.len() as int);
    }
    process_decoded(batch, &decoded, feature_set, scheme);
}

/// Size a pool of batches for one reader generation.
pub fn batch_buffer(feature_set: InputFeatureSetType, batch_size: usize) -> (r: Vec<Batch>)
    requires
        batch_size <= 0x7fff_ffff,
    ensures
        r@.len() == BUFFERED_BATCHES,
        forall|k: int|
            0 <= k < r@.len() ==> (#[trigger] r@[k]).wf() && feature_set.fits(r@[k])
                && r@[k].entries == 0 && r@[k].capacity == batch_size && lanes_within(r@[k], 0),
{
    let mut r: Vec<Batch> = Vec::new();
    let mut i: usize = 0;
    while i < BUFFERED_BATCHES
        invariant
            i <= BUFFERED_BATCHES,
            r@.len() == i,
            batch_size <= 0x7fff_ffff,
            forall|k: int|
                0 <= k < i ==> (#[trigger] r@[k]).wf() && feature_set.fits(r@[k]) && r@[k].entries
                    == 0 && r@[k].capacity == batch_size && lanes_within(r@[k], 0),
        decreases BUFFERED_BATCHES - i,
    {
        let b = Batch::new(
            batch_size,
            feature_set.max_features(),
            feature_set.indices_per_feature(),
            feature_set.tensors_per_board(),
        );
        r.push(b);
        i += 1;
    }
    r
}

/// The cursor step of the consumer side: the first non-empty batch at or
/// after `start`, or nothing if the rest of the generation is empty.
pub fn next_nonempty(batches: &Vec<Batch>, start: usize) -> (r: Option<usize>)
    ensures
        r matches Some(i) ==> start <= i < batches@.len() && batches@[i as int].entries > 0 && (
        forall|j: int| start <= j < i ==> (#[trigger] batches@[j]).entries == 0),
        r is None ==> forall|j: int|
            start <= j < batches@.len() ==> (#[trigger] batches@[j]).entries == 0,
{
    let mut i = start;
    while i < batches.len()
        invariant
            start <= i,
            forall|j: int| start <= j < i ==> (#[trigger] batches@[j]).entries == 0,
        decreases batches@.len() - i,
    {
        if batches[i].len() > 0 {
            return Some(i);
        }
        i += 1;
    }
    None
}

} // verus!
