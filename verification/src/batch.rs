//! The columnar batch container: per-lane sparse feature buffers and the
//! per-entry training targets. Feature values are fixed-point numerators
//! over [`VALUE_UNIT`], so that a one-hot feature stores `VALUE_UNIT` and a
//! phase-weighted feature stores its phase numerator; win-draw-loss
//! targets are numerators over two.
use vstd::prelude::*;

verus! {

/// The denominator of the fixed-point feature values.
pub const VALUE_UNIT: i32 = 24;

/// One output tensor lane: flat feature indices and their parallel values.
pub struct SparseTensorList {
    /// For two indices per feature, `(entry_row, feature_id)` pairs,
    /// flattened; for one, feature ids alone.
    pub feature_buffer: Vec<i64>,
    /// Fixed-point value numerators, one per written feature.
    pub values: Vec<i32>,
}

impl SparseTensorList {
    /// The lane's buffers are parallel, sized within the batch's bounds,
    /// and every written row is a filled entry.
    pub open spec fn wf(self, capacity: int, max_features: int, ipf: int, entries: int) -> bool {
        &&& self.values@.len() <= capacity * max_features
        &&& self.feature_buffer@.len() == self.values@.len() * ipf
        &&& ipf == 2 ==> forall|k: int|
            0 <= k < self.values@.len() ==> 0 <= #[trigger] self.feature_buffer@[2 * k] < entries
    }

    pub open spec fn feature_count_spec(self) -> int {
        self.values@.len() as int
    }
}

/// A fixed-capacity columnar batch.
pub struct Batch {
    pub capacity: usize,
    pub features: Vec<SparseTensorList>,
    pub indices_per_feature: usize,
    pub max_features: usize,
    /// Centipawn targets, from the side to move's perspective.
    pub cp: Vec<i32>,
    /// Win-draw-loss numerators over two: 0 loss, 1 draw, 2 win, for the
    /// side to move.
    pub wdl: Vec<i32>,
    pub buckets: Vec<i32>,
    pub entries: usize,
}

impl Batch {
    pub open spec fn wf(self) -> bool {
        &&& self.entries <= self.capacity
        &&& self.capacity <= 0x7fff_ffff
        &&& self.max_features <= 0xffff
        &&& self.cp@.len() == self.entries
        &&& self.wdl@.len() == self.entries
        &&& self.buckets@.len() == self.entries
        &&& self.indices_per_feature == 1 || self.indices_per_feature == 2
        &&& self.features@.len() >= 1
        &&& forall|t: int|
            0 <= t < self.features@.len() ==> #[trigger] self.features@[t].wf(
                self.capacity as int,
                self.max_features as int,
                self.indices_per_feature as int,
                self.entries as int,
            )
    }

    /// The batch's shape: everything but the written contents.
    pub open spec fn same_shape(self, other: Batch) -> bool {
        &&& self.capacity == other.capacity
        &&& self.indices_per_feature == other.indices_per_feature
        &&& self.max_features == other.max_features
        &&& self.features@.len() == other.features@.len()
    }

    pub fn new(
        capacity: usize,
        max_features: usize,
        indices_per_feature: usize,
        tensors_per_board: usize,
    ) -> (r: Batch)
        requires
            indices_per_feature == 1 || indices_per_feature == 2,
            tensors_per_board >= 1,
            capacity <= 0x7fff_ffff,
            max_features <= 0xffff,
        ensures
            r.wf(),
            r.capacity == capacity,
            r.max_features == max_features,
            r.indices_per_feature == indices_per_feature,
            r.features@.len() == tensors_per_board,
            r.entries == 0,
            forall|t: int|
                0 <= t < tensors_per_board ==> (#[trigger] r.features@[t]).feature_buffer@.len()
                    == 0 && r.features@[t].values@.len() == 0,
    {
        let mut features: Vec<SparseTensorList> = Vec::new();
        let mut t: usize = 0;
        while t < tensors_per_board
            invariant
                t <= tensors_per_board,
                features@.len() == t,
                forall|i: int|
                    0 <= i < t ==> (#[trigger] features@[i]).feature_buffer@.len() == 0
                        && features@[i].values@.len() == 0,
            decreases tensors_per_board - t,
        {
            features.push(SparseTensorList { feature_buffer: Vec::new(), values: Vec::new() });
            t += 1;
        }
        Batch {
            capacity,
            features,
            indices_per_feature,
            max_features,
            cp: Vec::new(),
            wdl: Vec::new(),
            buckets: Vec::new(),
            entries: 0,
        }
    }

    /// Open the next entry row, recording its targets; feature writes for
    /// the row go through the returned writer.
    pub fn make_entry(&mut self, cp: i32, wdl: i32, bucket: i32) -> (w: EntryFeatureWriter)
        requires
            old(self).wf(),
            old(self).entries < old(self).capacity,
        ensures
            final(self).wf(),
            final(self).same_shape(*old(self)),
            final(self).entries == old(self).entries + 1,
            final(self).cp@ == old(self).cp@.push(cp),
            final(self).wdl@ == old(self).wdl@.push(wdl),
            final(self).buckets@ == old(self).buckets@.push(bucket),
            final(self).features@ == old(self).features@,
            w.index_in_batch == old(self).entries,
    {
        let index_in_batch = self.entries;
        self.entries = self.entries + 1;
        self.cp.push(cp);
        self.wdl.push(wdl);
        self.buckets.push(bucket);
        proof {
            assert forall|t: int| 0 <= t < self.features@.len() implies (
            #[trigger] self.features@[t]).wf(
                self.capacity as int,
                self.max_features as int,
                self.indices_per_feature as int,
                self.entries as int,
            ) by {
                assert(old(self).features@[t].wf(
                    old(self).capacity as int,
                    old(self).max_features as int,
                    old(self).indices_per_feature as int,
                    old(self).entries as int,
                ));
            }
        }
        EntryFeatureWriter { index_in_batch }
    }

    /// Forget the contents; the shape and allocations remain.
    pub fn clear(&mut self)
        requires
            old(self).wf(),
        ensures
            final(self).wf(),
            final(self).same_shape(*old(self)),
            final(self).entries == 0,
            final(self).cp@.len() == 0,
            final(self).wdl@.len() == 0,
            final(self).buckets@.len() == 0,
            final(self).features@.len() == old(self).features@.len(),
            forall|t: int|
                0 <= t < final(self).features@.len() ==> (#[trigger] final(self).features@[t]).feature_buffer@.len() == 0
                    && final(self).features@[t].values@.len() == 0,
    {
        self.entries = 0;
        self.cp.clear();
        self.wdl.clear();
        self.buckets.clear();
        let n = self.features.len();
        let mut t: usize = 0;
        while t < n
            invariant
                t <= n,
                self.features@.len() == n,
                self.capacity == old(self).capacity,
                self.indices_per_feature == old(self).indices_per_feature,
                self.max_features == old(self).max_features,
                self.entries == 0,
                self.cp@.len() == 0,
                self.wdl@.len() == 0,
                self.buckets@.len() == 0,
                forall|i: int|
                    0 <= i < t ==> (#[trigger] self.features@[i]).feature_buffer@.len() == 0
                        && self.features@[i].values@.len() == 0,
            decreases n - t,
        {
            let lane = &mut self.features[t];
            lane.feature_buffer.clear();
            lane.values.clear();
            t += 1;
        }
    }

    pub fn capacity(&self) -> (r: usize)
        ensures
            r == self.capacity,
    {
        self.capacity
    }

    pub fn len(&self) -> (r: usize)
        ensures
            r == self.entries,
    {
        self.entries
    }

    pub fn feature_count(&self, tensor: usize) -> (r: usize)
        requires
            tensor < self.features@.len(),
        ensures
            r == self.features@[tensor as int].feature_count_spec(),
    {
        self.features[tensor].values.len()
    }

    pub fn tensors_per_board(&self) -> (r: usize)
        ensures
            r == self.features@.len(),
    {
        self.features.len()
    }

    pub fn indices_per_feature(&self) -> (r: usize)
        ensures
            r == self.indices_per_feature,
    {
        self.indices_per_feature
    }
}

/// A handle on one open entry row.
#[derive(Clone, Copy)]
pub struct EntryFeatureWriter {
    pub index_in_batch: usize,
}

impl EntryFeatureWriter {
    /// Append one feature to a lane: the row and feature id (or, with one
    /// index per feature, the id alone) into the index buffer, and the
    /// fixed-point value alongside.
    pub fn add_feature(&self, batch: &mut Batch, tensor: usize, feature: i64, value: i32)
        requires
            old(batch).wf(),
            self.index_in_batch < old(batch).entries,
            tensor < old(batch).features@.len(),
            old(batch).features@[tensor as int].feature_count_spec() < old(batch).capacity
                * old(batch).max_features,
        ensures
            final(batch).wf(),
            final(batch).same_shape(*old(batch)),
            final(batch).entries == old(batch).entries,
            final(batch).cp@ == old(batch).cp@,
            final(batch).wdl@ == old(batch).wdl@,
            final(batch).buckets@ == old(batch).buckets@,
            final(batch).features@.len() == old(batch).features@.len(),
            forall|t: int|
                0 <= t < old(batch).features@.len() && t != tensor ==> final(batch).features@[t]
                    == old(batch).features@[t],
            final(batch).features@[tensor as int].values@
                == old(batch).features@[tensor as int].values@.push(value),
            old(batch).indices_per_feature == 2
                ==> final(batch).features@[tensor as int].feature_buffer@
                == old(batch).features@[tensor as int].feature_buffer@.push(
                self.index_in_batch as i64,
            ).push(feature),
            old(batch).indices_per_feature == 1
                ==> final(batch).features@[tensor as int].feature_buffer@
                == old(batch).features@[tensor as int].feature_buffer@.push(feature),
    {
        let two = batch.indices_per_feature == 2;
        let lane = &mut batch.features[tensor];
        if two {
            lane.feature_buffer.push(self.index_in_batch as i64);
        }
        lane.feature_buffer.push(feature);
        lane.values.push(value);
        proof {
            let cap = batch.capacity as int;
            let maxf = batch.max_features as int;
            let ipf = batch.indices_per_feature as int;
            let ent = batch.entries as int;
            let t = tensor as int;
            let oldl = old(batch).features@[t];
            let newl = batch.features@[t];
            assert(oldl.wf(cap, maxf, ipf, ent));
            assert(newl.values@.len() == oldl.values@.len() + 1);
            if ipf == 2 {
                assert forall|k: int| 0 <= k < newl.values@.len() implies 0 <= #[trigger] newl.feature_buffer@[2 * k] < ent by {
                    if k < oldl.values@.len() {
                        assert(0 <= oldl.feature_buffer@[2 * k] < ent);
                        assert(newl.feature_buffer@[2 * k] == oldl.feature_buffer@[2 * k]);
                    } else {
                        assert(2 * k == oldl.feature_buffer@.len());
                        assert(newl.feature_buffer@[2 * k] == self.index_in_batch as i64);
                    }
                }
            }
            assert(newl.wf(cap, maxf, ipf, ent));
            assert forall|t2: int| 0 <= t2 < batch.features@.len() implies (
            #[trigger] batch.features@[t2]).wf(cap, maxf, ipf, ent) by {
                assert(old(batch).features@[t2].wf(cap, maxf, ipf, ent));
                if t2 != t {
                    assert(batch.features@[t2] == old(batch).features@[t2]);
                }
            }
        }
    }
}

} // verus!
