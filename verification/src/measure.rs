//! Per-device-pair rolling distance history with a most-recent-value
//! estimator.

use vstd::prelude::*;

use crate::arith::clamp_i64;
use crate::arith::clamp_spec;
use crate::utils::ring_push;
use crate::utils::DevId;
use crate::utils::Timestamp;

verus! {

/// Number of samples each pair's ring holds.
pub const MEASURE_DEPTH: usize = 5;

/// Largest distance magnitude the engine stores. Samples are clamped into
/// this range on recording so that no stored value can overflow the
/// geometry arithmetic: the integer analog of a NaN/Inf guard.
pub const DIST_LIMIT: i64 = 1_000_000_000;

/// The canonical low end of an unordered device pair.
pub open spec fn pair_lo(a: DevId, b: DevId) -> DevId {
    if a <= b {
        a
    } else {
        b
    }
}

/// The canonical high end of an unordered device pair.
pub open spec fn pair_hi(a: DevId, b: DevId) -> DevId {
    if a <= b {
        b
    } else {
        a
    }
}

/// Pair-canonicalization law: a measurement between `a` and `b` addresses
/// the same canonical pair in either order.
pub proof fn lemma_pair_canonical(a: DevId, b: DevId)
    ensures
        pair_lo(a, b) == pair_lo(b, a),
        pair_hi(a, b) == pair_hi(b, a),
{
}

/// The value a distance sample is stored as.
pub open spec fn clamp_dist(d: int) -> int {
    clamp_spec(d, -(DIST_LIMIT as int), DIST_LIMIT as int)
}

/// One distance sample between a pair of devices, in thousandths of the
/// engine's coordinate unit.
pub struct Distance {
    pub id: [DevId; 2],
    pub timestamp: Timestamp,
    pub distance: i64,
}

impl Distance {
    pub fn new(id: [DevId; 2], timestamp: Timestamp, distance: i64) -> (d: Distance)
        ensures
            d.id == id,
            d.timestamp == timestamp,
            d.distance == distance,
    {
        Distance { id, timestamp, distance }
    }
}

/// Shifts a ring one slot toward the back, drops the last (oldest) entry
/// and puts the new value at the front.
pub fn array_insert_pop<T: Copy>(arr: &mut Vec<T>, new_val: T)
    requires
        old(arr).len() >= 1,
    ensures
        final(arr)@ == ring_push(old(arr)@, old(arr)@.len(), new_val),
        final(arr)@.len() == old(arr)@.len(),
{
    arr.insert(0, new_val);
    arr.pop();
    proof {
        assert(final(arr)@ =~= ring_push(old(arr)@, old(arr)@.len(), new_val));
    }
}

/// The spec-level value of one pair history: canonical ids and the two
/// rings, newest sample first.
#[verifier::ext_equal]
pub struct ListV {
    pub lo: DevId,
    pub hi: DevId,
    pub ts: Seq<Timestamp>,
    pub vals: Seq<i64>,
}

/// The history a pair starts with: both rings seeded with the first
/// sample.
pub open spec fn spec_list_new(id0: DevId, id1: DevId, ts: Timestamp, d: int) -> ListV {
    ListV {
        lo: pair_lo(id0, id1),
        hi: pair_hi(id0, id1),
        ts: Seq::new(MEASURE_DEPTH as nat, |i: int| ts),
        vals: Seq::new(MEASURE_DEPTH as nat, |i: int| clamp_dist(d) as i64),
    }
}

/// One recording into a pair's history: both rings shift, newest first.
pub open spec fn spec_list_update(l: ListV, ts: Timestamp, d: int) -> ListV {
    ListV {
        lo: l.lo,
        hi: l.hi,
        ts: ring_push(l.ts, MEASURE_DEPTH as nat, ts),
        vals: ring_push(l.vals, MEASURE_DEPTH as nat, clamp_dist(d) as i64),
    }
}

/// Rolling history of distance samples for one canonical device pair.
pub struct List {
    dev: [DevId; 2],
    measures_ts: Vec<Timestamp>,
    measures_val: Vec<i64>,
}

impl View for List {
    type V = ListV;

    closed spec fn view(&self) -> ListV {
        ListV {
            lo: self.dev[0],
            hi: self.dev[1],
            ts: self.measures_ts@,
            vals: self.measures_val@,
        }
    }
}

impl List {
    pub open spec fn wf(&self) -> bool {
        &&& self@.lo <= self@.hi
        &&& self@.ts.len() == MEASURE_DEPTH
        &&& self@.vals.len() == MEASURE_DEPTH
        &&& forall|i: int|
            0 <= i < self@.vals.len() ==> -DIST_LIMIT <= #[trigger] self@.vals[i] <= DIST_LIMIT
    }

    /// Starts a pair's history from its first sample: the pair is stored
    /// canonically (low id first) and both rings are seeded with the
    /// sample.
    pub fn new(meas: Distance) -> (l: List)
        ensures
            l.wf(),
            l@ == spec_list_new(meas.id[0], meas.id[1], meas.timestamp, meas.distance as int),
    {
        let lo: DevId = if meas.id[0] <= meas.id[1] {
            meas.id[0]
        } else {
            meas.id[1]
        };
        let hi: DevId = if meas.id[0] <= meas.id[1] {
            meas.id[1]
        } else {
            meas.id[0]
        };
        let d = clamp_i64(meas.distance, -DIST_LIMIT, DIST_LIMIT);
        let l = List {
            dev: [lo, hi],
            measures_ts: vec![meas.timestamp, meas.timestamp, meas.timestamp, meas.timestamp, meas.timestamp],
            measures_val: vec![d, d, d, d, d],
        };
        proof {
            assert(l@ =~= spec_list_new(meas.id[0], meas.id[1], meas.timestamp, meas.distance as int));
        }
        l
    }

    /// The canonical pair: index 0 is the low id, index 1 the high id.
    pub fn id(&self, i: usize) -> (r: DevId)
        requires
            i < 2,
        ensures
            r == if i == 0 {
                self@.lo
            } else {
                self@.hi
            },
    {
        self.dev[i]
    }

    /// Pushes a new sample to the front of both rings, evicting the
    /// oldest; the stored value is clamped into `[-DIST_LIMIT, DIST_LIMIT]`.
    pub fn update(&mut self, meas: Distance)
        requires
            old(self).wf(),
        ensures
            final(self).wf(),
            final(self)@ == spec_list_update(old(self)@, meas.timestamp, meas.distance as int),
    {
        let d = clamp_i64(meas.distance, -DIST_LIMIT, DIST_LIMIT);
        array_insert_pop(&mut self.measures_val, d);
        array_insert_pop(&mut self.measures_ts, meas.timestamp);
        proof {
            assert(final(self)@ =~= spec_list_update(
                old(self)@,
                meas.timestamp,
                meas.distance as int,
            ));
        }
    }

    /// Most-recent-value estimator: returns the newest stored sample for
    /// this pair. The query timestamp is deliberately ignored: the
    /// freshest sample dominates and no interpolation is attempted.
    pub fn estimate(&self, _timestamp: Timestamp) -> (d: i64)
        requires
            self.wf(),
        ensures
            d == self@.vals[0],
    {
        self.measures_val[0]
    }
}

} // verus!
