//! The estimation engine: one zone owns the device registry and the
//! measurement store, ingests pairwise distance measurements, and
//! re-estimates positions with the strategy chosen at construction.

use vstd::prelude::*;

use crate::device;
use crate::device::describe;
use crate::device::DataV;
use crate::device::Description;
use crate::device::POSITION_TRACE_DEPTH;
use crate::lateration;
use crate::lateration::circles_wf;
use crate::lateration::Circle;
use crate::lateration::LaterationTypes;
use crate::measure;
use crate::measure::pair_hi;
use crate::measure::pair_lo;
use crate::measure::spec_list_new;
use crate::measure::spec_list_update;
use crate::measure::ListV;
use crate::measure::DIST_LIMIT;
use crate::measure::MEASURE_DEPTH;
use crate::utils::ring_push;
use crate::utils::Coords;
use crate::utils::DevId;
use crate::utils::Timestamp;
use crate::utils::Trace;

verus! {

/// Outcome of a zone operation; device-not-found and duplicate-id
/// conditions are reported here, never by panicking.
#[derive(Clone, Copy, Debug, PartialEq, Eq, Structural)]
pub enum ExitCode {
    Okay,
    UnknownDevice,
    AlreadyExist,
}

/// The spec-level value of a zone: both collections in insertion order.
#[verifier::ext_equal]
pub struct ZoneV {
    pub id: u32,
    pub strategy: LaterationTypes,
    pub devices: Seq<DataV>,
    pub measures: Seq<ListV>,
}

/// The first registry index holding the id, if any.
pub open spec fn find_dev(devs: Seq<DataV>, id: DevId) -> Option<int>
    decreases devs.len(),
{
    if devs.len() == 0 {
        None
    } else if devs[0].id == id {
        Some(0)
    } else {
        match find_dev(devs.skip(1), id) {
            Some(i) => Some(i + 1),
            None => None,
        }
    }
}

pub proof fn lemma_find_dev(devs: Seq<DataV>, id: DevId)
    ensures
        (match find_dev(devs, id) {
            Some(k) => 0 <= k < devs.len() && devs[k].id == id && (forall|j: int|
                0 <= j < k ==> (#[trigger] devs[j]).id != id),
            None => forall|j: int| 0 <= j < devs.len() ==> (#[trigger] devs[j]).id != id,
        }),
    decreases devs.len(),
{
    if devs.len() > 0 && devs[0].id != id {
        lemma_find_dev(devs.skip(1), id);
        assert(forall|j: int|
            1 <= j < devs.len() ==> #[trigger] devs[j] == devs.skip(1)[j - 1]);
    }
}

/// The first store index holding the canonical pair, if any.
pub open spec fn find_pair(ms: Seq<ListV>, lo: DevId, hi: DevId) -> Option<int>
    decreases ms.len(),
{
    if ms.len() == 0 {
        None
    } else if ms[0].lo == lo && ms[0].hi == hi {
        Some(0)
    } else {
        match find_pair(ms.skip(1), lo, hi) {
            Some(i) => Some(i + 1),
            None => None,
        }
    }
}

pub proof fn lemma_find_pair(ms: Seq<ListV>, lo: DevId, hi: DevId)
    ensures
        (match find_pair(ms, lo, hi) {
            Some(k) => 0 <= k < ms.len() && ms[k].lo == lo && ms[k].hi == hi && (forall|j: int|
                0 <= j < k ==> !((#[trigger] ms[j]).lo == lo && ms[j].hi == hi)),
            None => forall|j: int|
                0 <= j < ms.len() ==> !((#[trigger] ms[j]).lo == lo && ms[j].hi == hi),
        }),
    decreases ms.len(),
{
    if ms.len() > 0 && !(ms[0].lo == lo && ms[0].hi == hi) {
        lemma_find_pair(ms.skip(1), lo, hi);
        assert(forall|j: int| 1 <= j < ms.len() ==> #[trigger] ms[j] == ms.skip(1)[j - 1]);
    }
}

pub open spec fn data_v_wf(d: DataV) -> bool {
    1 <= d.scent.len() <= POSITION_TRACE_DEPTH
}

pub open spec fn list_v_wf(l: ListV) -> bool {
    &&& l.lo < l.hi
    &&& l.ts.len() == MEASURE_DEPTH
    &&& l.vals.len() == MEASURE_DEPTH
    &&& forall|i: int| 0 <= i < l.vals.len() ==> -DIST_LIMIT <= #[trigger] l.vals[i] <= DIST_LIMIT
}

/// Zone invariant: every device has a seeded bounded history, ids are
/// unique, every pair history is canonical and bounded, and pairs are
/// unique.
pub open spec fn zone_v_wf(z: ZoneV) -> bool {
    &&& forall|i: int| 0 <= i < z.devices.len() ==> data_v_wf(#[trigger] z.devices[i])
    &&& forall|i: int, j: int|
        #![trigger z.devices[i].id, z.devices[j].id]
        0 <= i < j < z.devices.len() ==> z.devices[i].id != z.devices[j].id
    &&& forall|i: int| 0 <= i < z.measures.len() ==> list_v_wf(#[trigger] z.measures[i])
    &&& forall|i: int, j: int|
        #![trigger z.measures[i].lo, z.measures[j].lo]
        0 <= i < j < z.measures.len() ==> !(z.measures[i].lo == z.measures[j].lo
            && z.measures[i].hi == z.measures[j].hi)
}

/// The device registered for a fresh id: a seed sample at the given
/// position, stamped 0.
pub open spec fn seed_dev(id: DevId, c: Coords) -> DataV {
    DataV { id, timestamp: 0, scent: seq![Trace { coords: c, timestamp: 0 }] }
}

/// What `add_device` does: appends a seeded device for a fresh id and
/// reports `Ok`, or leaves the zone unchanged and reports
/// `AlreadyExist`.
pub open spec fn spec_add_device(z: ZoneV, id: DevId, c: Coords) -> (ZoneV, ExitCode) {
    if find_dev(z.devices, id) is Some {
        (z, ExitCode::AlreadyExist)
    } else {
        (
            ZoneV {
                id: z.id,
                strategy: z.strategy,
                devices: z.devices + seq![seed_dev(id, c)],
                measures: z.measures,
            },
            ExitCode::Okay,
        )
    }
}

/// The distance constraints anchoring a device: one circle per stored
/// pair that touches it and whose other end is a registered device, in
/// store order; the circle is the neighbor's newest position and the
/// pair's newest distance sample.
pub open spec fn circles_upto(z: ZoneV, did: DevId, n: int) -> Seq<Circle>
    decreases n,
{
    if n <= 0 {
        Seq::<Circle>::empty()
    } else {
        let prev = circles_upto(z, did, n - 1);
        let l = z.measures[n - 1];
        if l.lo == did || l.hi == did {
            let other = if l.lo == did {
                l.hi
            } else {
                l.lo
            };
            match find_dev(z.devices, other) {
                Some(k) => prev + seq![
                    Circle {
                        x: z.devices[k].scent[0].coords.x,
                        y: z.devices[k].scent[0].coords.y,
                        r: l.vals[0],
                    },
                ],
                None => prev,
            }
        } else {
            prev
        }
    }
}

pub open spec fn circles_of(z: ZoneV, did: DevId) -> Seq<Circle> {
    circles_upto(z, did, z.measures.len() as int)
}

/// The position estimated for the device at registry index `k`: the
/// chosen strategy applied to its circles, falling back to its newest
/// stored position.
pub open spec fn spec_calc_trace(z: ZoneV, k: int, timestamp: Timestamp) -> Trace
    recommends
        0 <= k < z.devices.len(),
        data_v_wf(z.devices[k]),
{
    lateration::spec_calc_dev_position(
        z.strategy,
        circles_of(z, z.devices[k].id),
        Trace { coords: z.devices[k].scent[0].coords, timestamp },
        timestamp,
    )
}

/// What `update_dev_position` does: re-estimates and saves the device's
/// position; an unknown id is either seeded first (when creation is
/// allowed) or reported as `UnknownDevice` with the zone unchanged.
pub open spec fn spec_update_dev_position(
    z: ZoneV,
    id: DevId,
    timestamp: Timestamp,
    allow_dev_creation: bool,
) -> (ZoneV, ExitCode) {
    match find_dev(z.devices, id) {
        Some(k) => {
            let t = spec_calc_trace(z, k, timestamp);
            let d = z.devices[k];
            let d2 = DataV {
                id: d.id,
                timestamp: d.timestamp,
                scent: ring_push(d.scent, POSITION_TRACE_DEPTH as nat, t),
            };
            (
                ZoneV {
                    id: z.id,
                    strategy: z.strategy,
                    devices: z.devices.update(k, d2),
                    measures: z.measures,
                },
                ExitCode::Okay,
            )
        },
        None => {
            if allow_dev_creation {
                let z1 = spec_add_device(z, id, Coords { x: 0, y: 0, z: 0 }).0;
                let k = z1.devices.len() - 1;
                let t = spec_calc_trace(z1, k, timestamp);
                let d = z1.devices[k];
                let d2 = DataV {
                    id: d.id,
                    timestamp: d.timestamp,
                    scent: ring_push(d.scent, POSITION_TRACE_DEPTH as nat, t),
                };
                (
                    ZoneV {
                        id: z1.id,
                        strategy: z1.strategy,
                        devices: z1.devices.update(k, d2),
                        measures: z1.measures,
                    },
                    ExitCode::Okay,
                )
            } else {
                (z, ExitCode::UnknownDevice)
            }
        },
    }
}

/// What `add_measure` does. A first sample for a pair only creates the
/// pair's history; a later sample updates the history and then
/// re-estimates both devices of the pair in increasing id order, each
/// independently: a failed device update is reported at once, but the
/// recorded measurement is never rolled back.
pub open spec fn spec_add_measure(
    z: ZoneV,
    id1: DevId,
    id2: DevId,
    distance: i64,
    timestamp: Timestamp,
    allow_dev_creation: bool,
) -> (ZoneV, ExitCode)
    recommends
        id1 != id2,
{
    let lo = pair_lo(id1, id2);
    let hi = pair_hi(id1, id2);
    match find_pair(z.measures, lo, hi) {
        Some(m) => {
            let z1 = ZoneV {
                id: z.id,
                strategy: z.strategy,
                devices: z.devices,
                measures: z.measures.update(
                    m,
                    spec_list_update(z.measures[m], timestamp, distance as int),
                ),
            };
            let first = spec_update_dev_position(z1, lo, timestamp, allow_dev_creation);
            if first.1 != ExitCode::Okay {
                first
            } else {
                spec_update_dev_position(first.0, hi, timestamp, allow_dev_creation)
            }
        },
        None => {
            (
                ZoneV {
                    id: z.id,
                    strategy: z.strategy,
                    devices: z.devices,
                    measures: z.measures + seq![
                        spec_list_new(lo, hi, timestamp, distance as int),
                    ],
                },
                ExitCode::Okay,
            )
        },
    }
}

/// One estimation domain: the exclusive owner of its device registry and
/// measurement store.
pub struct Zone {
    pub id: u32,
    strategy: LaterationTypes,
    measures: Vec<measure::List>,
    devices: Vec<device::Data>,
}

impl View for Zone {
    type V = ZoneV;

    closed spec fn view(&self) -> ZoneV {
        ZoneV {
            id: self.id,
            strategy: self.strategy,
            devices: self.devices@.map_values(|d: device::Data| d@),
            measures: self.measures@.map_values(|l: measure::List| l@),
        }
    }
}

impl Zone {
    pub closed spec fn wf(&self) -> bool {
        &&& forall|i: int| 0 <= i < self.devices@.len() ==> (#[trigger] self.devices@[i]).wf()
        &&& forall|i: int| 0 <= i < self.measures@.len() ==> (#[trigger] self.measures@[i]).wf()
        &&& zone_v_wf(self@)
    }

    /// The zone invariant holds of the view of every well-formed zone.
    pub proof fn lemma_wf_view(&self)
        requires
            self.wf(),
        ensures
            zone_v_wf(self@),
    {
    }

    pub fn new(id: u32) -> (z: Zone)
        ensures
            z.wf(),
            z@ == (ZoneV {
                id,
                strategy: LaterationTypes::GeoN,
                devices: Seq::<DataV>::empty(),
                measures: Seq::<ListV>::empty(),
            }),
    {
        let z = Zone {
            id,
            strategy: LaterationTypes::GeoN,
            measures: Vec::new(),
            devices: Vec::new(),
        };
        proof {
            assert(z@ =~= (ZoneV {
                id,
                strategy: LaterationTypes::GeoN,
                devices: Seq::<DataV>::empty(),
                measures: Seq::<ListV>::empty(),
            }));
        }
        z
    }

    /// A zone driven by an explicitly selected strategy.
    pub fn new_with_strategy(id: u32, strategy: LaterationTypes) -> (z: Zone)
        ensures
            z.wf(),
            z@ == (ZoneV {
                id,
                strategy,
                devices: Seq::<DataV>::empty(),
                measures: Seq::<ListV>::empty(),
            }),
    {
        let z = Zone { id, strategy, measures: Vec::new(), devices: Vec::new() };
        proof {
            assert(z@ =~= (ZoneV {
                id,
                strategy,
                devices: Seq::<DataV>::empty(),
                measures: Seq::<ListV>::empty(),
            }));
        }
        z
    }

    /// The first registry index holding the id.
    fn find_device_index(&self, id: DevId) -> (r: Option<usize>)
        ensures
            (match r {
                Some(k) => k < self@.devices.len() && find_dev(self@.devices, id) == Some(k as int),
                None => find_dev(self@.devices, id) is None,
            }),
    {
        let n = self.devices.len();
        let mut i: usize = 0;
        while i < n
            invariant
                i <= n,
                n == self@.devices.len(),
                forall|j: int| 0 <= j < i ==> (#[trigger] self@.devices[j]).id != id,
            decreases n - i,
        {
            let d = &self.devices[i];
            if d.id() == id {
                proof {
                    lemma_find_dev(self@.devices, id);
                    match find_dev(self@.devices, id) {
                        Some(k) => {
                            if k < i {
                                assert(self@.devices[k].id != id);
                            }
                            if k > i {
                                assert(self@.devices[i as int].id != id);
                            }
                        },
                        None => {
                            assert(self@.devices[i as int].id != id);
                        },
                    }
                }
                return Some(i);
            }
            i += 1;
        }
        proof {
            lemma_find_dev(self@.devices, id);
            match find_dev(self@.devices, id) {
                Some(k) => {
                    assert(self@.devices[k].id != id);
                },
                None => {},
            }
        }
        None
    }

    /// The first store index holding the canonical pair.
    fn find_measure_index(&self, lo: DevId, hi: DevId) -> (r: Option<usize>)
        ensures
            (match r {
                Some(k) => k < self@.measures.len() && find_pair(self@.measures, lo, hi) == Some(
                    k as int,
                ),
                None => find_pair(self@.measures, lo, hi) is None,
            }),
    {
        let n = self.measures.len();
        let mut i: usize = 0;
        while i < n
            invariant
                i <= n,
                n == self@.measures.len(),
                forall|j: int|
                    0 <= j < i ==> !((#[trigger] self@.measures[j]).lo == lo
                        && self@.measures[j].hi == hi),
            decreases n - i,
        {
            let l = &self.measures[i];
            if l.id(0) == lo && l.id(1) == hi {
                proof {
                    lemma_find_pair(self@.measures, lo, hi);
                    match find_pair(self@.measures, lo, hi) {
                        Some(k) => {
                            if k < i {
                                assert(!(self@.measures[k].lo == lo && self@.measures[k].hi
                                    == hi));
                            }
                            if k > i {
                                assert(!(self@.measures[i as int].lo == lo
                                    && self@.measures[i as int].hi == hi));
                            }
                        },
                        None => {
                            assert(!(self@.measures[i as int].lo == lo && self@.measures[i as int].hi
                                == hi));
                        },
                    }
                }
                return Some(i);
            }
            i += 1;
        }
        proof {
            lemma_find_pair(self@.measures, lo, hi);
            match find_pair(self@.measures, lo, hi) {
                Some(k) => {
                    assert(!(self@.measures[k].lo == lo && self@.measures[k].hi == hi));
                },
                None => {},
            }
        }
        None
    }

    /// Registers a device with its initial position; a duplicate id is a
    /// non-fatal, caller-visible condition that changes nothing.
    pub fn add_device(&mut self, id: DevId, pos: [i32; 3]) -> (r: ExitCode)
        requires
            old(self).wf(),
        ensures
            final(self).wf(),
            (final(self)@, r) == spec_add_device(
                old(self)@,
                id,
                (Coords { x: pos[0], y: pos[1], z: pos[2] }),
            ),
    {
        match self.find_device_index(id) {
            Some(_) => ExitCode::AlreadyExist,
            None => {
                let dev = device::Data::new_with_pos(id, pos);
                self.devices.push(dev);
                proof {
                    lemma_find_dev(old(self)@.devices, id);
                    assert(final(self)@.devices =~= old(self)@.devices + seq![
                        seed_dev(id, Coords { x: pos[0], y: pos[1], z: pos[2] }),
                    ]);
                    assert(final(self)@ =~= spec_add_device(
                        old(self)@,
                        id,
                        Coords { x: pos[0], y: pos[1], z: pos[2] },
                    ).0);
                }
                ExitCode::Okay
            },
        }
    }

    /// Gathers the circles anchoring the device at `dev_index` and runs
    /// the zone's strategy on them.
    fn calc_dev_position(&self, dev_index: usize, timestamp: Timestamp) -> (t: Trace)
        requires
            self.wf(),
            dev_index < self@.devices.len(),
        ensures
            t == spec_calc_trace(self@, dev_index as int, timestamp),
    {
        let dev = &self.devices[dev_index];
        let did = dev.id();
        let mut circles: Vec<Circle> = Vec::new();
        let n = self.measures.len();
        let mut i: usize = 0;
        while i < n
            invariant
                i <= n,
                self.wf(),
                dev_index < self@.devices.len(),
                n == self@.measures.len(),
                did == self@.devices[dev_index as int].id,
                circles@ == circles_upto(self@, did, i as int),
            decreases n - i,
        {
            let l = &self.measures[i];
            let lo = l.id(0);
            let hi = l.id(1);
            if lo == did || hi == did {
                let other = if lo == did {
                    hi
                } else {
                    lo
                };
                match self.find_device_index(other) {
                    Some(k) => {
                        let p = self.devices[k].estimate_position(timestamp);
                        let r = l.estimate(timestamp);
                        circles.push(Circle { x: p.coords.x, y: p.coords.y, r });
                    },
                    None => {},
                }
            }
            i += 1;
        }
        proof {
            assert(circles@ == circles_of(self@, did));
            assert(circles_wf(circles@)) by {
                assert forall|k: int| 0 <= k < circles@.len() implies
                    lateration::circle_wf(#[trigger] circles@[k]) by {
                    Zone::lemma_circles_upto_wf(self@, did, n as int);
                }
            }
        }
        self.devices[dev_index].calc_position(self.strategy, &circles, timestamp)
    }

    /// Every circle gathered from a well-formed zone carries an in-range
    /// radius.
    proof fn lemma_circles_upto_wf(z: ZoneV, did: DevId, n: int)
        requires
            zone_v_wf(z),
            n <= z.measures.len(),
        ensures
            circles_wf(circles_upto(z, did, n)),
        decreases n,
    {
        if n > 0 {
            Zone::lemma_circles_upto_wf(z, did, n - 1);
        }
    }

    /// Re-estimates and saves one device's position; an unknown id is
    /// seeded first when creation is allowed, otherwise reported with the
    /// zone unchanged.
    pub fn update_dev_position(
        &mut self,
        id: DevId,
        timestamp: Timestamp,
        allow_dev_creation: bool,
    ) -> (r: ExitCode)
        requires
            old(self).wf(),
        ensures
            final(self).wf(),
            (final(self)@, r) == spec_update_dev_position(
                old(self)@,
                id,
                timestamp,
                allow_dev_creation,
            ),
    {
        let dev_index: usize = match self.find_device_index(id) {
            Some(idx) => idx,
            None => {
                if allow_dev_creation {
                    let ret = self.add_device(id, [0, 0, 0]);
                    if ret != ExitCode::Okay {
                        return ret;
                    }
                    proof {
                        assert(self@.devices.len() == old(self)@.devices.len() + 1);
                        assert(self.devices@.len() == self@.devices.len());
                    }
                    self.devices.len() - 1
                } else {
                    return ExitCode::UnknownDevice;
                }
            },
        };
        let pos = self.calc_dev_position(dev_index, timestamp);
        let mut d = self.devices.remove(dev_index);
        d.save_position(pos);
        self.devices.insert(dev_index, d);
        proof {
            let zmid = if find_dev(old(self)@.devices, id) is Some {
                old(self)@
            } else {
                spec_add_device(old(self)@, id, Coords { x: 0, y: 0, z: 0 }).0
            };
            let k = dev_index as int;
            let t = spec_calc_trace(zmid, k, timestamp);
            let dv = zmid.devices[k];
            let d2 = DataV {
                id: dv.id,
                timestamp: dv.timestamp,
                scent: ring_push(dv.scent, POSITION_TRACE_DEPTH as nat, t),
            };
            assert(final(self)@.devices =~= zmid.devices.update(k, d2));
            assert(final(self)@ =~= (ZoneV {
                id: zmid.id,
                strategy: zmid.strategy,
                devices: zmid.devices.update(k, d2),
                measures: zmid.measures,
            }));
        }
        ExitCode::Okay
    }

    /// Records a pairwise distance measurement and re-estimates both
    /// devices of the pair; the pair is canonicalized, so the order of
    /// `id1` and `id2` does not matter.
    pub fn add_measure(
        &mut self,
        id1: DevId,
        id2: DevId,
        distance: i64,
        timestamp: Timestamp,
        allow_dev_creation: bool,
    ) -> (r: ExitCode)
        requires
            old(self).wf(),
            id1 != id2,
        ensures
            final(self).wf(),
            (final(self)@, r) == spec_add_measure(
                old(self)@,
                id1,
                id2,
                distance,
                timestamp,
                allow_dev_creation,
            ),
    {
        let lo: DevId = if id1 <= id2 {
            id1
        } else {
            id2
        };
        let hi: DevId = if id1 <= id2 {
            id2
        } else {
            id1
        };
        let meas = measure::Distance::new([lo, hi], timestamp, distance);
        let mi = self.find_measure_index(lo, hi);
        match mi {
            Some(m) => {
                let mut l = self.measures.remove(m);
                l.update(meas);
                self.measures.insert(m, l);
                proof {
                    assert(self@.measures =~= old(self)@.measures.update(
                        m as int,
                        spec_list_update(old(self)@.measures[m as int], timestamp, distance as int),
                    ));
                    assert(self@ =~= (ZoneV {
                        id: old(self)@.id,
                        strategy: old(self)@.strategy,
                        devices: old(self)@.devices,
                        measures: old(self)@.measures.update(
                            m as int,
                            spec_list_update(
                                old(self)@.measures[m as int],
                                timestamp,
                                distance as int,
                            ),
                        ),
                    }));
                }
                let r1 = self.update_dev_position(lo, timestamp, allow_dev_creation);
                if r1 != ExitCode::Okay {
                    return r1;
                }
                let r2 = self.update_dev_position(hi, timestamp, allow_dev_creation);
                if r2 != ExitCode::Okay {
                    return r2;
                }
                ExitCode::Okay
            },
            None => {
                let nl = measure::List::new(meas);
                self.measures.push(nl);
                proof {
                    lemma_find_pair(old(self)@.measures, lo, hi);
                    assert(pair_lo(lo, hi) == lo && pair_hi(lo, hi) == hi);
                    assert(final(self)@.measures =~= old(self)@.measures + seq![
                        spec_list_new(lo, hi, timestamp, distance as int),
                    ]);
                    assert(final(self)@ =~= spec_add_measure(
                        old(self)@,
                        id1,
                        id2,
                        distance,
                        timestamp,
                        allow_dev_creation,
                    ).0);
                }
                ExitCode::Okay
            },
        }
    }

    /// A borrow of the registered device, or nothing for an unknown id.
    pub fn get_device_ptr(&self, id: DevId) -> (r: Option<&device::Data>)
        requires
            self.wf(),
        ensures
            (match find_dev(self@.devices, id) {
                Some(k) => r matches Some(d) && d@ == self@.devices[k],
                None => r is None,
            }),
    {
        match self.find_device_index(id) {
            Some(k) => Some(&self.devices[k]),
            None => None,
        }
    }

    /// The device's description at the query timestamp, or nothing for
    /// an unknown id.
    pub fn get_dev_position(&self, id: DevId, timestamp: Timestamp) -> (r: Option<Description>)
        requires
            self.wf(),
        ensures
            (match find_dev(self@.devices, id) {
                Some(k) => r == Some(describe(self@.devices[k], timestamp)),
                None => r is None,
            }),
    {
        match self.find_device_index(id) {
            Some(k) => Some(Description::new(&self.devices[k], timestamp)),
            None => None,
        }
    }

    /// Descriptions of every registered device, in registration order,
    /// at the query timestamp; read-only.
    pub fn get_all_devices_position(&mut self, timestamp: Timestamp) -> (r: Vec<Description>)
        requires
            old(self).wf(),
        ensures
            *final(self) == *old(self),
            r@.len() == old(self)@.devices.len(),
            forall|i: int|
                0 <= i < r@.len() ==> r@[i] == describe(old(self)@.devices[i], timestamp),
    {
        let mut pos: Vec<Description> = Vec::new();
        let n = self.devices.len();
        let mut i: usize = 0;
        while i < n
            invariant
                i <= n,
                self.wf(),
                n == self@.devices.len(),
                pos@.len() == i,
                forall|j: int|
                    0 <= j < i ==> pos@[j] == describe(self@.devices[j], timestamp),
            decreases n - i,
        {
            let d = &self.devices[i];
            pos.push(Description::new(d, timestamp));
            i += 1;
        }
        pos
    }
}

/// Updating device ids never disturbs registration: a registry lookup
/// sees the same outcome after any one device's history changes.
proof fn lemma_find_dev_same_ids(devs1: Seq<DataV>, devs2: Seq<DataV>, id: DevId)
    requires
        devs1.len() == devs2.len(),
        forall|j: int| 0 <= j < devs1.len() ==> (#[trigger] devs1[j]).id == devs2[j].id,
    ensures
        (find_dev(devs1, id) is Some) == (find_dev(devs2, id) is Some),
{
    lemma_find_dev(devs1, id);
    lemma_find_dev(devs2, id);
    match find_dev(devs1, id) {
        Some(k) => {
            assert(devs2[k].id == id);
        },
        None => {},
    }
    match find_dev(devs2, id) {
        Some(k) => {
            assert(devs1[k].id == id);
        },
        None => {},
    }
}

/// Position updates never fail when device creation is allowed: an
/// unknown id is seeded instead of reported.
pub proof fn lemma_update_dev_position_ok_when_allowed(z: ZoneV, id: DevId, timestamp: Timestamp)
    ensures
        spec_update_dev_position(z, id, timestamp, true).1 == ExitCode::Okay,
{
}

/// Success is owed on known pairs: a measurement between two distinct
/// registered devices is recorded and reports `Ok`, with or without
/// device creation.
pub proof fn lemma_add_measure_ok_when_registered(
    z: ZoneV,
    id1: DevId,
    id2: DevId,
    distance: i64,
    timestamp: Timestamp,
    allow_dev_creation: bool,
)
    requires
        id1 != id2,
        find_dev(z.devices, id1) is Some,
        find_dev(z.devices, id2) is Some,
    ensures
        spec_add_measure(z, id1, id2, distance, timestamp, allow_dev_creation).1 == ExitCode::Okay,
{
    let lo = pair_lo(id1, id2);
    let hi = pair_hi(id1, id2);
    match find_pair(z.measures, lo, hi) {
        Some(m) => {
            let z1 = ZoneV {
                id: z.id,
                strategy: z.strategy,
                devices: z.devices,
                measures: z.measures.update(
                    m,
                    spec_list_update(z.measures[m], timestamp, distance as int),
                ),
            };
            let first = spec_update_dev_position(z1, lo, timestamp, allow_dev_creation);
            assert(find_dev(z1.devices, lo) is Some);
            lemma_find_dev(z1.devices, lo);
            let k = find_dev(z1.devices, lo).unwrap();
            assert(0 <= k < z1.devices.len());
            assert(first.0.devices.len() == z1.devices.len());
            assert(first.0.devices[k].id == z1.devices[k].id);
            assert(forall|j: int|
                0 <= j < z1.devices.len() && j != k ==> #[trigger] first.0.devices[j]
                    == z1.devices[j]);
            assert(forall|j: int|
                0 <= j < z1.devices.len() ==> (#[trigger] z1.devices[j]).id
                    == first.0.devices[j].id);
            lemma_find_dev_same_ids(z1.devices, first.0.devices, hi);
            assert(find_dev(first.0.devices, hi) is Some);
        },
        None => {},
    }
}

/// Duplicate-registration law: registering a fresh id reports `Ok`, and
/// registering the same id again reports `AlreadyExist` and leaves the
/// zone exactly as it was after the first registration.
pub proof fn lemma_add_device_idempotent(z: ZoneV, id: DevId, c: Coords)
    requires
        find_dev(z.devices, id) is None,
    ensures
        spec_add_device(z, id, c).1 == ExitCode::Okay,
        spec_add_device(spec_add_device(z, id, c).0, id, c).0 == spec_add_device(z, id, c).0,
        spec_add_device(spec_add_device(z, id, c).0, id, c).1 == ExitCode::AlreadyExist,
{
    let z1 = spec_add_device(z, id, c).0;
    lemma_find_dev(z1.devices, id);
    if find_dev(z1.devices, id) is None {
        assert(z1.devices[z1.devices.len() - 1].id == id);
        assert(false);
    }
}

/// Pair-canonicalization law at the zone level: a measurement between
/// `a` and `b` drives the zone to the same state and outcome whichever
/// order the pair arrives in.
pub proof fn lemma_add_measure_symmetric(
    z: ZoneV,
    a: DevId,
    b: DevId,
    distance: i64,
    timestamp: Timestamp,
    allow_dev_creation: bool,
)
    requires
        a != b,
    ensures
        spec_add_measure(z, a, b, distance, timestamp, allow_dev_creation) == spec_add_measure(
            z,
            b,
            a,
            distance,
            timestamp,
            allow_dev_creation,
        ),
{
    measure::lemma_pair_canonical(a, b);
}

} // verus!
