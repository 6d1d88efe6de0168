//! Device registry entries: identity, bounded position history, and the
//! read-only descriptions handed to position queries.

use vstd::prelude::*;

use crate::lateration;
use crate::lateration::circles_wf;
use crate::lateration::Circle;
use crate::lateration::LaterationTypes;
use crate::utils::ring_push;
use crate::utils::Coords;
use crate::utils::DevId;
use crate::utils::Scent;
use crate::utils::Timestamp;
use crate::utils::Trace;

verus! {

/// Depth of each device's position history.
pub const POSITION_TRACE_DEPTH: usize = 3;

/// A read-only report of one device's position, stamped with the query
/// timestamp.
#[derive(Clone, Copy, Debug, PartialEq, Eq, Structural)]
pub struct Description {
    pub pos: Trace,
    pub id: DevId,
    pub timestamp: Timestamp,
}

/// The spec-level value of a registered device.
#[verifier::ext_equal]
pub struct DataV {
    pub id: DevId,
    pub scent: Seq<Trace>,
    pub timestamp: Timestamp,
}

/// A registered device: identity plus bounded position history, seeded
/// with one initial sample so that the newest position always exists.
pub struct Data {
    scent: Scent,
    id: DevId,
    timestamp: Timestamp,
}

impl View for Data {
    type V = DataV;

    closed spec fn view(&self) -> DataV {
        DataV { id: self.id, scent: self.scent@, timestamp: self.timestamp }
    }
}

/// What a position query reports for one device: its newest stored
/// position restamped with the query timestamp.
pub open spec fn describe(d: DataV, timestamp: Timestamp) -> Description {
    Description {
        id: d.id,
        pos: Trace { coords: d.scent[0].coords, timestamp },
        timestamp,
    }
}

impl Description {
    pub fn new(dev: &Data, timestamp: Timestamp) -> (r: Description)
        requires
            dev.wf(),
        ensures
            r == describe(dev@, timestamp),
    {
        Description {
            id: dev.id,
            pos: dev.estimate_position(timestamp),
            timestamp,
        }
    }

    pub fn id(&self) -> (r: DevId)
        ensures
            r == self.id,
    {
        self.id
    }
}

impl Data {
    pub open spec fn wf(&self) -> bool {
        &&& self.spec_scent_cap() == POSITION_TRACE_DEPTH
        &&& 1 <= self@.scent.len() <= POSITION_TRACE_DEPTH
    }

    pub closed spec fn spec_scent_cap(&self) -> nat {
        self.scent.spec_cap()
    }

    pub fn new(id: DevId) -> (d: Data)
        ensures
            d.wf(),
            d@.id == id,
            d@.scent == seq![Trace { coords: Coords::origin_spec(), timestamp: 0 }],
            d@.timestamp == 0,
    {
        Data::new_with_pos(id, [0, 0, 0])
    }

    pub fn id(&self) -> (r: DevId)
        ensures
            r == self@.id,
    {
        self.id
    }

    /// Registers the device with a known initial position as its seed
    /// sample, stamped with timestamp 0.
    pub fn new_with_pos(id: DevId, pos: [i32; 3]) -> (d: Data)
        ensures
            d.wf(),
            d@.id == id,
            d@.scent == seq![
                Trace {
                    coords: Coords { x: pos[0], y: pos[1], z: pos[2] },
                    timestamp: 0,
                },
            ],
            d@.timestamp == 0,
    {
        let seed = Trace {
            coords: Coords { x: pos[0], y: pos[1], z: pos[2] },
            timestamp: 0,
        };
        let mut scent = Scent::with_capacity(POSITION_TRACE_DEPTH);
        scent.add(seed);
        proof {
            assert(scent@ =~= seq![seed]);
        }
        Data { id, timestamp: 0, scent }
    }

    /// The newest stored position, restamped with the query timestamp.
    pub fn estimate_position(&self, timestamp: Timestamp) -> (t: Trace)
        requires
            self.wf(),
        ensures
            t == (Trace { coords: self@.scent[0].coords, timestamp }),
    {
        let newest = *self.scent.get(0).unwrap();
        Trace { coords: newest.coords, timestamp }
    }

    /// Estimates this device's next position: the chosen strategy
    /// applied to the neighbors' circles, falling back to the newest
    /// stored position when the geometry is insufficient.
    pub fn calc_position(
        &self,
        strategy: LaterationTypes,
        circles: &Vec<Circle>,
        timestamp: Timestamp,
    ) -> (t: Trace)
        requires
            self.wf(),
            circles_wf(circles@),
        ensures
            t == lateration::spec_calc_dev_position(
                strategy,
                circles@,
                (Trace { coords: self@.scent[0].coords, timestamp }),
                timestamp,
            ),
    {
        let last = self.estimate_position(timestamp);
        lateration::calc_dev_position(strategy, circles, &last, timestamp)
    }

    /// Appends a freshly estimated position, evicting the oldest sample
    /// when the history is at capacity.
    pub fn save_position(&mut self, pos: Trace)
        requires
            old(self).wf(),
        ensures
            final(self).wf(),
            final(self)@.id == old(self)@.id,
            final(self)@.timestamp == old(self)@.timestamp,
            final(self)@.scent == ring_push(
                old(self)@.scent,
                POSITION_TRACE_DEPTH as nat,
                pos,
            ),
    {
        self.scent.add(pos);
    }
}

} // verus!
