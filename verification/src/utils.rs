//! Shared value types of the engine: device ids, timestamps, coordinates,
//! position samples, and the bounded most-recent-first position history.

use vstd::prelude::*;

verus! {

pub type DevId = u32;

pub type Timestamp = u32;

/// A position in the engine's integer length unit; the estimator works in
/// the x/y plane and keeps z wherever the current algorithm leaves it.
#[derive(Clone, Copy, Debug, PartialEq, Eq, Structural)]
pub struct Coords {
    pub x: i32,
    pub y: i32,
    pub z: i32,
}

impl Coords {
    /// The default seed position of a device registered without one.
    pub open spec fn origin_spec() -> Coords {
        Coords { x: 0, y: 0, z: 0 }
    }
}

/// One position sample at one instant.
#[derive(Clone, Copy, Debug, PartialEq, Eq, Structural)]
pub struct Trace {
    pub coords: Coords,
    pub timestamp: Timestamp,
}

/// One insertion into a bounded most-recent-first history: the new entry
/// goes to index 0 and the oldest entry is evicted when the history is full.
pub open spec fn ring_push<T>(s: Seq<T>, cap: nat, v: T) -> Seq<T>
    recommends
        cap >= 1,
        s.len() <= cap,
{
    if s.len() < cap {
        seq![v] + s
    } else {
        seq![v] + s.take(cap as int - 1)
    }
}

/// A whole run of insertions, oldest first.
pub open spec fn ring_push_all<T>(s: Seq<T>, cap: nat, vs: Seq<T>) -> Seq<T>
    decreases vs.len(),
{
    if vs.len() == 0 {
        s
    } else {
        ring_push_all(ring_push(s, cap, vs[0]), cap, vs.skip(1))
    }
}

/// Bounded-history law: however many entries are inserted into a history
/// within its capacity, the length never exceeds the capacity and index 0
/// always holds the most recently inserted entry.
pub proof fn lemma_ring_push_all_bounded<T>(s: Seq<T>, cap: nat, vs: Seq<T>)
    requires
        cap >= 1,
        s.len() <= cap,
        vs.len() >= 1,
    ensures
        ring_push_all(s, cap, vs).len() <= cap,
        ring_push_all(s, cap, vs)[0] == vs.last(),
    decreases vs.len(),
{
    let s1 = ring_push(s, cap, vs[0]);
    assert(s1.len() <= cap);
    if vs.len() == 1 {
        assert(ring_push_all(s1, cap, vs.skip(1)) == s1);
        assert(s1[0] == vs[0]);
    } else {
        lemma_ring_push_all_bounded(s1, cap, vs.skip(1));
        assert(vs.skip(1).last() == vs.last());
    }
}

/// Bounded position history, most recent sample first.
pub struct Scent {
    traces: Vec<Trace>,
    cap: usize,
}

impl View for Scent {
    type V = Seq<Trace>;

    closed spec fn view(&self) -> Seq<Trace> {
        self.traces@
    }
}

impl Scent {
    pub closed spec fn spec_cap(&self) -> nat {
        self.cap as nat
    }

    pub open spec fn wf(&self) -> bool {
        self.spec_cap() >= 1 && self@.len() <= self.spec_cap()
    }

    pub fn new() -> (s: Scent)
        ensures
            s.wf(),
            s@ == Seq::<Trace>::empty(),
            s.spec_cap() == 10,
    {
        Scent { traces: Vec::new(), cap: 10 }
    }

    pub fn with_capacity(cap: usize) -> (s: Scent)
        requires
            cap >= 1,
        ensures
            s.wf(),
            s@ == Seq::<Trace>::empty(),
            s.spec_cap() == cap,
    {
        Scent { traces: Vec::new(), cap }
    }

    pub fn len(&self) -> (n: usize)
        ensures
            n == self@.len(),
    {
        self.traces.len()
    }

    /// Inserts the newest sample at index 0, evicting the oldest sample
    /// when the history is at capacity.
    pub fn add(&mut self, trace: Trace)
        requires
            old(self).wf(),
        ensures
            final(self).wf(),
            final(self).spec_cap() == old(self).spec_cap(),
            final(self)@ == ring_push(old(self)@, old(self).spec_cap(), trace),
    {
        if self.traces.len() == self.cap {
            self.traces.truncate(self.cap - 1);
            proof {
                assert(self.traces@ == old(self)@.take(self.cap as int - 1));
            }
        }
        self.traces.insert(0, trace);
        proof {
            assert(final(self)@ =~= ring_push(old(self)@, old(self).spec_cap(), trace));
        }
    }

    pub fn get(&self, how_old: usize) -> (t: Option<&Trace>)
        ensures
            match t {
                Some(t) => how_old < self@.len() && *t == self@[how_old as int],
                None => how_old >= self@.len(),
            },
    {
        if how_old < self.traces.len() {
            Some(&self.traces[how_old])
        } else {
            None
        }
    }
}

} // verus!
