//! Pluggable position-estimation strategies and their common entry point.

pub mod geo_n;
pub mod min_max;

use vstd::prelude::*;

use crate::measure::DIST_LIMIT;
use crate::utils::Timestamp;
use crate::utils::Trace;

verus! {

/// One distance constraint for the estimator: a neighbor's newest
/// position in the plane and the current distance estimate to it.
#[derive(Clone, Copy, Debug, PartialEq, Eq, Structural)]
pub struct Circle {
    pub x: i32,
    pub y: i32,
    pub r: i64,
}

/// Radii the engine stores are always clamped into the distance range.
pub open spec fn circle_wf(c: Circle) -> bool {
    -DIST_LIMIT <= c.r <= DIST_LIMIT
}

pub open spec fn circles_wf(cs: Seq<Circle>) -> bool {
    forall|i: int| 0 <= i < cs.len() ==> circle_wf(#[trigger] cs[i])
}

/// The selectable estimation algorithms: geometric multilateration by
/// pairwise circle intersection, or the coarser axis-aligned min-max
/// bounding method.
#[derive(Clone, Copy, Debug, PartialEq, Eq, Structural)]
pub enum LaterationTypes {
    GeoN,
    MinMax,
}

/// The position a strategy reports: the centroid construction for
/// `GeoN`, the bounding-box construction for `MinMax`, and in either
/// case the last known position restamped when fewer than two usable
/// neighbors are available.
pub open spec fn spec_calc_dev_position(
    strategy: LaterationTypes,
    circles: Seq<Circle>,
    last: Trace,
    timestamp: Timestamp,
) -> Trace {
    match strategy {
        LaterationTypes::GeoN => geo_n::spec_calc_dev_position(circles, last, timestamp),
        LaterationTypes::MinMax => min_max::spec_calc_dev_position(circles, last, timestamp),
    }
}

/// Common strategy signature: one call per position estimate.
pub fn calc_dev_position(
    strategy: LaterationTypes,
    circles: &Vec<Circle>,
    last: &Trace,
    timestamp: Timestamp,
) -> (t: Trace)
    requires
        circles_wf(circles@),
    ensures
        t == spec_calc_dev_position(strategy, circles@, *last, timestamp),
{
    match strategy {
        LaterationTypes::GeoN => geo_n::calc_dev_position(circles, last, timestamp),
        LaterationTypes::MinMax => min_max::calc_dev_position(circles, last, timestamp),
    }
}

/// Character-wise string comparison.
fn str_eq(a: &str, b: &str) -> (r: bool)
    ensures
        r == (a@ == b@),
{
    let an = a.unicode_len();
    let bn = b.unicode_len();
    if an != bn {
        return false;
    }
    let mut i: usize = 0;
    while i < an
        invariant
            an == a@.len(),
            an == b@.len(),
            i <= an,
            forall|j: int| 0 <= j < i ==> a@[j] == b@[j],
        decreases an - i,
    {
        if a.get_char(i) != b.get_char(i) {
            return false;
        }
        i += 1;
    }
    proof {
        assert(a@ =~= b@);
    }
    true
}

/// The algorithm registered under a configuration name.
pub open spec fn spec_strategy_by_name(name: Seq<char>) -> Option<LaterationTypes> {
    if name == "geo_n"@ {
        Some(LaterationTypes::GeoN)
    } else if name == "min_max"@ {
        Some(LaterationTypes::MinMax)
    } else {
        None
    }
}

pub struct LaterationFactory {}

impl LaterationFactory {
    /// Looks a strategy up by its configuration name; an unknown name is
    /// a fatal configuration error, reported to the caller as `None`.
    pub fn get(algorithm: &str) -> (r: Option<LaterationTypes>)
        ensures
            r == spec_strategy_by_name(algorithm@),
    {
        if str_eq(algorithm, "geo_n") {
            Some(LaterationTypes::GeoN)
        } else if str_eq(algorithm, "min_max") {
            Some(LaterationTypes::MinMax)
        } else {
            None
        }
    }
}

} // verus!
