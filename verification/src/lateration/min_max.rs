//! Min-max bounding estimation: each neighbor's circle bounds the target
//! inside an axis-aligned box; the estimate is the center of the
//! intersection of all boxes.

use vstd::prelude::*;

use crate::arith::div_trunc;
use crate::arith::lemma_tdiv_magnitude;
use crate::arith::tdiv;
use crate::lateration::circles_wf;
use crate::lateration::geo_n::clamp_pt;
use crate::lateration::Circle;
use crate::utils::Coords;
use crate::utils::Timestamp;
use crate::utils::Trace;

verus! {

/// Largest lower x bound over the circles' boxes.
pub open spec fn lo_x(circles: Seq<Circle>) -> int
    decreases circles.len(),
{
    if circles.len() == 0 {
        0
    } else if circles.len() == 1 {
        circles[0].x - circles[0].r
    } else {
        let prev = lo_x(circles.drop_last());
        let cur = circles.last().x - circles.last().r;
        if cur > prev {
            cur
        } else {
            prev
        }
    }
}

/// Smallest upper x bound over the circles' boxes.
pub open spec fn hi_x(circles: Seq<Circle>) -> int
    decreases circles.len(),
{
    if circles.len() == 0 {
        0
    } else if circles.len() == 1 {
        circles[0].x + circles[0].r
    } else {
        let prev = hi_x(circles.drop_last());
        let cur = circles.last().x + circles.last().r;
        if cur < prev {
            cur
        } else {
            prev
        }
    }
}

/// Largest lower y bound over the circles' boxes.
pub open spec fn lo_y(circles: Seq<Circle>) -> int
    decreases circles.len(),
{
    if circles.len() == 0 {
        0
    } else if circles.len() == 1 {
        circles[0].y - circles[0].r
    } else {
        let prev = lo_y(circles.drop_last());
        let cur = circles.last().y - circles.last().r;
        if cur > prev {
            cur
        } else {
            prev
        }
    }
}

/// Smallest upper y bound over the circles' boxes.
pub open spec fn hi_y(circles: Seq<Circle>) -> int
    decreases circles.len(),
{
    if circles.len() == 0 {
        0
    } else if circles.len() == 1 {
        circles[0].y + circles[0].r
    } else {
        let prev = hi_y(circles.drop_last());
        let cur = circles.last().y + circles.last().r;
        if cur < prev {
            cur
        } else {
            prev
        }
    }
}

/// What this strategy reports: the center of the intersection of all
/// bounding boxes, or the last known position restamped when fewer than
/// two neighbors are usable.
pub open spec fn spec_calc_dev_position(
    circles: Seq<Circle>,
    last: Trace,
    timestamp: Timestamp,
) -> Trace {
    if circles.len() < 2 {
        Trace { coords: last.coords, timestamp }
    } else {
        Trace {
            coords: clamp_pt(
                tdiv(lo_x(circles) + hi_x(circles), 2),
                tdiv(lo_y(circles) + hi_y(circles), 2),
            ),
            timestamp,
        }
    }
}

/// Estimates a device position as the center of the intersection of the
/// neighbors' bounding boxes; falls back to the last known position,
/// restamped, when fewer than two neighbors are usable.
pub fn calc_dev_position(circles: &Vec<Circle>, last: &Trace, timestamp: Timestamp) -> (t: Trace)
    requires
        circles_wf(circles@),
    ensures
        t == spec_calc_dev_position(circles@, *last, timestamp),
{
    let n = circles.len();
    if n < 2 {
        return Trace { coords: last.coords, timestamp };
    }
    let c0 = circles[0];
    let mut lx: i64 = c0.x as i64 - c0.r;
    let mut hx: i64 = c0.x as i64 + c0.r;
    let mut ly: i64 = c0.y as i64 - c0.r;
    let mut hy: i64 = c0.y as i64 + c0.r;
    let mut i: usize = 1;
    proof {
        assert(circles@.take(1).len() == 1);
        assert(circles@.take(1)[0] == circles@[0]);
    }
    while i < n
        invariant
            1 <= i <= n,
            n == circles@.len(),
            circles_wf(circles@),
            lx == lo_x(circles@.take(i as int)),
            hx == hi_x(circles@.take(i as int)),
            ly == lo_y(circles@.take(i as int)),
            hy == hi_y(circles@.take(i as int)),
            -0x8000_0000 - 1_000_000_000 <= lx <= 0x8000_0000 + 1_000_000_000,
            -0x8000_0000 - 1_000_000_000 <= hx <= 0x8000_0000 + 1_000_000_000,
            -0x8000_0000 - 1_000_000_000 <= ly <= 0x8000_0000 + 1_000_000_000,
            -0x8000_0000 - 1_000_000_000 <= hy <= 0x8000_0000 + 1_000_000_000,
        decreases n - i,
    {
        let c = circles[i];
        let clx: i64 = c.x as i64 - c.r;
        let chx: i64 = c.x as i64 + c.r;
        let cly: i64 = c.y as i64 - c.r;
        let chy: i64 = c.y as i64 + c.r;
        if clx > lx {
            lx = clx;
        }
        if chx < hx {
            hx = chx;
        }
        if cly > ly {
            ly = cly;
        }
        if chy < hy {
            hy = chy;
        }
        i += 1;
        proof {
            assert(circles@.take(i as int).drop_last() =~= circles@.take(i as int - 1));
            assert(circles@.take(i as int).last() == circles@[i as int - 1]);
        }
    }
    proof {
        assert(circles@.take(n as int) =~= circles@);
        lemma_tdiv_magnitude(lx as int + hx as int, 2);
    }
    let x = div_trunc(lx as i128 + hx as i128, 2);
    let y = div_trunc(ly as i128 + hy as i128, 2);
    let c = Coords {
        x: crate::arith::clamp_to_i32(x),
        y: crate::arith::clamp_to_i32(y),
        z: 0,
    };
    Trace { coords: c, timestamp }
}

} // verus!
