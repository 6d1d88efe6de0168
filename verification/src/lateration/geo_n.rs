//! Geometric multilateration: pairwise circle-intersection candidates and
//! their centroid.

use vstd::prelude::*;

use crate::arith::clamp_spec;
use crate::arith::clamp_to_i32;
use crate::arith::div_trunc;
use crate::arith::isqrt;
use crate::arith::lemma_mul_bound;
use crate::arith::lemma_tdiv_cancel;
use crate::arith::lemma_tdiv_magnitude;
use crate::arith::lemma_tdiv_range;
use crate::arith::sqrt_floor;
use crate::arith::tdiv;
use crate::lateration::circles_wf;
use crate::lateration::Circle;
use crate::measure::DIST_LIMIT;
use crate::utils::Coords;
use crate::utils::Timestamp;
use crate::utils::Trace;

verus! {

/// A candidate point, clamped into the coordinate range so that no
/// far-out intersection can push invalid values into stored state.
pub open spec fn clamp_pt(x: int, y: int) -> Coords {
    Coords {
        x: clamp_spec(x, i32::MIN as int, i32::MAX as int) as i32,
        y: clamp_spec(y, i32::MIN as int, i32::MAX as int) as i32,
        z: 0,
    }
}

/// The candidate points one pair of circles contributes.
///
/// Coincident centers are a degenerate pair and contribute nothing; a
/// circle containing the other or two separated circles contribute the
/// midpoint construction shifted along the center line; properly
/// intersecting circles contribute the two triangle-construction points,
/// collapsed to one when the perpendicular offset vanishes (tangency).
pub open spec fn cross_candidates(c1: Circle, c2: Circle) -> Seq<Coords> {
    let dx = c2.x - c1.x;
    let dy = c2.y - c1.y;
    let l2 = dx * dx + dy * dy;
    let rsum = c1.r + c2.r;
    let rdiff = c2.r - c1.r;
    if l2 == 0 {
        Seq::<Coords>::empty()
    } else if l2 <= rdiff * rdiff {
        let ll = sqrt_floor(l2 as nat) as int;
        seq![
            clamp_pt(
                tdiv((c1.x + c2.x) * ll - dx * rsum, 2 * ll),
                tdiv((c1.y + c2.y) * ll - dy * rsum, 2 * ll),
            ),
        ]
    } else if rsum * rsum < l2 {
        let ll = sqrt_floor(l2 as nat) as int;
        seq![
            clamp_pt(
                tdiv((c1.x + c2.x) * ll - dx * rdiff, 2 * ll),
                tdiv((c1.y + c2.y) * ll - dy * rdiff, 2 * ll),
            ),
        ]
    } else {
        let kk = (rsum * rsum - l2) * (l2 - rdiff * rdiff);
        let s = sqrt_floor(kk as nat) as int;
        let rrd = c1.r * c1.r - c2.r * c2.r;
        let xm = tdiv((c1.x + c2.x) * l2 + dx * rrd, 2 * l2);
        let ym = tdiv((c1.y + c2.y) * l2 + dy * rrd, 2 * l2);
        let ox = tdiv(dy * s, 2 * l2);
        let oy = tdiv(dx * s, 2 * l2);
        if ox == 0 && oy == 0 {
            seq![clamp_pt(xm, ym)]
        } else {
            seq![clamp_pt(xm + ox, ym - oy), clamp_pt(xm - ox, ym + oy)]
        }
    }
}

/// Sum of the x components.
pub open spec fn sum_x(pts: Seq<Coords>) -> int
    decreases pts.len(),
{
    if pts.len() == 0 {
        0
    } else {
        sum_x(pts.drop_last()) + pts.last().x
    }
}

/// Sum of the y components.
pub open spec fn sum_y(pts: Seq<Coords>) -> int
    decreases pts.len(),
{
    if pts.len() == 0 {
        0
    } else {
        sum_y(pts.drop_last()) + pts.last().y
    }
}

/// Sum of the z components.
pub open spec fn sum_z(pts: Seq<Coords>) -> int
    decreases pts.len(),
{
    if pts.len() == 0 {
        0
    } else {
        sum_z(pts.drop_last()) + pts.last().z
    }
}

/// The arithmetic centroid of the candidate points, or nothing when
/// there is no candidate (the division-by-zero guard).
pub open spec fn spec_centroid(pts: Seq<Coords>) -> Option<Coords> {
    if pts.len() == 0 {
        None
    } else {
        let n = pts.len() as int;
        Some(
            Coords {
                x: tdiv(sum_x(pts), n) as i32,
                y: tdiv(sum_y(pts), n) as i32,
                z: tdiv(sum_z(pts), n) as i32,
            },
        )
    }
}

/// Candidates of circle `i` paired with each of the first `j` circles.
pub open spec fn row_candidates(circles: Seq<Circle>, i: int, j: int) -> Seq<Coords>
    decreases j,
{
    if j <= 0 {
        Seq::<Coords>::empty()
    } else {
        row_candidates(circles, i, j - 1) + cross_candidates(circles[i], circles[j - 1])
    }
}

/// Candidates of every unordered pair among the first `i` circles.
pub open spec fn upto_candidates(circles: Seq<Circle>, i: int) -> Seq<Coords>
    decreases i,
{
    if i <= 0 {
        Seq::<Coords>::empty()
    } else {
        upto_candidates(circles, i - 1) + row_candidates(circles, i - 1, i - 1)
    }
}

/// Candidates of every unordered pair of circles.
pub open spec fn all_candidates(circles: Seq<Circle>) -> Seq<Coords> {
    upto_candidates(circles, circles.len() as int)
}

/// What this strategy reports: the centroid of all pair candidates, or
/// the last known position restamped when fewer than two neighbors are
/// usable or every pair is degenerate.
pub open spec fn spec_calc_dev_position(
    circles: Seq<Circle>,
    last: Trace,
    timestamp: Timestamp,
) -> Trace {
    if circles.len() < 2 {
        Trace { coords: last.coords, timestamp }
    } else {
        match spec_centroid(all_candidates(circles)) {
            Some(c) => Trace { coords: c, timestamp },
            None => Trace { coords: last.coords, timestamp },
        }
    }
}

fn clamp_pt_exec(x: i128, y: i128) -> (c: Coords)
    ensures
        c == clamp_pt(x as int, y as int),
{
    Coords { x: clamp_to_i32(x), y: clamp_to_i32(y), z: 0 }
}

/// Accumulates intersection candidates from circle pairs.
pub struct CrossPoints {
    points: Vec<Coords>,
}

impl View for CrossPoints {
    type V = Seq<Coords>;

    closed spec fn view(&self) -> Seq<Coords> {
        self.points@
    }
}

impl CrossPoints {
    pub fn create() -> (c: CrossPoints)
        ensures
            c@ == Seq::<Coords>::empty(),
    {
        CrossPoints { points: Vec::new() }
    }

    /// Adds the candidate points of one pair of circles.
    pub fn add_cross_2d(&mut self, p1: &Coords, r1: i64, p2: &Coords, r2: i64)
        requires
            -DIST_LIMIT <= r1 <= DIST_LIMIT,
            -DIST_LIMIT <= r2 <= DIST_LIMIT,
        ensures
            final(self)@ == old(self)@ + cross_candidates(
                (Circle { x: p1.x, y: p1.y, r: r1 }),
                (Circle { x: p2.x, y: p2.y, r: r2 }),
            ),
    {
        let ghost c1 = Circle { x: p1.x, y: p1.y, r: r1 };
        let ghost c2 = Circle { x: p2.x, y: p2.y, r: r2 };
        let dx: i128 = p2.x as i128 - p1.x as i128;
        let dy: i128 = p2.y as i128 - p1.y as i128;
        proof {
            lemma_mul_bound(dx as int, dx as int, 0x1_0000_0000, 0x1_0000_0000);
            lemma_mul_bound(dy as int, dy as int, 0x1_0000_0000, 0x1_0000_0000);
            assert(dx as int * dx as int >= 0) by (nonlinear_arith);
            assert(dy as int * dy as int >= 0) by (nonlinear_arith);
        }
        let l2: i128 = dx * dx + dy * dy;
        if l2 == 0 {
            proof {
                assert(old(self)@ + cross_candidates(c1, c2) =~= old(self)@);
            }
            return ;
        }
        let rsum: i128 = r1 as i128 + r2 as i128;
        let rdiff: i128 = r2 as i128 - r1 as i128;
        proof {
            lemma_mul_bound(rdiff as int, rdiff as int, 2_000_000_000, 2_000_000_000);
            lemma_mul_bound(rsum as int, rsum as int, 2_000_000_000, 2_000_000_000);
            assert(rdiff as int * rdiff as int >= 0) by (nonlinear_arith);
            assert(rsum as int * rsum as int >= 0) by (nonlinear_arith);
        }
        let rd2: i128 = rdiff * rdiff;
        let rs2: i128 = rsum * rsum;
        let sx: i128 = p1.x as i128 + p2.x as i128;
        let sy: i128 = p1.y as i128 + p2.y as i128;
        if l2 <= rd2 || rs2 < l2 {
            // One circle contains the other, or they are separated: one
            // candidate on the center line.
            let lu: u128 = isqrt(l2 as u128);
            proof {
                assert(lu as int <= 0x2_0000_0000) by (nonlinear_arith)
                    requires
                        lu as int * lu as int <= 0x2_0000_0000_0000_0000,
                        lu >= 0,
                ;
                assert(lu as int >= 1) by (nonlinear_arith)
                    requires
                        (lu as int + 1) * (lu as int + 1) > l2 as int,
                        l2 >= 1,
                        lu >= 0,
                ;
            }
            let ll: i128 = lu as i128;
            let shift: i128 = if l2 <= rd2 {
                rsum
            } else {
                rdiff
            };
            proof {
                lemma_mul_bound(sx as int, ll as int, 0x1_0000_0000, 0x2_0000_0000);
                lemma_mul_bound(sy as int, ll as int, 0x1_0000_0000, 0x2_0000_0000);
                lemma_mul_bound(dx as int, shift as int, 0x1_0000_0000, 2_000_000_000);
                lemma_mul_bound(dy as int, shift as int, 0x1_0000_0000, 2_000_000_000);
            }
            let numx: i128 = sx * ll - dx * shift;
            let numy: i128 = sy * ll - dy * shift;
            let x = div_trunc(numx, 2 * ll);
            let y = div_trunc(numy, 2 * ll);
            self.points.push(clamp_pt_exec(x, y));
            proof {
                assert(final(self)@ =~= old(self)@ + cross_candidates(c1, c2));
            }
        } else {
            // The circles intersect (or touch): triangle construction.
            let f1: i128 = rs2 - l2;
            let f2: i128 = l2 - rd2;
            proof {
                lemma_mul_bound(
                    f1 as int,
                    f2 as int,
                    4_000_000_000_000_000_000,
                    4_000_000_000_000_000_000,
                );
                assert(f1 as int * f2 as int >= 0) by (nonlinear_arith)
                    requires
                        f1 >= 0,
                        f2 >= 0,
                ;
            }
            let kk: i128 = f1 * f2;
            let su: u128 = isqrt(kk as u128);
            proof {
                assert(su as int <= 4_000_000_000_000_000_000) by (nonlinear_arith)
                    requires
                        su as int * su as int <= kk as int,
                        kk as int <= 16_000_000_000_000_000_000_000_000_000_000_000_000,
                        su >= 0,
                ;
            }
            let s: i128 = su as i128;
            proof {
                lemma_mul_bound(r1 as int, r1 as int, 1_000_000_000, 1_000_000_000);
                lemma_mul_bound(r2 as int, r2 as int, 1_000_000_000, 1_000_000_000);
            }
            let rrd: i128 = r1 as i128 * r1 as i128 - r2 as i128 * r2 as i128;
            proof {
                lemma_mul_bound(sx as int, l2 as int, 0x1_0000_0000, 4_000_000_000_000_000_000);
                lemma_mul_bound(sy as int, l2 as int, 0x1_0000_0000, 4_000_000_000_000_000_000);
                lemma_mul_bound(dx as int, rrd as int, 0x1_0000_0000, 2_000_000_000_000_000_000);
                lemma_mul_bound(dy as int, rrd as int, 0x1_0000_0000, 2_000_000_000_000_000_000);
                lemma_mul_bound(dy as int, s as int, 0x1_0000_0000, 4_000_000_000_000_000_000);
                lemma_mul_bound(dx as int, s as int, 0x1_0000_0000, 4_000_000_000_000_000_000);
            }
            let numx: i128 = sx * l2 + dx * rrd;
            let numy: i128 = sy * l2 + dy * rrd;
            let xm = div_trunc(numx, 2 * l2);
            let ym = div_trunc(numy, 2 * l2);
            let ox = div_trunc(dy * s, 2 * l2);
            let oy = div_trunc(dx * s, 2 * l2);
            proof {
                lemma_tdiv_magnitude(numx as int, 2 * l2 as int);
                lemma_tdiv_magnitude(numy as int, 2 * l2 as int);
                lemma_tdiv_magnitude(dy as int * s as int, 2 * l2 as int);
                lemma_tdiv_magnitude(dx as int * s as int, 2 * l2 as int);
            }
            if ox == 0 && oy == 0 {
                self.points.push(clamp_pt_exec(xm, ym));
            } else {
                self.points.push(clamp_pt_exec(xm + ox, ym - oy));
                self.points.push(clamp_pt_exec(xm - ox, ym + oy));
            }
            proof {
                assert(final(self)@ =~= old(self)@ + cross_candidates(c1, c2));
            }
        }
    }

    /// The arithmetic centroid of the accumulated candidates, or nothing
    /// when there is none (guarding the division by the count).
    pub fn centroid(&self) -> (r: Option<Coords>)
        ensures
            r == spec_centroid(self@),
    {
        let n = self.points.len();
        if n == 0 {
            return None;
        }
        let mut sx: i128 = 0;
        let mut sy: i128 = 0;
        let mut sz: i128 = 0;
        let mut i: usize = 0;
        while i < n
            invariant
                i <= n,
                n == self@.len(),
                n <= usize::MAX,
                sx == sum_x(self@.take(i as int)),
                sy == sum_y(self@.take(i as int)),
                sz == sum_z(self@.take(i as int)),
                -(i as int * 0x8000_0000) <= sx <= i as int * 0x7FFF_FFFF,
                -(i as int * 0x8000_0000) <= sy <= i as int * 0x7FFF_FFFF,
                -(i as int * 0x8000_0000) <= sz <= i as int * 0x7FFF_FFFF,
            decreases n - i,
        {
            let p = self.points[i];
            sx = sx + p.x as i128;
            sy = sy + p.y as i128;
            sz = sz + p.z as i128;
            i += 1;
            proof {
                assert(self@.take(i as int).drop_last() =~= self@.take(i as int - 1));
                assert(self@.take(i as int).last() == self@[i as int - 1]);
            }
        }
        proof {
            assert(self@.take(n as int) =~= self@);
            lemma_tdiv_range(sx as int, n as int, -0x8000_0000, 0x7FFF_FFFF);
            lemma_tdiv_range(sy as int, n as int, -0x8000_0000, 0x7FFF_FFFF);
            lemma_tdiv_range(sz as int, n as int, -0x8000_0000, 0x7FFF_FFFF);
        }
        let qx = div_trunc(sx, n as i128);
        let qy = div_trunc(sy, n as i128);
        let qz = div_trunc(sz, n as i128);
        Some(Coords { x: qx as i32, y: qy as i32, z: qz as i32 })
    }
}

/// Estimates a device position by pairwise circle intersection and
/// centroid averaging; falls back to the last known position, restamped,
/// when the geometry is insufficient.
pub fn calc_dev_position(circles: &Vec<Circle>, last: &Trace, timestamp: Timestamp) -> (t: Trace)
    requires
        circles_wf(circles@),
    ensures
        t == spec_calc_dev_position(circles@, *last, timestamp),
{
    if circles.len() < 2 {
        return Trace { coords: last.coords, timestamp };
    }
    let mut ip = CrossPoints::create();
    let n = circles.len();
    let mut i: usize = 0;
    while i < n
        invariant
            i <= n,
            n == circles@.len(),
            circles_wf(circles@),
            ip@ == upto_candidates(circles@, i as int),
        decreases n - i,
    {
        let mut j: usize = 0;
        while j < i
            invariant
                j <= i < n,
                n == circles@.len(),
                circles_wf(circles@),
                ip@ == upto_candidates(circles@, i as int) + row_candidates(
                    circles@,
                    i as int,
                    j as int,
                ),
            decreases i - j,
        {
            let ci = circles[i];
            let cj = circles[j];
            let pi = Coords { x: ci.x, y: ci.y, z: 0 };
            let pj = Coords { x: cj.x, y: cj.y, z: 0 };
            ip.add_cross_2d(&pi, ci.r, &pj, cj.r);
            j += 1;
            proof {
                assert(circles@[i as int] == (Circle { x: pi.x, y: pi.y, r: ci.r }));
                assert(circles@[j as int - 1] == (Circle { x: pj.x, y: pj.y, r: cj.r }));
            }
        }
        i += 1;
    }
    proof {
        assert(ip@ == all_candidates(circles@));
    }
    match ip.centroid() {
        Some(c) => Trace { coords: c, timestamp },
        None => Trace { coords: last.coords, timestamp },
    }
}

/// Degenerate-pair guard: two circles with coincident centers contribute
/// no candidate point.
pub proof fn lemma_coincident_centers_no_candidates(c1: Circle, c2: Circle)
    requires
        c1.x == c2.x,
        c1.y == c2.y,
    ensures
        cross_candidates(c1, c2) == Seq::<Coords>::empty(),
{
    let dx = c2.x - c1.x;
    let dy = c2.y - c1.y;
    assert(dx * dx == 0) by (nonlinear_arith)
        requires
            dx == 0,
    ;
    assert(dy * dy == 0) by (nonlinear_arith)
        requires
            dy == 0,
    ;
}

/// Externally tangent circles with positive radii contribute exactly one
/// candidate: the analytic tangency point on the center line, the
/// radius-weighted average of the two centers.
pub proof fn lemma_tangent_single_candidate(c1: Circle, c2: Circle)
    requires
        c1.r > 0,
        c2.r > 0,
        (c2.x - c1.x) * (c2.x - c1.x) + (c2.y - c1.y) * (c2.y - c1.y) == (c1.r + c2.r) * (c1.r
            + c2.r),
    ensures
        cross_candidates(c1, c2) == seq![
            clamp_pt(
                tdiv(c2.r * c1.x + c1.r * c2.x, c1.r + c2.r),
                tdiv(c2.r * c1.y + c1.r * c2.y, c1.r + c2.r),
            ),
        ],
{
    let dx = c2.x - c1.x;
    let dy = c2.y - c1.y;
    let l2 = dx * dx + dy * dy;
    let rsum = c1.r + c2.r;
    let rdiff = c2.r - c1.r;
    assert(rsum * rsum >= 1 && rsum * rsum - rdiff * rdiff == 4 * (c1.r * c2.r) && c1.r * c2.r
        >= 1) by (nonlinear_arith)
        requires
            rsum == c1.r + c2.r,
            rdiff == c2.r - c1.r,
            c1.r >= 1,
            c2.r >= 1,
    ;
    assert(l2 == rsum * rsum);
    assert(l2 >= 1);
    assert(!(l2 <= rdiff * rdiff));
    assert(!(rsum * rsum < l2));
    let kk = (rsum * rsum - l2) * (l2 - rdiff * rdiff);
    assert(kk == 0) by (nonlinear_arith)
        requires
            rsum * rsum - l2 == 0,
            kk == (rsum * rsum - l2) * (l2 - rdiff * rdiff),
    ;
    assert(sqrt_floor(0nat) == 0);
    let s = sqrt_floor(kk as nat) as int;
    assert(s == 0);
    assert(dy * s == 0 && dx * s == 0) by (nonlinear_arith)
        requires
            s == 0,
    ;
    assert(0int / (2 * l2) == 0) by (nonlinear_arith)
        requires
            l2 >= 1,
    ;
    assert(tdiv(0, 2 * l2) == 0);
    let rrd = c1.r * c1.r - c2.r * c2.r;
    let wx = c2.r * c1.x + c1.r * c2.x;
    let wy = c2.r * c1.y + c1.r * c2.y;
    assert(rrd == (c1.r - c2.r) * rsum) by (nonlinear_arith)
        requires
            rsum == c1.r + c2.r,
            rrd == c1.r * c1.r - c2.r * c2.r,
    ;
    assert((c1.x + c2.x) * rsum + dx * (c1.r - c2.r) == 2 * wx) by (nonlinear_arith)
        requires
            rsum == c1.r + c2.r,
            dx == c2.x - c1.x,
            wx == c2.r * c1.x + c1.r * c2.x,
    ;
    assert((c1.y + c2.y) * rsum + dy * (c1.r - c2.r) == 2 * wy) by (nonlinear_arith)
        requires
            rsum == c1.r + c2.r,
            dy == c2.y - c1.y,
            wy == c2.r * c1.y + c1.r * c2.y,
    ;
    assert((c1.x + c2.x) * l2 + dx * rrd == (2 * rsum) * wx) by (nonlinear_arith)
        requires
            l2 == rsum * rsum,
            rrd == (c1.r - c2.r) * rsum,
            (c1.x + c2.x) * rsum + dx * (c1.r - c2.r) == 2 * wx,
    ;
    assert((c1.y + c2.y) * l2 + dy * rrd == (2 * rsum) * wy) by (nonlinear_arith)
        requires
            l2 == rsum * rsum,
            rrd == (c1.r - c2.r) * rsum,
            (c1.y + c2.y) * rsum + dy * (c1.r - c2.r) == 2 * wy,
    ;
    assert(2 * l2 == (2 * rsum) * rsum) by (nonlinear_arith)
        requires
            l2 == rsum * rsum,
    ;
    lemma_tdiv_cancel(wx, rsum, 2 * rsum);
    lemma_tdiv_cancel(wy, rsum, 2 * rsum);
    assert(cross_candidates(c1, c2) =~= seq![
        clamp_pt(tdiv(wx, rsum), tdiv(wy, rsum)),
    ]);
}

} // verus!
