use rtls_core::arith::div_trunc;
use rtls_core::arith::isqrt;
use rtls_core::lateration::geo_n;
use rtls_core::lateration::geo_n::CrossPoints;
use rtls_core::lateration::min_max;
use rtls_core::lateration::Circle;
use rtls_core::lateration::LaterationFactory;
use rtls_core::lateration::LaterationTypes;
use rtls_core::utils::Coords;
use rtls_core::utils::Trace;
use rtls_core::zone::ExitCode;
use rtls_core::zone::Zone;

fn origin_trace() -> Trace {
    Trace {
        coords: Coords { x: 0, y: 0, z: 0 },
        timestamp: 0,
    }
}

#[test]
fn isqrt_and_div_trunc_basics() {
    assert_eq!(isqrt(0), 0);
    assert_eq!(isqrt(1), 1);
    assert_eq!(isqrt(15), 3);
    assert_eq!(isqrt(16), 4);
    assert_eq!(isqrt(99_999_999), 9999);
    assert_eq!(div_trunc(7, 2), 3);
    assert_eq!(div_trunc(-7, 2), -3);
    assert_eq!(div_trunc(0, 5), 0);
}

#[test]
fn coincident_centers_produce_no_candidate() {
    let mut cp = CrossPoints::create();
    let p = Coords { x: 500, y: -200, z: 0 };
    cp.add_cross_2d(&p, 3000, &p, 5000);
    assert!(cp.centroid().is_none());
}

#[test]
fn externally_tangent_circles_produce_the_tangency_point() {
    let mut cp = CrossPoints::create();
    let p1 = Coords { x: 0, y: 0, z: 0 };
    let p2 = Coords { x: 10000, y: 0, z: 0 };
    // Radii 3000 + 7000 equal the center distance exactly: one
    // candidate at the analytic tangency point.
    cp.add_cross_2d(&p1, 3000, &p2, 7000);
    let c = cp.centroid().unwrap();
    assert_eq!(c.x, 3000);
    assert_eq!(c.y, 0);
}

#[test]
fn multilateration_centroid_is_near_the_true_position() {
    // Three anchors and exact synthetic distances to a target at
    // (5000, 2300). The centroid keeps both intersection points of each
    // pair, so the mirror points pull the estimate off the true target
    // along y; x lands within tolerance and the whole estimate is
    // deterministic.
    let circles = vec![
        Circle { x: 0, y: 0, r: 5504 },
        Circle { x: 10000, y: 0, r: 5504 },
        Circle { x: 5000, y: 8660, r: 6360 },
    ];
    let t = geo_n::calc_dev_position(&circles, &origin_trace(), 9);
    assert_eq!(t.timestamp, 9);
    assert!((t.coords.x - 5000).abs() <= 100, "x = {}", t.coords.x);
    assert_eq!(t.coords.x, 4999);
    assert_eq!(t.coords.y, 2593);
    assert_eq!(t.coords.z, 0);
}

#[test]
fn too_few_neighbors_fall_back_to_last_position() {
    let circles = vec![Circle { x: 0, y: 0, r: 1000 }];
    let last = Trace {
        coords: Coords { x: 77, y: -5, z: 3 },
        timestamp: 1,
    };
    let t = geo_n::calc_dev_position(&circles, &last, 8);
    assert_eq!(t.coords.x, 77);
    assert_eq!(t.coords.y, -5);
    assert_eq!(t.coords.z, 3);
    assert_eq!(t.timestamp, 8);
    let m = min_max::calc_dev_position(&circles, &last, 8);
    assert_eq!(m.coords.x, 77);
    assert_eq!(m.timestamp, 8);
}

#[test]
fn min_max_reports_the_bounding_box_center() {
    let circles = vec![
        Circle { x: 0, y: 0, r: 1000 },
        Circle { x: 2000, y: 0, r: 1000 },
    ];
    let t = min_max::calc_dev_position(&circles, &origin_trace(), 2);
    assert_eq!(t.coords.x, 1000);
    assert_eq!(t.coords.y, 0);
    assert_eq!(t.timestamp, 2);
}

#[test]
fn zone_runs_the_strategy_selected_by_name() {
    let strat = LaterationFactory::get("min_max").unwrap();
    let mut zone = Zone::new_with_strategy(5, strat);
    assert_eq!(zone.add_device(1, [0, 0, 0]), ExitCode::Okay);
    assert_eq!(zone.add_device(2, [2000, 0, 0]), ExitCode::Okay);
    assert_eq!(zone.add_device(3, [0, 0, 0]), ExitCode::Okay);
    assert_eq!(zone.add_measure(1, 3, 1000, 0, false), ExitCode::Okay);
    assert_eq!(zone.add_measure(2, 3, 1000, 1, false), ExitCode::Okay);
    assert_eq!(zone.add_measure(1, 3, 1000, 2, false), ExitCode::Okay);
    let d = zone.get_dev_position(3, 2).unwrap();
    assert_eq!(d.pos.coords.x, 1000);
    assert_eq!(d.pos.coords.y, 0);
}

#[test]
fn lateration_factory_selects_by_name() {
    assert_eq!(LaterationFactory::get("geo_n"), Some(LaterationTypes::GeoN));
    assert_eq!(
        LaterationFactory::get("min_max"),
        Some(LaterationTypes::MinMax)
    );
    assert_eq!(LaterationFactory::get("newton"), None);
    assert_eq!(LaterationFactory::get(""), None);
}
