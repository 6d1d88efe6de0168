use rtls_core::device::Description;
use rtls_core::measure::Distance;
use rtls_core::measure::List;
use rtls_core::utils::Coords;
use rtls_core::utils::Scent;
use rtls_core::utils::Trace;
use rtls_core::zone::ExitCode;
use rtls_core::zone::Zone;

#[test]
fn it_works() {
    assert_eq!(2 + 2, 4);
}

#[test]
fn get_all_devices_position() {
    let mut zone = Zone::new(1);
    zone.add_device(1, [1, 2, 3]);
    zone.add_device(2, [-1, -2, -3]);
    let v: Vec<Description> = zone.get_all_devices_position(0);
    assert_eq!(v.len(), 2);
    assert_eq!(v[0].id(), 1);
    assert_eq!(v[1].id(), 2);
    assert!(v[0].pos.coords.x < v[0].pos.coords.y);
    assert!(v[0].pos.coords.y < v[0].pos.coords.z);
    assert!(v[1].pos.coords.x > v[1].pos.coords.y);
    assert!(v[1].pos.coords.y > v[1].pos.coords.z);
}

fn trace_at(x: i32, y: i32, ts: u32) -> Trace {
    Trace {
        coords: Coords { x, y, z: 0 },
        timestamp: ts,
    }
}

#[test]
fn scent_ring_stays_bounded_and_newest_first() {
    let mut s = Scent::with_capacity(3);
    for k in 0..7u32 {
        s.add(trace_at(k as i32, 0, k));
        assert!(s.len() <= 3);
        assert_eq!(s.get(0).unwrap().timestamp, k);
    }
    assert_eq!(s.len(), 3);
    assert_eq!(s.get(0).unwrap().timestamp, 6);
    assert_eq!(s.get(1).unwrap().timestamp, 5);
    assert_eq!(s.get(2).unwrap().timestamp, 4);
    assert!(s.get(3).is_none());
}

#[test]
fn measure_ring_stays_bounded_and_newest_first() {
    let mut l = List::new(Distance::new([1, 2], 0, 100));
    for k in 1..9u32 {
        l.update(Distance::new([1, 2], k, 100 + k as i64));
        assert_eq!(l.estimate(9999), 100 + k as i64);
    }
    assert_eq!(l.estimate(0), 108);
}

#[test]
fn measure_list_canonicalizes_pair() {
    let l = List::new(Distance::new([5, 3], 0, 1000));
    assert_eq!(l.id(0), 3);
    assert_eq!(l.id(1), 5);
    let l2 = List::new(Distance::new([3, 5], 0, 1000));
    assert_eq!(l2.id(0), 3);
    assert_eq!(l2.id(1), 5);
}

#[test]
fn measure_records_same_list_in_either_order() {
    // One pair, reported in both orders: both recordings address the
    // same canonical history, so the freshest sample wins.
    let mut zone = Zone::new(0);
    assert_eq!(zone.add_device(1, [0, 0, 0]), ExitCode::Okay);
    assert_eq!(zone.add_device(2, [10000, 0, 0]), ExitCode::Okay);
    assert_eq!(zone.add_measure(1, 2, 5000, 0, false), ExitCode::Okay);
    assert_eq!(zone.add_measure(2, 1, 7000, 1, false), ExitCode::Okay);
    let d = zone.get_dev_position(1, 1).unwrap();
    assert_eq!(d.timestamp, 1);
}

#[test]
fn duplicate_device_registration_is_reported_and_harmless() {
    let mut zone = Zone::new(0);
    assert_eq!(zone.add_device(7, [1, 2, 3]), ExitCode::Okay);
    let before = zone.get_all_devices_position(0);
    assert_eq!(zone.add_device(7, [9, 9, 9]), ExitCode::AlreadyExist);
    let after = zone.get_all_devices_position(0);
    assert_eq!(before.len(), 1);
    assert_eq!(after.len(), 1);
    assert_eq!(after[0].pos.coords.x, 1);
    assert_eq!(after[0].pos.coords.y, 2);
    assert_eq!(after[0].pos.coords.z, 3);
}

#[test]
fn distance_samples_are_clamped_into_range() {
    let l = List::new(Distance::new([1, 2], 0, 5_000_000_000));
    assert_eq!(l.estimate(0), 1_000_000_000);
    let l2 = List::new(Distance::new([1, 2], 0, -5_000_000_000));
    assert_eq!(l2.estimate(0), -1_000_000_000);
}

#[test]
fn unknown_device_position_is_none() {
    let zone = Zone::new(0);
    assert!(zone.get_dev_position(42, 0).is_none());
    assert!(zone.get_device_ptr(42).is_none());
}

#[test]
fn end_to_end_measurements_estimate_tag_position() {
    let mut zone = Zone::new(0);
    assert_eq!(zone.add_device(1, [0, 0, 0]), ExitCode::Okay);
    assert_eq!(zone.add_device(2, [10000, 0, 0]), ExitCode::Okay);

    // First contact for a pair only creates its history.
    assert_eq!(zone.add_measure(1, 2, 10000, 0, false), ExitCode::Okay);

    // First contact for the unregistered tag also only creates history.
    assert_eq!(zone.add_measure(1, 3, 7070, 1, false), ExitCode::Okay);

    // A further sample re-estimates both ends; the unknown tag is
    // reported, while the measurement itself is kept.
    assert_eq!(zone.add_measure(1, 3, 7070, 2, false), ExitCode::UnknownDevice);
    assert!(zone.get_dev_position(3, 2).is_none());

    // Register the tag and anchor it from both sides.
    assert_eq!(zone.add_device(3, [0, 0, 0]), ExitCode::Okay);
    assert_eq!(zone.add_measure(2, 3, 7070, 3, false), ExitCode::Okay);
    assert_eq!(zone.add_measure(1, 3, 7070, 4, false), ExitCode::Okay);

    let d = zone.get_dev_position(3, 4).unwrap();
    assert_eq!(d.id(), 3);
    assert_eq!(d.timestamp, 4);
    // The tag moved off its default origin seed.
    assert!(d.pos.coords.x != 0 || d.pos.coords.y != 0);
}
