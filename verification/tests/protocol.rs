use std::sync::Arc;

use rtls_core::wrapper;
use rtls_core::wrapper::dev_data_msg::parse_envelope;
use rtls_core::wrapper::dev_data_msg::DevDataParse;
use rtls_core::wrapper::messages::delivery_indices;
use rtls_core::wrapper::messages::frame_action;
use rtls_core::wrapper::messages::target_role;
use rtls_core::wrapper::messages::FrameAction;
use rtls_core::wrapper::messages::FrameEvent;
use rtls_core::wrapper::messages::MessageFormat;
use rtls_core::wrapper::messages::MessageSource;
use rtls_core::wrapper::messages::MessageTarget;
use rtls_core::wrapper::messages::Role;
use rtls_core::zone::Zone;

fn text(s: &str) -> MessageFormat {
    MessageFormat::Text(s.as_bytes().to_vec())
}

fn as_text(m: MessageFormat) -> String {
    match m {
        MessageFormat::Text(v) => String::from_utf8(v).unwrap(),
        MessageFormat::Bin(_) => panic!("expected a text payload"),
    }
}

#[test]
fn envelope_parses_ids_timestamp_and_scaled_distance() {
    let raw = "{\"cmd\": 1, \"data\": {\"id\": [1, 2], \"timestamp\": 5, \"distance\": 7.07}}";
    match parse_envelope(&raw.as_bytes().to_vec()) {
        DevDataParse::Measure(m) => {
            assert_eq!(m.id, [1, 2]);
            assert_eq!(m.timestamp, 5);
            assert_eq!(m.distance, 7070);
        }
        _ => panic!("expected a measurement"),
    }
}

#[test]
fn envelope_distance_forms() {
    let cases = [
        ("10.0", 10000i64),
        ("10", 10000),
        ("0.5", 500),
        ("0.25", 250),
        ("1.23456", 1234),
        ("-2.5", -2500),
        ("7.07e2", 707000),
        ("2.5E1", 25000),
        ("1e-3", 1),
        ("4.2e-2", 42),
        ("1e-30", 0),
        ("1e30", 1_000_000_000),
        ("-1e30", -1_000_000_000),
    ];
    for (txt, want) in cases {
        let raw = format!(
            "{{\"cmd\":1,\"data\":{{\"id\":[1,2],\"timestamp\":0,\"distance\":{}}}}}",
            txt
        );
        match parse_envelope(&raw.into_bytes()) {
            DevDataParse::Measure(m) => assert_eq!(m.distance, want, "distance {}", txt),
            _ => panic!("expected a measurement for {}", txt),
        }
    }
}

#[test]
fn envelope_classifies_by_json_validity_first() {
    // Not JSON at all, and a frame whose prefix looks like an envelope
    // but never closes: both are invalid JSON.
    assert!(matches!(
        parse_envelope(&"not json at all".as_bytes().to_vec()),
        DevDataParse::Invalid
    ));
    assert!(matches!(
        parse_envelope(&"{\"cmd\":2".as_bytes().to_vec()),
        DevDataParse::Invalid
    ));
    // Valid JSON without a numeric `cmd` member lacks its command.
    assert!(matches!(
        parse_envelope(&"{\"x\":1}".as_bytes().to_vec()),
        DevDataParse::LackCmd
    ));
    assert!(matches!(
        parse_envelope(&"[1,2,3]".as_bytes().to_vec()),
        DevDataParse::LackCmd
    ));
    assert!(matches!(
        parse_envelope(&"{\"cmd\": \"x\"}".as_bytes().to_vec()),
        DevDataParse::LackCmd
    ));
    // A numeric `cmd` that selects no message type is unknown; a
    // non-integer number selects nothing either.
    assert!(matches!(
        parse_envelope(&"{\"cmd\": 9, \"data\": {}}".as_bytes().to_vec()),
        DevDataParse::UnknownCmd
    ));
    assert!(matches!(
        parse_envelope(&"{\"cmd\": 1.5}".as_bytes().to_vec()),
        DevDataParse::UnknownCmd
    ));
    // A measurement frame with a malformed payload.
    let bad = "{\"cmd\": 1, \"data\": {\"id\": [1], \"timestamp\": 0, \"distance\": 1.0}}";
    assert!(matches!(
        parse_envelope(&bad.as_bytes().to_vec()),
        DevDataParse::BadMeasure
    ));
}

#[test]
fn envelope_accepts_reordered_and_unknown_members() {
    let raw = "{\"data\": {\"distance\": 2.5, \"note\": [true, null], \"id\": [7, 8], \"timestamp\": 3}, \"extra\": \"x\", \"cmd\": 1}";
    match parse_envelope(&raw.as_bytes().to_vec()) {
        DevDataParse::Measure(m) => {
            assert_eq!(m.id, [7, 8]);
            assert_eq!(m.timestamp, 3);
            assert_eq!(m.distance, 2500);
        }
        _ => panic!("expected a measurement"),
    }
}

#[test]
fn dev_data_measurement_broadcasts_descriptions() {
    let mut zone = Zone::new(0);
    zone.add_device(1, [0, 0, 0]);
    zone.add_device(2, [10000, 0, 0]);
    let raw = "{\"cmd\": 1, \"data\": {\"id\": [1, 2], \"timestamp\": 0, \"distance\": 10.0}}";
    let r = wrapper::parse(&mut zone, MessageSource::DevData(text(raw)));
    match r {
        Some(MessageTarget::WebData(m)) => {
            let body = as_text(m);
            assert_eq!(
                body,
                "[{\"pos\":{\"coords\":[0.000,0.000,0.000],\"timestamp\":0},\"id\":1,\"timestamp\":0},\
                 {\"pos\":{\"coords\":[10.000,0.000,0.000],\"timestamp\":0},\"id\":2,\"timestamp\":0}]"
            );
        }
        _ => panic!("expected a web-data broadcast"),
    }
}

#[test]
fn dev_data_errors_answer_the_sender_only() {
    let mut zone = Zone::new(0);
    match wrapper::parse(&mut zone, MessageSource::DevData(text("{oops"))) {
        Some(MessageTarget::Direct(m)) => {
            assert_eq!(as_text(m), "Invalid JSON `{oops`!");
        }
        _ => panic!("expected a direct error"),
    }
    match wrapper::parse(&mut zone, MessageSource::DevData(text("{\"cmd\": 3, \"data\": {}}"))) {
        Some(MessageTarget::Direct(m)) => {
            assert_eq!(as_text(m), "Unknown message type");
        }
        _ => panic!("expected a direct error"),
    }
    match wrapper::parse(&mut zone, MessageSource::DevData(text("{\"x\": 1}"))) {
        Some(MessageTarget::Direct(m)) => {
            assert_eq!(as_text(m), "Lack of 'cmd' field");
        }
        _ => panic!("expected a direct error"),
    }
    assert!(zone.get_all_devices_position(0).is_empty());
}

#[test]
fn dev_comm_wake_up_registers_a_device() {
    let mut zone = Zone::new(0);
    let r = wrapper::parse(
        &mut zone,
        MessageSource::DevCommand(text("{\"type\": 1, \"id\": 42}")),
    );
    match r {
        Some(MessageTarget::WebData(m)) => assert_eq!(as_text(m), "Added new device"),
        _ => panic!("expected a web-data acknowledgement"),
    }
    assert!(zone.get_dev_position(42, 0).is_some());
}

#[test]
fn dev_comm_unrecognized_content_is_acknowledged() {
    let mut zone = Zone::new(0);
    let r = wrapper::parse(&mut zone, MessageSource::DevCommand(text("{\"type\": 2}")));
    match r {
        Some(MessageTarget::Direct(m)) => assert_eq!(as_text(m), "Yes, sir!"),
        _ => panic!("expected a direct acknowledgement"),
    }
    let r3 = wrapper::parse(&mut zone, MessageSource::DevCommand(text("{\"a\": 1}")));
    match r3 {
        Some(MessageTarget::Direct(m)) => assert_eq!(as_text(m), "Yes, sir!"),
        _ => panic!("expected a direct acknowledgement"),
    }
    let r4 = wrapper::parse(&mut zone, MessageSource::DevCommand(text("{nope")));
    match r4 {
        Some(MessageTarget::Direct(m)) => assert_eq!(as_text(m), "Invalid JSON `{nope`!"),
        _ => panic!("expected a direct error"),
    }
    let r2 = wrapper::parse(&mut zone, MessageSource::WebCommand(text("hello")));
    match r2 {
        Some(MessageTarget::Direct(m)) => assert_eq!(as_text(m), "Yes, sir!"),
        _ => panic!("expected a direct acknowledgement"),
    }
    assert!(wrapper::parse(&mut zone, MessageSource::WebData(text("x"))).is_none());
    assert!(zone.get_all_devices_position(0).is_empty());
}

#[test]
fn frame_actions_follow_the_read_loop_rules() {
    assert!(matches!(
        frame_action(Role::DevData, FrameEvent::Close),
        FrameAction::CloseAndStop
    ));
    match frame_action(Role::DevData, FrameEvent::Ping(vec![1, 2])) {
        FrameAction::Pong(p) => assert_eq!(p, vec![1, 2]),
        _ => panic!("expected a pong"),
    }
    match frame_action(Role::WebCommand, FrameEvent::Text(b"hi".to_vec())) {
        FrameAction::Enqueue(MessageSource::WebCommand(MessageFormat::Text(v))) => {
            assert_eq!(v, b"hi".to_vec());
        }
        _ => panic!("expected an enqueue for the web-command role"),
    }
    assert!(matches!(
        frame_action(Role::DevCommand, FrameEvent::Other),
        FrameAction::Ignore
    ));
    // A transport failure ends only this connection's loop.
    assert!(matches!(
        frame_action(Role::DevData, FrameEvent::Failed),
        FrameAction::Stop
    ));
}

#[test]
fn target_roles_select_the_subscriber_group() {
    assert_eq!(
        target_role(&MessageTarget::WebData(text("x"))),
        Some(Role::WebData)
    );
    assert_eq!(
        target_role(&MessageTarget::DevCommand(text("x"))),
        Some(Role::DevCommand)
    );
    assert_eq!(target_role(&MessageTarget::Direct(text("x"))), None);
}

#[test]
fn broadcast_skips_dropped_subscribers() {
    // Three subscribers; the middle one's strong handle is dropped, so
    // its weak reference no longer resolves.
    let a = Arc::new(10u32);
    let b = Arc::new(20u32);
    let c = Arc::new(30u32);
    let wa = Arc::downgrade(&a);
    let wb = Arc::downgrade(&b);
    let wc = Arc::downgrade(&c);
    drop(b);
    let live: Vec<bool> = vec![
        wa.upgrade().is_some(),
        wb.upgrade().is_some(),
        wc.upgrade().is_some(),
    ];
    let plan = delivery_indices(&live);
    assert_eq!(plan, vec![0, 2]);
    // Delivery to the remaining live subscribers succeeds.
    let mut delivered = Vec::new();
    for i in plan {
        let w = [&wa, &wb, &wc][i];
        if let Some(v) = w.upgrade() {
            delivered.push(*v);
        }
    }
    assert_eq!(delivered, vec![10, 30]);
    drop(a);
    drop(c);
}
