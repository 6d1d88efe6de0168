//! Device-data route: distance measurements are fed to the zone and the
//! updated positions of the pair are broadcast to the web-data group;
//! protocol errors are reported to the sender only.

use vstd::prelude::*;
use vstd::string::StringSliceAdditionalSpecFns;

use crate::device::describe;
use crate::device::Description;
use crate::json::push_str_bytes;
use crate::json::str_to_bytes;
use crate::utils::DevId;
use crate::utils::Timestamp;
use crate::wrapper::dev_data_msg::desc_list_json;
use crate::wrapper::dev_data_msg::parse_envelope;
use crate::wrapper::dev_data_msg::spec_desc_list_json;
use crate::wrapper::dev_data_msg::spec_parse_envelope;
use crate::wrapper::dev_data_msg::DevDataParse;
use crate::wrapper::messages::invalid_json_reply;
use crate::wrapper::messages::spec_invalid_reply;
use crate::wrapper::messages::MessageFormat;
use crate::wrapper::messages::MessageTarget;
use crate::zone::find_dev;
use crate::zone::spec_add_measure;
use crate::zone::ExitCode;
use crate::zone::Zone;
use crate::zone::ZoneV;

verus! {

/// The descriptions broadcast after a measurement: one per device of
/// the pair that is registered, in pair order.
pub open spec fn spec_pair_descs(z: ZoneV, a: DevId, b: DevId, ts: Timestamp) -> Seq<Description> {
    (match find_dev(z.devices, a) {
        Some(k) => seq![describe(z.devices[k], ts)],
        None => Seq::<Description>::empty(),
    }) + (match find_dev(z.devices, b) {
        Some(k) => seq![describe(z.devices[k], ts)],
        None => Seq::<Description>::empty(),
    })
}

/// The text of a measurement that the zone refused.
pub open spec fn spec_exit_text(e: ExitCode) -> Seq<u8> {
    match e {
        ExitCode::Okay => "Okay".spec_bytes(),
        ExitCode::UnknownDevice => "UnknownDevice".spec_bytes(),
        ExitCode::AlreadyExist => "AlreadyExist".spec_bytes(),
    }
}

pub open spec fn spec_measure_failed_msg(e: ExitCode) -> Seq<u8> {
    "Measure processing failed, ".spec_bytes() + spec_exit_text(e)
}

fn measure_failed_msg(e: ExitCode) -> (v: Vec<u8>)
    ensures
        v@ == spec_measure_failed_msg(e),
{
    let mut out = str_to_bytes("Measure processing failed, ");
    match e {
        ExitCode::Okay => push_str_bytes(&mut out, "Okay"),
        ExitCode::UnknownDevice => push_str_bytes(&mut out, "UnknownDevice"),
        ExitCode::AlreadyExist => push_str_bytes(&mut out, "AlreadyExist"),
    }
    out
}

/// The fixed reply for a frame whose measurement payload is malformed,
/// including a pair of two equal ids.
pub open spec fn spec_bad_measure_reply(r: Option<MessageTarget>) -> bool {
    r matches Some(MessageTarget::Direct(MessageFormat::Text(v))) && v@ == "Invalid distance message format!".spec_bytes()
}

/// What the device-data route does with one frame: invalid JSON is
/// echoed; valid JSON without a numeric `cmd` member, and a `cmd` that
/// selects no message type, each draw their own error. A parsed measurement
/// with two distinct ids drives `add_measure` with device creation
/// allowed; on success the pair's updated descriptions go to the
/// web-data group, otherwise the failure is reported to the sender. All
/// error cases leave the zone unchanged except that a recorded
/// measurement is never rolled back.
pub open spec fn spec_parse_post(
    oldz: ZoneV,
    newz: ZoneV,
    cmd: MessageFormat,
    r: Option<MessageTarget>,
) -> bool {
    match cmd {
        MessageFormat::Bin(_) => newz == oldz && r is None,
        MessageFormat::Text(t) => match spec_parse_envelope(t@) {
            DevDataParse::Invalid => newz == oldz && spec_invalid_reply(t@, r),
            DevDataParse::UnknownCmd => newz == oldz && (r matches Some(
                MessageTarget::Direct(MessageFormat::Text(v)),
            ) && v@ == "Unknown message type".spec_bytes()),
            DevDataParse::LackCmd => newz == oldz && (r matches Some(
                MessageTarget::Direct(MessageFormat::Text(v)),
            ) && v@ == "Lack of 'cmd' field".spec_bytes()),
            DevDataParse::BadMeasure => newz == oldz && spec_bad_measure_reply(r),
            DevDataParse::Measure(m) => {
                if m.id[0] == m.id[1] {
                    newz == oldz && spec_bad_measure_reply(r)
                } else {
                    let step = spec_add_measure(
                        oldz,
                        m.id[0],
                        m.id[1],
                        m.distance,
                        m.timestamp,
                        true,
                    );
                    &&& newz == step.0
                    &&& if step.1 == ExitCode::Okay {
                        r matches Some(MessageTarget::WebData(MessageFormat::Text(v))) && v@
                            == spec_desc_list_json(
                            spec_pair_descs(step.0, m.id[0], m.id[1], m.timestamp),
                        )
                    } else {
                        r matches Some(MessageTarget::Direct(MessageFormat::Text(v))) && v@
                            == spec_measure_failed_msg(step.1)
                    }
                }
            },
        },
    }
}

/// Handles one device-data frame.
pub fn parse(zone: &mut Zone, cmd: &MessageFormat) -> (r: Option<MessageTarget>)
    requires
        old(zone).wf(),
    ensures
        final(zone).wf(),
        spec_parse_post(old(zone)@, final(zone)@, *cmd, r),
{
    match cmd {
        MessageFormat::Bin(_) => None,
        MessageFormat::Text(t) => match parse_envelope(t) {
            DevDataParse::Invalid => Some(MessageTarget::Direct(invalid_json_reply(t))),
            DevDataParse::UnknownCmd => Some(
                MessageTarget::Direct(MessageFormat::Text(str_to_bytes("Unknown message type"))),
            ),
            DevDataParse::LackCmd => Some(
                MessageTarget::Direct(MessageFormat::Text(str_to_bytes("Lack of 'cmd' field"))),
            ),
            DevDataParse::BadMeasure => Some(
                MessageTarget::Direct(
                    MessageFormat::Text(str_to_bytes("Invalid distance message format!")),
                ),
            ),
            DevDataParse::Measure(m) => {
                let a = m.id[0];
                let b = m.id[1];
                if a == b {
                    Some(
                        MessageTarget::Direct(
                            MessageFormat::Text(str_to_bytes("Invalid distance message format!")),
                        ),
                    )
                } else {
                    let ret = zone.add_measure(a, b, m.distance, m.timestamp, true);
                    if ret == ExitCode::Okay {
                        let mut descs: Vec<Description> = Vec::new();
                        match zone.get_dev_position(a, m.timestamp) {
                            Some(d) => descs.push(d),
                            None => {},
                        }
                        match zone.get_dev_position(b, m.timestamp) {
                            Some(d) => descs.push(d),
                            None => {},
                        }
                        proof {
                            assert(descs@ =~= spec_pair_descs(zone@, a, b, m.timestamp));
                        }
                        let v = desc_list_json(&descs);
                        Some(MessageTarget::WebData(MessageFormat::Text(v)))
                    } else {
                        Some(MessageTarget::Direct(MessageFormat::Text(measure_failed_msg(ret))))
                    }
                }
            },
        },
    }
}

} // verus!
