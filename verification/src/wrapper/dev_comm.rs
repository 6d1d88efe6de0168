//! Device-command route: a minimal command vocabulary. A wake-up
//! command (a JSON object with a `type` member of 1 and a numeric `id`
//! member) registers a new device and is acknowledged to the web-data
//! group; any other valid JSON frame draws the fixed acknowledgement;
//! only invalid JSON is echoed back to the sender.

use vstd::prelude::*;
use vstd::string::StringSliceAdditionalSpecFns;

use crate::json::json_ok;
use crate::json::spec_json_ok;
use crate::json::spec_top_field;
use crate::json::spec_u32_token;
use crate::json::str_to_bytes;
use crate::json::top_field;
use crate::json::u32_token;
use crate::utils::Coords;
use crate::utils::DevId;
use crate::wrapper::messages::ack_reply;
use crate::wrapper::messages::invalid_json_reply;
use crate::wrapper::messages::spec_invalid_reply;
use crate::wrapper::messages::spec_is_ack;
use crate::wrapper::messages::MessageFormat;
use crate::wrapper::messages::MessageTarget;
use crate::zone::spec_add_device;
use crate::zone::Zone;
use crate::zone::ZoneV;

verus! {

/// Outcome of parsing one device-command text frame.
pub enum DevCommParse {
    WakeUp(DevId),
    OtherCmd,
    Invalid,
}

/// One device-command text frame. JSON validity decides first: only an
/// invalid frame is reported as such. A valid frame whose top level is
/// an object with a `type` member of integer 1 and a numeric `id`
/// member is the wake-up command; every other valid frame is merely
/// acknowledged.
pub open spec fn spec_parse_dev_comm(s: Seq<u8>) -> DevCommParse {
    if !spec_json_ok(s) {
        DevCommParse::Invalid
    } else {
        match spec_top_field(s, "type".spec_bytes()) {
            Some(p) => if spec_u32_token(s, p) == Some(1u32) {
                match spec_top_field(s, "id".spec_bytes()) {
                    Some(q) => match spec_u32_token(s, q) {
                        Some(id) => DevCommParse::WakeUp(id),
                        None => DevCommParse::OtherCmd,
                    },
                    None => DevCommParse::OtherCmd,
                }
            } else {
                DevCommParse::OtherCmd
            },
            None => DevCommParse::OtherCmd,
        }
    }
}

/// Parses one device-command text frame.
fn parse_dev_comm_frame(s: &Vec<u8>) -> (r: DevCommParse)
    ensures
        r == spec_parse_dev_comm(s@),
{
    if !json_ok(s) {
        return DevCommParse::Invalid;
    }
    let p = match top_field(s, "type") {
        Some(p) => p,
        None => {
            return DevCommParse::OtherCmd;
        },
    };
    let is_wake = match u32_token(s, p) {
        Some(t) => t == 1,
        None => false,
    };
    if !is_wake {
        return DevCommParse::OtherCmd;
    }
    let q = match top_field(s, "id") {
        Some(q) => q,
        None => {
            return DevCommParse::OtherCmd;
        },
    };
    match u32_token(s, q) {
        Some(id) => DevCommParse::WakeUp(id),
        None => DevCommParse::OtherCmd,
    }
}

/// What the device-command route does with one frame: a wake-up command
/// registers its device (a duplicate id changes nothing) and is
/// acknowledged to the web-data group; everything else leaves the zone
/// untouched and is acknowledged or rejected directly.
pub open spec fn spec_parse_post(
    oldz: ZoneV,
    newz: ZoneV,
    cmd: MessageFormat,
    r: Option<MessageTarget>,
) -> bool {
    match cmd {
        MessageFormat::Bin(_) => newz == oldz && spec_is_ack(r),
        MessageFormat::Text(t) => match spec_parse_dev_comm(t@) {
            DevCommParse::WakeUp(id) => {
                &&& newz == spec_add_device(oldz, id, Coords::origin_spec()).0
                &&& (r matches Some(MessageTarget::WebData(MessageFormat::Text(v))) && v@
                    == "Added new device".spec_bytes())
            },
            DevCommParse::OtherCmd => newz == oldz && spec_is_ack(r),
            DevCommParse::Invalid => newz == oldz && spec_invalid_reply(t@, r),
        },
    }
}

/// Handles one device-command frame.
pub fn parse(zone: &mut Zone, cmd: &MessageFormat) -> (r: Option<MessageTarget>)
    requires
        old(zone).wf(),
    ensures
        final(zone).wf(),
        spec_parse_post(old(zone)@, final(zone)@, *cmd, r),
{
    match cmd {
        MessageFormat::Text(t) => match parse_dev_comm_frame(t) {
            DevCommParse::WakeUp(id) => {
                zone.add_device(id, [0, 0, 0]);
                Some(MessageTarget::WebData(MessageFormat::Text(str_to_bytes("Added new device"))))
            },
            DevCommParse::OtherCmd => Some(MessageTarget::Direct(ack_reply())),
            DevCommParse::Invalid => Some(MessageTarget::Direct(invalid_json_reply(t))),
        },
        MessageFormat::Bin(_) => Some(MessageTarget::Direct(ack_reply())),
    }
}

} // verus!
