//! Web-command route: no state-mutating commands are defined for this
//! role; every frame is acknowledged directly.

use vstd::prelude::*;

use crate::wrapper::messages::ack_reply;
use crate::wrapper::messages::spec_is_ack;
use crate::wrapper::messages::MessageFormat;
use crate::wrapper::messages::MessageTarget;
use crate::zone::Zone;
use crate::zone::ZoneV;

verus! {

/// What the web-command route does with one frame: the zone is left
/// untouched and the sender gets the fixed acknowledgement.
pub open spec fn spec_parse_post(
    oldz: ZoneV,
    newz: ZoneV,
    cmd: MessageFormat,
    r: Option<MessageTarget>,
) -> bool {
    newz == oldz && spec_is_ack(r)
}

/// Handles one web-command frame.
pub fn parse(zone: &mut Zone, cmd: &MessageFormat) -> (r: Option<MessageTarget>)
    requires
        old(zone).wf(),
    ensures
        final(zone).wf(),
        spec_parse_post(old(zone)@, final(zone)@, *cmd, r),
{
    Some(MessageTarget::Direct(ack_reply()))
}

} // verus!
