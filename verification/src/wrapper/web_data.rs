//! Web-data route: observers only receive on this route; inbound
//! content produces no response and changes nothing.

use vstd::prelude::*;

use crate::wrapper::messages::MessageFormat;
use crate::wrapper::messages::MessageTarget;
use crate::zone::Zone;
use crate::zone::ZoneV;

verus! {

/// What the web-data route does with one inbound frame: nothing.
pub open spec fn spec_parse_post(
    oldz: ZoneV,
    newz: ZoneV,
    cmd: MessageFormat,
    r: Option<MessageTarget>,
) -> bool {
    newz == oldz && r is None
}

/// Handles one web-data frame.
pub fn parse(zone: &mut Zone, cmd: &MessageFormat) -> (r: Option<MessageTarget>)
    requires
        old(zone).wf(),
    ensures
        final(zone).wf(),
        spec_parse_post(old(zone)@, final(zone)@, *cmd, r),
{
    None
}

} // verus!
