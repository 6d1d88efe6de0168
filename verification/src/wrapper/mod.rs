//! Library wrapper: translates between the messages that connections
//! carry and the engine interface, one parser per connection role.

pub mod dev_comm;
pub mod dev_data;
pub mod dev_data_msg;
pub mod messages;
pub mod web_comm;
pub mod web_data;

use vstd::prelude::*;

use crate::wrapper::messages::MessageSource;
use crate::wrapper::messages::MessageTarget;
use crate::zone::Zone;

verus! {

/// Routes one dequeued message to its role's parser; the engine worker
/// calls this once per message, so zone access stays single-writer.
pub fn parse(zone: &mut Zone, data: MessageSource) -> (r: Option<MessageTarget>)
    requires
        old(zone).wf(),
    ensures
        final(zone).wf(),
        (match data {
            MessageSource::DevCommand(cmd) => dev_comm::spec_parse_post(
                old(zone)@,
                final(zone)@,
                cmd,
                r,
            ),
            MessageSource::DevData(cmd) => dev_data::spec_parse_post(
                old(zone)@,
                final(zone)@,
                cmd,
                r,
            ),
            MessageSource::WebCommand(cmd) => web_comm::spec_parse_post(
                old(zone)@,
                final(zone)@,
                cmd,
                r,
            ),
            MessageSource::WebData(cmd) => web_data::spec_parse_post(
                old(zone)@,
                final(zone)@,
                cmd,
                r,
            ),
        }),
{
    match data {
        MessageSource::DevCommand(cmd) => dev_comm::parse(zone, &cmd),
        MessageSource::DevData(cmd) => dev_data::parse(zone, &cmd),
        MessageSource::WebCommand(cmd) => web_comm::parse(zone, &cmd),
        MessageSource::WebData(cmd) => web_data::parse(zone, &cmd),
    }
}

} // verus!
