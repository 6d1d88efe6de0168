//! The internal message envelope between transport connections and the
//! engine worker, and the pure routing decisions of the dispatch layer:
//! which frames are enqueued, which subscriber group a response goes to,
//! and which subscribers of a group a broadcast is delivered to.

use vstd::prelude::*;
use vstd::string::StringSliceAdditionalSpecFns;

use crate::json::push_str_bytes;
use crate::json::str_to_bytes;

verus! {

/// A frame payload: UTF-8 text bytes or opaque binary bytes.
pub enum MessageFormat {
    Text(Vec<u8>),
    Bin(Vec<u8>),
}

/// An inbound payload tagged with the role of its source connection.
pub enum MessageSource {
    DevCommand(MessageFormat),
    DevData(MessageFormat),
    WebCommand(MessageFormat),
    WebData(MessageFormat),
}

/// An outbound payload: broadcast to one subscriber role, or delivered
/// directly back to the connection the request came from.
pub enum MessageTarget {
    DevCommand(MessageFormat),
    DevData(MessageFormat),
    WebCommand(MessageFormat),
    WebData(MessageFormat),
    Direct(MessageFormat),
}

/// The four connection roles.
#[derive(Clone, Copy, Debug, PartialEq, Eq, Structural)]
pub enum Role {
    DevCommand,
    DevData,
    WebCommand,
    WebData,
}

/// The subscriber group a response is broadcast to; a direct reply has
/// none.
pub open spec fn spec_target_role(t: MessageTarget) -> Option<Role> {
    match t {
        MessageTarget::DevCommand(_) => Some(Role::DevCommand),
        MessageTarget::DevData(_) => Some(Role::DevData),
        MessageTarget::WebCommand(_) => Some(Role::WebCommand),
        MessageTarget::WebData(_) => Some(Role::WebData),
        MessageTarget::Direct(_) => None,
    }
}

pub fn target_role(t: &MessageTarget) -> (r: Option<Role>)
    ensures
        r == spec_target_role(*t),
{
    match t {
        MessageTarget::DevCommand(_) => Some(Role::DevCommand),
        MessageTarget::DevData(_) => Some(Role::DevData),
        MessageTarget::WebCommand(_) => Some(Role::WebCommand),
        MessageTarget::WebData(_) => Some(Role::WebData),
        MessageTarget::Direct(_) => None,
    }
}

/// An inbound payload wrapped with its source role.
pub open spec fn spec_wrap_source(role: Role, content: MessageFormat) -> MessageSource {
    match role {
        Role::DevCommand => MessageSource::DevCommand(content),
        Role::DevData => MessageSource::DevData(content),
        Role::WebCommand => MessageSource::WebCommand(content),
        Role::WebData => MessageSource::WebData(content),
    }
}

pub fn pack_dev_comm(content: MessageFormat) -> (r: MessageSource)
    ensures
        r == spec_wrap_source(Role::DevCommand, content),
{
    MessageSource::DevCommand(content)
}

pub fn pack_dev_data(content: MessageFormat) -> (r: MessageSource)
    ensures
        r == spec_wrap_source(Role::DevData, content),
{
    MessageSource::DevData(content)
}

pub fn pack_web_comm(content: MessageFormat) -> (r: MessageSource)
    ensures
        r == spec_wrap_source(Role::WebCommand, content),
{
    MessageSource::WebCommand(content)
}

pub fn pack_web_data(content: MessageFormat) -> (r: MessageSource)
    ensures
        r == spec_wrap_source(Role::WebData, content),
{
    MessageSource::WebData(content)
}

/// The fixed acknowledgement for content the route has no command for.
pub open spec fn spec_is_ack(r: Option<MessageTarget>) -> bool {
    r matches Some(MessageTarget::Direct(MessageFormat::Text(v))) && v@ == "Yes, sir!".spec_bytes()
}

pub fn ack_reply() -> (r: MessageFormat)
    ensures
        (r matches MessageFormat::Text(v) && v@ == "Yes, sir!".spec_bytes()),
{
    MessageFormat::Text(str_to_bytes("Yes, sir!"))
}

/// The error text echoed to a sender whose frame was not valid JSON for
/// its route.
pub open spec fn spec_invalid_json_msg(t: Seq<u8>) -> Seq<u8> {
    "Invalid JSON `".spec_bytes() + t + "`!".spec_bytes()
}

/// The reply for a frame that is not valid JSON: echoed to the sender
/// only; the connection stays open.
pub open spec fn spec_invalid_reply(t: Seq<u8>, r: Option<MessageTarget>) -> bool {
    r matches Some(MessageTarget::Direct(MessageFormat::Text(v))) && v@ == spec_invalid_json_msg(t)
}

pub fn invalid_json_reply(t: &Vec<u8>) -> (r: MessageFormat)
    ensures
        (r matches MessageFormat::Text(v) && v@ == spec_invalid_json_msg(t@)),
{
    let mut out = str_to_bytes("Invalid JSON `");
    out.extend_from_slice(t.as_slice());
    push_str_bytes(&mut out, "`!");
    MessageFormat::Text(out)
}

/// One event on a connection's read loop.
pub enum FrameEvent {
    Close,
    Ping(Vec<u8>),
    Text(Vec<u8>),
    Failed,
    Other,
}

/// What the read loop does with the event.
pub enum FrameAction {
    CloseAndStop,
    Pong(Vec<u8>),
    Enqueue(MessageSource),
    Stop,
    Ignore,
}

/// The read-loop decision: a close frame is answered and ends the loop,
/// a ping is answered in place, a text frame is wrapped with the
/// connection's role and enqueued for the engine worker, a transport
/// failure ends this connection's loop alone (without a reply), and
/// anything else is ignored.
pub open spec fn spec_frame_action(role: Role, ev: FrameEvent) -> FrameAction {
    match ev {
        FrameEvent::Close => FrameAction::CloseAndStop,
        FrameEvent::Ping(p) => FrameAction::Pong(p),
        FrameEvent::Text(t) => FrameAction::Enqueue(
            spec_wrap_source(role, MessageFormat::Text(t)),
        ),
        FrameEvent::Failed => FrameAction::Stop,
        FrameEvent::Other => FrameAction::Ignore,
    }
}

pub fn frame_action(role: Role, ev: FrameEvent) -> (r: FrameAction)
    ensures
        r == spec_frame_action(role, ev),
{
    match ev {
        FrameEvent::Close => FrameAction::CloseAndStop,
        FrameEvent::Ping(p) => FrameAction::Pong(p),
        FrameEvent::Text(t) => {
            let src = match role {
                Role::DevCommand => pack_dev_comm(MessageFormat::Text(t)),
                Role::DevData => pack_dev_data(MessageFormat::Text(t)),
                Role::WebCommand => pack_web_comm(MessageFormat::Text(t)),
                Role::WebData => pack_web_data(MessageFormat::Text(t)),
            };
            FrameAction::Enqueue(src)
        },
        FrameEvent::Failed => FrameAction::Stop,
        FrameEvent::Other => FrameAction::Ignore,
    }
}

/// The group positions a broadcast is delivered to, given which weak
/// subscriber references still resolved: exactly the live ones, in
/// group order.
pub open spec fn spec_live_indices(live: Seq<bool>, n: int) -> Seq<usize>
    decreases n,
{
    if n <= 0 {
        Seq::<usize>::empty()
    } else {
        spec_live_indices(live, n - 1) + if live[n - 1] {
            seq![(n - 1) as usize]
        } else {
            Seq::<usize>::empty()
        }
    }
}

/// Plans a broadcast over one subscriber group: `live[i]` says whether
/// the `i`-th weak reference still resolves, and the result lists the
/// positions that are delivered to.
pub fn delivery_indices(live: &Vec<bool>) -> (r: Vec<usize>)
    ensures
        r@ == spec_live_indices(live@, live@.len() as int),
{
    let mut out: Vec<usize> = Vec::new();
    let n = live.len();
    let mut i: usize = 0;
    while i < n
        invariant
            i <= n,
            n == live@.len(),
            out@ == spec_live_indices(live@, i as int),
        decreases n - i,
    {
        if live[i] {
            out.push(i);
        }
        i += 1;
        proof {
            assert(out@ =~= spec_live_indices(live@, i as int));
        }
    }
    out
}

/// Weak-subscriber pruning law: a broadcast is delivered to every
/// subscriber whose reference still resolves and to no other, each once
/// and in group order; a dead reference is skipped, never an error.
pub proof fn lemma_delivery_covers_live(live: Seq<bool>, n: int)
    requires
        0 <= n <= live.len(),
        n <= usize::MAX,
    ensures
        forall|a: int, b: int|
            0 <= a < b < spec_live_indices(live, n).len() ==> spec_live_indices(live, n)[a]
                < spec_live_indices(live, n)[b],
        forall|a: int|
            0 <= a < spec_live_indices(live, n).len() ==> ((spec_live_indices(live, n)[a] as int)
                < n && live[spec_live_indices(live, n)[a] as int]),
        forall|i: int|
            0 <= i < n && live[i] ==> spec_live_indices(live, n).contains(i as usize),
    decreases n,
{
    if n > 0 {
        lemma_delivery_covers_live(live, n - 1);
        let prev = spec_live_indices(live, n - 1);
        let cur = spec_live_indices(live, n);
        assert(forall|a: int| 0 <= a < prev.len() ==> cur[a] == prev[a]);
        if live[n - 1] {
            assert(cur.len() == prev.len() + 1);
            assert(cur[cur.len() - 1] == (n - 1) as usize);
        } else {
            assert(cur =~= prev);
        }
        assert forall|a: int, b: int| 0 <= a < b < cur.len() implies cur[a] < cur[b] by {
            if b < prev.len() {
                assert(prev[a] < prev[b]);
            } else {
                assert((prev[a] as int) < n - 1);
            }
        }
        assert forall|a: int| 0 <= a < cur.len() implies ((cur[a] as int) < n && live[
            cur[a] as int
        ]) by {
            if a < prev.len() {
                assert((prev[a] as int) < n - 1);
            }
        }
        assert forall|i: int| 0 <= i < n && live[i] implies cur.contains(i as usize) by {
            if i < n - 1 {
                let a = choose|a: int| 0 <= a < prev.len() && prev[a] == i as usize;
                assert(cur[a] == i as usize);
            } else {
                assert(cur[cur.len() - 1] == i as usize);
            }
        }
    }
}

} // verus!
