//! What comes in from a swarm: events of a topic, and connections.
use crate::payload::strip_salt;
use crate::peers::{add_peer_for_topic, MsgId, NodeId, PeerRecord, TopicId};
use vstd::prelude::*;

verus! {

/// An event of a topic.
#[derive(Debug)]
pub enum SwarmEvent {
    /// There is a new direct neighbor.
    NeighborUp { node: NodeId },
    /// A direct neighbor is gone.
    NeighborDown { node: NodeId },
    /// A message came in.
    Received { content: Vec<u8> },
}

/// What an event asks for.
#[derive(Debug)]
pub enum SwarmAction {
    /// Store the peer, unless it is stored already.
    StorePeer { record: PeerRecord },
    /// Tell the user interface that data came in for the channel of a message.
    EmitRealtimeData { msg_id: MsgId, data: Vec<u8> },
    Nothing,
}

/// What a connection is for.
#[derive(Clone, Copy, Debug, PartialEq, Eq, Structural)]
pub enum ConnectionUse {
    /// It is handed to the gossip.
    Gossip,
    /// It is ignored: its protocol is not supported.
    Ignore,
}

/// Whether an action is the one that an event of a topic asks for.
pub open spec fn event_asks(
    msg_id: MsgId,
    topic: TopicId,
    event: SwarmEvent,
    action: SwarmAction,
) -> bool {
    match event {
        SwarmEvent::NeighborUp { node } => action matches SwarmAction::StorePeer { record }
            && record.msg_id == msg_id && record.topic@ == topic@ && record.row@ == (
        crate::peers::PeerRowView { public_key: node@, relay_server: None }),
        SwarmEvent::NeighborDown { .. } => action is Nothing,
        SwarmEvent::Received { content } => action matches SwarmAction::EmitRealtimeData {
            msg_id: id,
            data,
        } && id == msg_id && data@ == crate::payload::unsalted(content@),
    }
}

/// Data that comes in with any eight bytes behind it reaches the user interface without
/// them, for the message that the channel belongs to.
pub proof fn law_received_data_is_passed_on(
    msg_id: MsgId,
    topic: TopicId,
    content: Vec<u8>,
    data: Seq<u8>,
    salt: Seq<u8>,
    action: SwarmAction,
)
    ensures
        event_asks(msg_id, topic, SwarmEvent::Received { content }, action) && salt.len() == 8
            && content@ == data + salt ==> (action matches SwarmAction::EmitRealtimeData {
            msg_id: id,
            data: emitted,
        } && id == msg_id && emitted@ == data),
{
    if salt.len() == 8 {
        crate::payload::law_data_is_received_as_sent(data, salt);
    }
}

/// A new neighbor is remembered so that it is later read as a peer with its own key and
/// without a relay; a neighbor that is gone is not forgotten.
pub proof fn law_neighbor_becomes_a_peer(
    msg_id: MsgId,
    topic: TopicId,
    node: NodeId,
    action: SwarmAction,
)
    ensures
        event_asks(msg_id, topic, SwarmEvent::NeighborUp { node }, action) ==> (action
            matches SwarmAction::StorePeer { record } && record.msg_id == msg_id && record.topic@
            == topic.bytes@ && record.row.public_key@ == node.bytes@ && record.row.relay_server
            is None && (crate::peers::is_node_key(node.bytes@) ==> crate::peers::is_readable(
            record.row,
        ))),
        event_asks(msg_id, topic, SwarmEvent::NeighborDown { node }, action) ==> action is Nothing,
{
    if let SwarmAction::StorePeer { record } = action {
        if event_asks(msg_id, topic, SwarmEvent::NeighborUp { node }, action) {
            assert(record.row@.public_key == node@);
            assert(record.row@.relay_server is None);
        }
    }
}

/// Decides upon an event of a topic: a new neighbor is remembered as a peer, without a
/// relay, and a message is passed on without its salt.
pub fn handle_event(msg_id: MsgId, topic: &TopicId, event: SwarmEvent) -> (r: SwarmAction)
    requires
        event matches SwarmEvent::Received { content } ==> content@.len()
            >= crate::payload::SALT_LEN,
    ensures
        event_asks(msg_id, *topic, event, r),
{
    match event {
        SwarmEvent::NeighborUp { node } => SwarmAction::StorePeer {
            record: add_peer_for_topic(msg_id, topic, &node, None),
        },
        SwarmEvent::NeighborDown { .. } => SwarmAction::Nothing,
        SwarmEvent::Received { content } => SwarmAction::EmitRealtimeData {
            msg_id,
            data: strip_salt(&content),
        },
    }
}

/// The protocol that gossip connections announce.
pub open spec fn gossip_alpn() -> Seq<u8> {
    "/iroh-gossip/0"@.map_values(|c: char| c as u8)
}

/// The protocol that gossip connections announce, as the endpoint is to accept it.
pub fn accepted_alpn() -> (r: Vec<u8>)
    ensures
        r@ == gossip_alpn(),
{
    let r = "/iroh-gossip/0".as_bytes_vec();
    proof {
        reveal_strlit("/iroh-gossip/0");
        assert("/iroh-gossip/0".is_ascii());
        assert(r@ =~= gossip_alpn());
    }
    r
}

/// What a connection is for, by the protocol that it announces.
pub open spec fn connection_use(alpn: Seq<u8>) -> ConnectionUse {
    if alpn == gossip_alpn() {
        ConnectionUse::Gossip
    } else {
        ConnectionUse::Ignore
    }
}

/// Connections of one protocol are handed to the gossip, and all others are ignored.
pub proof fn law_only_gossip_connections_are_used(alpn: Seq<u8>)
    ensures
        connection_use(alpn) == ConnectionUse::Gossip <==> alpn == "/iroh-gossip/0"@.map_values(
            |c: char| c as u8,
        ),
{
}

/// Decides upon an incoming connection by the protocol that it announces.
pub fn handle_connection(alpn: &[u8]) -> (r: ConnectionUse)
    ensures
        r == connection_use(alpn@),
{
    let gossip = accepted_alpn();
    if alpn.len() != gossip.len() {
        return ConnectionUse::Ignore;
    }
    let mut i: usize = 0;
    while i < alpn.len()
        invariant
            i <= alpn.len() == gossip.len(),
            gossip@ == gossip_alpn(),
            forall|j: int| 0 <= j < i ==> alpn@[j] == gossip@[j],
        decreases alpn.len() - i,
    {
        if alpn[i] != gossip[i] {
            return ConnectionUse::Ignore;
        }
        i = i + 1;
    }
    assert(alpn@ =~= gossip@);
    ConnectionUse::Gossip
}

} // verus!
