//! What holds of whole operations on realtime channels, however many steps they take.
use crate::channels::{
    AdvertiseStep, ChannelError, ChannelReply, ContextView, InitStep, JoinStep, LeaveStep, SendStep,
    SystemMessage, Viewtype,
};
use crate::peers::{NodeAddr, NodeId, PeerRow, TopicId};
use vstd::prelude::*;

verus! {

/// Whether some replies, one after the other, lead from one step to join a topic to another,
/// and from one state to the other.
pub open spec fn join_runs(
    before: ContextView,
    step: JoinStep,
    replies: Seq<ChannelReply>,
    after: ContextView,
    end: JoinStep,
) -> bool
    decreases replies.len(),
{
    if replies.len() == 0 {
        after == before && end == step
    } else {
        exists|mid: ContextView, next: JoinStep| #[trigger]
            crate::channels::join_follows(before, step, replies[0], mid, next) && join_runs(
                mid,
                next,
                replies.skip(1),
                after,
                end,
            )
    }
}

/// Whether some replies, one after the other, lead from one step to send data to another,
/// and from one state to the other.
pub open spec fn send_runs(
    before: ContextView,
    step: SendStep,
    replies: Seq<ChannelReply>,
    after: ContextView,
    end: SendStep,
) -> bool
    decreases replies.len(),
{
    if replies.len() == 0 {
        after == before && end == step
    } else {
        exists|mid: ContextView, next: SendStep| #[trigger]
            crate::channels::send_follows(before, step, replies[0], mid, next) && send_runs(
                mid,
                next,
                replies.skip(1),
                after,
                end,
            )
    }
}

/// Whether the relay that the endpoint uses can be read.
pub open spec fn relay_is_readable() -> bool {
    crate::peers::relay_url_of("https://iroh.testrun.org:4443"@) is Some
}

/// Whether nothing failed outside, and the stored peers can be read.
pub open spec fn is_good(reply: ChannelReply) -> bool {
    &&& !(reply is Failed)
    &&& reply matches ChannelReply::Peers { rows } ==> forall|i: int|
        0 <= i < rows@.len() ==> crate::peers::is_readable(#[trigger] rows@[i])
}

/// Whether a reply, if it is a topic, is the one with these bytes.
pub open spec fn keeps_topic(reply: ChannelReply, bytes: Seq<u8>) -> bool {
    reply matches ChannelReply::Topic { bytes: b } ==> b@ == bytes
}

/// Whether the step is to bind the endpoint with this key, to the one relay and with the
/// one protocol.
pub open spec fn binds_with(step: InitStep, key: Seq<u8>) -> bool {
    step matches InitStep::BindEndpoint { secret_key, alpn, relay_url } && secret_key@ == key
        && alpn@ == "/iroh-gossip/0"@.map_values(|c: char| c as u8)
        && crate::peers::relay_url_of("https://iroh.testrun.org:4443"@) == Some(relay_url@)
}

/// A failure outside ends every operation with an error that says so, and leaves the state
/// as it was.
pub proof fn law_failure_is_reported(
    before: ContextView,
    after: ContextView,
    init: InitStep,
    init_next: InitStep,
    join: JoinStep,
    join_next: JoinStep,
    advertise: AdvertiseStep,
    advertise_next: AdvertiseStep,
    send: SendStep,
    send_next: SendStep,
    leave: LeaveStep,
    leave_next: LeaveStep,
)
    ensures
        crate::channels::init_follows(before, init, ChannelReply::Failed, after, init_next)
            ==> after == before && init_next == (InitStep::Finished {
            result: Err(ChannelError::Outside),
        }),
        crate::channels::join_follows(before, join, ChannelReply::Failed, after, join_next)
            ==> after == before && join_next == (JoinStep::Finished {
            result: Err(ChannelError::Outside),
        }),
        crate::channels::advertise_follows(
            before,
            advertise,
            ChannelReply::Failed,
            after,
            advertise_next,
        ) ==> after == before && advertise_next == (AdvertiseStep::Finished {
            result: Err(ChannelError::Outside),
        }),
        crate::channels::send_follows(before, send, ChannelReply::Failed, after, send_next)
            ==> after == before && send_next == (SendStep::Finished {
            result: Err(ChannelError::Outside),
        }),
        crate::channels::leave_follows(before, leave, ChannelReply::Failed, after, leave_next)
            ==> after == before && leave_next == (LeaveStep::Finished {
            result: Err(ChannelError::Outside),
        }),
        !(init is Finished) ==> crate::channels::init_answers(ChannelReply::Failed, init),
        !(join is Finished) && !(join matches JoinStep::Init { step } && step is Finished)
            ==> crate::channels::join_answers(ChannelReply::Failed, join),
        !(leave is Finished) ==> crate::channels::leave_answers(ChannelReply::Failed, leave),
{
    let failed = ChannelReply::Failed;
    assert forall|b: ContextView, j: JoinStep, a: ContextView, n: JoinStep| #[trigger]
        crate::channels::join_follows(b, j, failed, a, n) implies a == b && n == (
    JoinStep::Finished { result: Err(ChannelError::Outside) }) by {
        if let JoinStep::Init { step } = j {
            let i = choose|i: InitStep| #[trigger]
                crate::channels::init_follows(b, step, failed, a, i)
                    && crate::channels::join_after_init(a, i, n);
            assert(crate::channels::init_follows(b, step, failed, a, i));
        }
    }
    assert forall|b: ContextView, s: AdvertiseStep, a: ContextView, n: AdvertiseStep| #[trigger]
        crate::channels::advertise_follows(b, s, failed, a, n) implies a == b && n == (
    AdvertiseStep::Finished { result: Err(ChannelError::Outside) }) by {
        if let AdvertiseStep::Join { step } = s {
            let j = choose|j: JoinStep| #[trigger]
                crate::channels::join_follows(b, step, failed, a, j)
                    && crate::channels::advertise_after_join(j, n);
            assert(crate::channels::join_follows(b, step, failed, a, j));
        }
    }
    if crate::channels::send_follows(before, send, failed, after, send_next) {
        if let SendStep::Advertise { topic, data, step } = send {
            let s = choose|s: AdvertiseStep| #[trigger]
                crate::channels::advertise_follows(before, step, failed, after, s)
                    && crate::channels::send_after_advertise(after, topic, data, s, send_next);
            assert(crate::channels::advertise_follows(before, step, failed, after, s));
        }
    }
}

/// Where there is no endpoint, one is bound: with the key of the record where that can be
/// read, and else with the new key that was stored first. The node that it is bound as is
/// the endpoint from then on.
pub proof fn law_endpoint_is_created(
    before: ContextView,
    stored: Option<String>,
    loaded: ContextView,
    first: InitStep,
    saved: ContextView,
    second: InitStep,
    node_id: NodeId,
    bound: ContextView,
    end: InitStep,
)
    ensures
        before.endpoint is None && relay_is_readable() && crate::channels::init_follows(
            before,
            InitStep::LoadSecretKey,
            ChannelReply::SecretKey { stored },
            loaded,
            first,
        ) ==> {
            &&& loaded == before
            &&& stored matches Some(text) ==> (crate::secret_key::secret_key_of(text@)
                matches Some(key) ==> binds_with(first, key))
            &&& (stored matches Some(text) ==> crate::secret_key::secret_key_of(text@) is None)
                ==> {
                &&& first matches InitStep::StoreSecretKey { secret_key, text }
                    && crate::secret_key::secret_key_of(text@) == Some(secret_key@)
                &&& crate::channels::init_follows(loaded, first, ChannelReply::Done, saved, second)
                    ==> saved == before && binds_with(second, first->StoreSecretKey_secret_key@)
            }
        },
        second is BindEndpoint && crate::channels::init_follows(
            before,
            second,
            ChannelReply::Bound { node_id },
            bound,
            end,
        ) ==> bound.endpoint == Some(node_id.bytes@) && bound.channels == before.channels && end
            == (InitStep::Finished { result: Ok(()) }),
{
}

/// Nothing is skipped in creating the endpoint: none is bound where there is one, it succeeds
/// only where one was bound or was there before, and it fails only where something failed
/// outside or the relay cannot be read.
pub proof fn law_nothing_is_skipped_in_creating(
    before: ContextView,
    step: InitStep,
    reply: ChannelReply,
    after: ContextView,
    next: InitStep,
)
    ensures
        crate::channels::init_follows(before, step, reply, after, next) ==> match next {
            InitStep::LoadSecretKey => false,
            InitStep::StoreSecretKey { .. } => step is LoadSecretKey && reply is SecretKey,
            InitStep::BindEndpoint { secret_key, .. } => before.endpoint is None && (
            step is LoadSecretKey || (step matches InitStep::StoreSecretKey { secret_key: key, .. }
                && key@ == secret_key@)),
            InitStep::Finished { result: Ok(_) } => before.endpoint is Some || step is BindEndpoint
                && reply is Bound,
            InitStep::Finished { result: Err(_) } => reply is Failed || !relay_is_readable(),
        },
        crate::channels::init_follows(before, step, reply, after, next) && reply is Bound ==> step
            is BindEndpoint,
{
}

/// The own address is that of the endpoint, with its relay, wherever there is an endpoint.
pub proof fn law_own_address_is_that_of_the_endpoint(
    ctx: ContextView,
    relay: Option<String>,
    r: Result<NodeAddr, ChannelError>,
)
    ensures
        crate::channels::is_own_addr(ctx, relay, r) ==> match ctx.endpoint {
            Some(node) => r matches Ok(addr) && addr.node_id.bytes@ == node && addr.relay_url
                == relay,
            None => r == Err::<NodeAddr, ChannelError>(ChannelError::NoGossip),
        },
{
}

/// The endpoint changes only when one is bound, and is then the node that it was bound as.
pub proof fn law_endpoint_is_the_bound_node(
    before: ContextView,
    reply: ChannelReply,
    after: ContextView,
    init: InitStep,
    init_next: InitStep,
    join: JoinStep,
    join_next: JoinStep,
    advertise: AdvertiseStep,
    advertise_next: AdvertiseStep,
    send: SendStep,
    send_next: SendStep,
    leave: LeaveStep,
    leave_next: LeaveStep,
)
    ensures
        crate::channels::init_follows(before, init, reply, after, init_next)
            || crate::channels::join_follows(before, join, reply, after, join_next)
            || crate::channels::advertise_follows(before, advertise, reply, after, advertise_next)
            || crate::channels::send_follows(before, send, reply, after, send_next)
            ==> match reply {
            ChannelReply::Bound { node_id } => after.endpoint == Some(node_id.bytes@),
            _ => after.endpoint == before.endpoint,
        },
        crate::channels::leave_follows(before, leave, reply, after, leave_next) ==> after.endpoint
            == before.endpoint,
{
    assert forall|b: ContextView, j: JoinStep, a: ContextView, n: JoinStep| #[trigger]
        crate::channels::join_follows(b, j, reply, a, n) implies match reply {
        ChannelReply::Bound { node_id } => a.endpoint == Some(node_id.bytes@),
        _ => a.endpoint == b.endpoint,
    } by {
        if let JoinStep::Init { step } = j {
            let i = choose|i: InitStep| #[trigger]
                crate::channels::init_follows(b, step, reply, a, i)
                    && crate::channels::join_after_init(a, i, n);
            assert(crate::channels::init_follows(b, step, reply, a, i));
        }
    }
    assert forall|b: ContextView, s: AdvertiseStep, a: ContextView, n: AdvertiseStep| #[trigger]
        crate::channels::advertise_follows(b, s, reply, a, n) implies match reply {
        ChannelReply::Bound { node_id } => a.endpoint == Some(node_id.bytes@),
        _ => a.endpoint == b.endpoint,
    } by {
        if let AdvertiseStep::Join { step } = s {
            let j = choose|j: JoinStep| #[trigger]
                crate::channels::join_follows(b, step, reply, a, j)
                    && crate::channels::advertise_after_join(j, n);
            assert(crate::channels::join_follows(b, step, reply, a, j));
        }
    }
    if crate::channels::send_follows(before, send, reply, after, send_next) {
        if let SendStep::Advertise { topic, data, step } = send {
            let s = choose|s: AdvertiseStep| #[trigger]
                crate::channels::advertise_follows(before, step, reply, after, s)
                    && crate::channels::send_after_advertise(after, topic, data, s, send_next);
            assert(crate::channels::advertise_follows(before, step, reply, after, s));
        }
    }
}

/// Joining begins with loading the peers other than the own node where there is an endpoint,
/// and with creating the endpoint where there is none. Creating it leads there too.
pub proof fn law_joining_begins_with_the_endpoint(
    before: ContextView,
    first: JoinStep,
    node_id: NodeId,
    bind: InitStep,
    after: ContextView,
    next: JoinStep,
)
    ensures
        crate::channels::join_begins(before, first) ==> match before.endpoint {
            Some(own) => first matches JoinStep::LoadPeers { own: o } && o.bytes@ == own,
            None => first == (JoinStep::Init { step: InitStep::LoadSecretKey }),
        },
        bind is BindEndpoint && crate::channels::join_follows(
            before,
            JoinStep::Init { step: bind },
            ChannelReply::Bound { node_id },
            after,
            next,
        ) ==> (next matches JoinStep::LoadPeers { own } && own.bytes@ == node_id.bytes@),
{
    if crate::channels::join_follows(
        before,
        JoinStep::Init { step: bind },
        ChannelReply::Bound { node_id },
        after,
        next,
    ) {
        let i = choose|i: InitStep| #[trigger]
            crate::channels::init_follows(
                before,
                bind,
                ChannelReply::Bound { node_id },
                after,
                i,
            ) && crate::channels::join_after_init(after, i, next);
        assert(crate::channels::init_follows(
            before,
            bind,
            ChannelReply::Bound { node_id },
            after,
            i,
        ));
    }
}

/// Advertising in a channel whose topic is not remembered goes on with joining it, with or
/// without an endpoint: with loading the peers where there is one, and with creating it where
/// there is none. Where the topic is remembered, nothing more is done.
pub proof fn law_advertising_goes_on_with_joining(
    before: ContextView,
    bytes: Vec<u8>,
    after: ContextView,
    next: AdvertiseStep,
)
    ensures
        crate::channels::advertise_follows(
            before,
            AdvertiseStep::LoadTopic,
            ChannelReply::Topic { bytes },
            after,
            next,
        ) ==> if before.channels.contains(bytes@) {
            after == before && next == (AdvertiseStep::Finished { result: Ok(None) })
        } else {
            next matches AdvertiseStep::Join { step } && match before.endpoint {
                Some(own) => step matches JoinStep::LoadPeers { own: o } && o.bytes@ == own,
                None => step == (JoinStep::Init { step: InitStep::LoadSecretKey }),
            }
        },
{
}

/// As many replies that a step was done.
pub open spec fn dones(n: nat) -> Seq<ChannelReply> {
    Seq::new(n, |i: int| ChannelReply::Done)
}

proof fn lemma_peers_are_added(
    before: ContextView,
    peers: Vec<NodeAddr>,
    next: usize,
    n: nat,
    after: ContextView,
    end: JoinStep,
)
    requires
        next + n <= peers@.len(),
        next < peers@.len(),
        join_runs(before, JoinStep::AddNodeAddr { peers, next }, dones(n), after, end),
    ensures
        after == before,
        next + n < peers@.len() ==> (end matches JoinStep::AddNodeAddr { peers: p, next: m } && p
            == peers && m == next + n),
        next + n == peers@.len() ==> end == (JoinStep::LoadTopic { peers }),
    decreases n,
{
    let step = JoinStep::AddNodeAddr { peers, next };
    let replies = dones(n);
    assert(peers.len() == peers@.len());
    if n > 0 {
        assert(replies[0] is Done);
        assert(replies.skip(1) =~= dones((n - 1) as nat));
        let (mid, s) = choose|mid: ContextView, s: JoinStep| #[trigger]
            crate::channels::join_follows(before, step, replies[0], mid, s) && join_runs(
                mid,
                s,
                replies.skip(1),
                after,
                end,
            );
        assert(crate::channels::join_follows(before, step, replies[0], mid, s));
        if next + 1 < peers@.len() {
            lemma_peers_are_added(mid, peers, (next + 1) as usize, (n - 1) as nat, after, end);
        } else {
            assert(replies.skip(1).len() == 0);
        }
    }
}

/// The endpoint is told of each stored peer that was loaded, in order and with its own
/// address, and only then the topic is loaded. The topic that was loaded is joined with the
/// keys of all these peers.
pub proof fn law_topic_is_joined_with_all_peers(
    before: ContextView,
    own: NodeId,
    rows: Vec<PeerRow>,
    n: nat,
    mid: ContextView,
    end: JoinStep,
    bytes: Vec<u8>,
    after: ContextView,
    last: JoinStep,
)
    ensures
        is_good(ChannelReply::Peers { rows }) && n <= rows@.len() && join_runs(
            before,
            JoinStep::LoadPeers { own },
            seq![ChannelReply::Peers { rows }] + dones(n),
            mid,
            end,
        ) ==> mid == before && if n < rows@.len() {
            end matches JoinStep::AddNodeAddr { peers, next } && next == n && peers@.len()
                == rows@.len() && crate::peers::is_addr_of(peers@[n as int], rows@[n as int])
        } else {
            &&& end is LoadTopic
            &&& crate::channels::join_follows(
                mid,
                end,
                ChannelReply::Topic { bytes },
                after,
                last,
            ) ==> (last matches JoinStep::Join { topic, nodes } && topic.bytes@ == bytes@ && nodes@.len()
                == rows@.len() && forall|i: int|
                0 <= i < rows@.len() ==> (#[trigger] nodes@[i]).bytes@ == rows@[i].public_key@)
        },
{
    let peers_reply = ChannelReply::Peers { rows };
    let all = seq![peers_reply] + dones(n);
    let step = JoinStep::LoadPeers { own };
    if is_good(peers_reply) && n <= rows@.len() && join_runs(before, step, all, mid, end) {
        assert(all[0] == peers_reply);
        assert(all.skip(1) =~= dones(n));
        let (c, s) = choose|c: ContextView, s: JoinStep| #[trigger]
            crate::channels::join_follows(before, step, all[0], c, s) && join_runs(
                c,
                s,
                all.skip(1),
                mid,
                end,
            );
        assert(crate::channels::join_follows(before, step, all[0], c, s));
        match s {
            JoinStep::AddNodeAddr { peers, next } => {
                crate::peers::law_readable_peers_are_read(rows@, Ok(peers));
                assert(rows@.len() > 0 && peers@.len() == rows@.len());
                lemma_peers_are_added(c, peers, next, n, mid, end);
            },
            JoinStep::LoadTopic { .. } => {
                assert(dones(n).len() == 0);
            },
            JoinStep::Finished { result } => {
                if let Err(ChannelError::BadPeer(e)) = result {
                    crate::peers::law_readable_peers_are_read(rows@, Err(e));
                }
            },
            _ => {},
        }
    }
}

/// Nothing is skipped in joining: each step comes of the one before it and of what that one
/// asked for, and a topic is joined only where the swarm was joined.
pub proof fn law_nothing_is_skipped_in_joining(
    before: ContextView,
    step: JoinStep,
    reply: ChannelReply,
    after: ContextView,
    next: JoinStep,
)
    ensures
        crate::channels::join_follows(before, step, reply, after, next) ==> match next {
            JoinStep::Init { .. } => step is Init,
            JoinStep::LoadPeers { own } => step is Init && after.endpoint == Some(own.bytes@),
            JoinStep::AddNodeAddr { peers, next: n } => if n == 0 {
                step is LoadPeers && reply is Peers
            } else {
                step == (JoinStep::AddNodeAddr { peers, next: (n - 1) as usize }) && reply is Done
            },
            JoinStep::LoadTopic { peers } => {
                ||| step is LoadPeers && peers@.len() == 0 && (reply matches ChannelReply::Peers {
                    rows,
                } && rows@.len() == 0)
                ||| step matches JoinStep::AddNodeAddr { peers: p, next: n } && p == peers && n + 1
                    >= peers@.len() && reply is Done
            },
            JoinStep::Join { topic, .. } => step is LoadTopic && (reply
                matches ChannelReply::Topic { bytes } && topic.bytes@ == bytes@),
            JoinStep::Finished { result: Ok(joined) } => step matches JoinStep::Join { topic, .. }
                && topic == joined && reply is Done,
            JoinStep::Finished { result: Err(_) } => reply is Failed || step is Init || (reply
                matches ChannelReply::Peers { rows } && !is_good(reply)),
        },
{
    if crate::channels::join_follows(before, step, reply, after, next) {
        if let JoinStep::Init { step: init_step } = step {
            let init = choose|init: InitStep| #[trigger]
                crate::channels::init_follows(before, init_step, reply, after, init)
                    && crate::channels::join_after_init(after, init, next);
            assert(crate::channels::init_follows(before, init_step, reply, after, init));
        }
        if let JoinStep::AddNodeAddr { peers, .. } = step {
            assert(peers.len() == peers@.len());
        }
        if let ChannelReply::Peers { rows } = reply {
            if let JoinStep::Finished { result } = next {
                if let Err(ChannelError::BadPeer(e)) = result {
                    crate::peers::law_readable_peers_are_read(rows@, Err(e));
                }
            }
        }
    }
}

/// Nothing is skipped in advertising: the message is sent only once the topic was joined, and
/// advertising succeeds only once the message was sent.
pub proof fn law_nothing_is_skipped_in_advertising(
    before: ContextView,
    step: AdvertiseStep,
    reply: ChannelReply,
    after: ContextView,
    next: AdvertiseStep,
)
    ensures
        crate::channels::advertise_follows(before, step, reply, after, next) ==> match next {
            AdvertiseStep::LoadTopic => false,
            AdvertiseStep::Join { .. } => step is Join || step is LoadTopic && (reply
                matches ChannelReply::Topic { bytes } && !before.channels.contains(bytes@)),
            AdvertiseStep::LoadWebxdc { topic } => step matches AdvertiseStep::Join { step: j }
                && j matches JoinStep::Join { topic: joined, .. } && joined == topic && reply
                is Done,
            AdvertiseStep::SendMessage { topic, .. } => step == (AdvertiseStep::LoadWebxdc {
                topic,
            }) && reply is Webxdc,
            AdvertiseStep::Finished { result: Ok(Some(topic)) } => step
                matches AdvertiseStep::SendMessage { topic: t, .. } && t == topic && reply is Done,
            AdvertiseStep::Finished { result: Ok(None) } => step is LoadTopic && (reply
                matches ChannelReply::Topic { bytes } && before.channels.contains(bytes@)),
            AdvertiseStep::Finished { result: Err(_) } => reply is Failed || step is Join,
        },
{
    if crate::channels::advertise_follows(before, step, reply, after, next) {
        if let AdvertiseStep::Join { step: join_step } = step {
            let join = choose|join: JoinStep| #[trigger]
                crate::channels::join_follows(before, join_step, reply, after, join)
                    && crate::channels::advertise_after_join(join, next);
            law_nothing_is_skipped_in_joining(before, join_step, reply, after, join);
        }
    }
}

/// The advertisement is a hidden text in the chat of the message that the channel belongs to,
/// a reply to that message, and announces the node.
pub proof fn law_advertisement_replies_to_its_message(
    before: ContextView,
    topic: TopicId,
    rfc724_mid: String,
    chat_id: u32,
    after: ContextView,
    next: AdvertiseStep,
)
    ensures
        crate::channels::advertise_follows(
            before,
            AdvertiseStep::LoadWebxdc { topic },
            ChannelReply::Webxdc { rfc724_mid, chat_id },
            after,
            next,
        ) ==> (next matches AdvertiseStep::SendMessage { topic: t, chat_id: c, message } && t
            == topic && c == chat_id && message.hidden && message.viewtype == Viewtype::Text
            && message.cmd == SystemMessage::IrohNodeAddr && (message.in_reply_to matches Some(mid)
            && mid@ == rfc724_mid@)),
{
}

/// Whether joining goes well: the endpoint is there once it was created, the topic is the one
/// with these bytes, and there is no error.
spec fn join_goes_well(ctx: ContextView, step: JoinStep, bytes: Seq<u8>) -> bool {
    match step {
        JoinStep::Init { step } => !(step is Finished),
        JoinStep::Join { topic, .. } => ctx.endpoint is Some && topic.bytes@ == bytes,
        JoinStep::Finished { result } => result matches Ok(topic) && topic.bytes@ == bytes
            && ctx.endpoint is Some,
        _ => ctx.endpoint is Some,
    }
}

proof fn lemma_join_goes_well(
    before: ContextView,
    step: JoinStep,
    reply: ChannelReply,
    after: ContextView,
    next: JoinStep,
    bytes: Seq<u8>,
)
    requires
        relay_is_readable(),
        join_goes_well(before, step, bytes),
        is_good(reply),
        keeps_topic(reply, bytes),
        crate::channels::join_follows(before, step, reply, after, next),
    ensures
        join_goes_well(after, next, bytes),
{
    law_nothing_is_skipped_in_joining(before, step, reply, after, next);
    if let JoinStep::Init { step: init_step } = step {
        let init = choose|init: InitStep| #[trigger]
            crate::channels::init_follows(before, init_step, reply, after, init)
                && crate::channels::join_after_init(after, init, next);
        assert(crate::channels::init_follows(before, init_step, reply, after, init));
        crate::channels::law_init_gives_an_endpoint(before, init_step, reply, after, init);
    }
}

/// Whether advertising goes well.
spec fn advertise_goes_well(ctx: ContextView, step: AdvertiseStep, bytes: Seq<u8>) -> bool {
    match step {
        AdvertiseStep::LoadTopic => !ctx.channels.contains(bytes),
        AdvertiseStep::Join { step } => join_goes_well(ctx, step, bytes) && !(step is Finished),
        AdvertiseStep::LoadWebxdc { topic } => ctx.endpoint is Some && topic.bytes@ == bytes,
        AdvertiseStep::SendMessage { topic, .. } => ctx.endpoint is Some && topic.bytes@ == bytes,
        AdvertiseStep::Finished { result } => result matches Ok(Some(topic)) && topic.bytes@
            == bytes && ctx.endpoint is Some,
    }
}

proof fn lemma_advertise_goes_well(
    before: ContextView,
    step: AdvertiseStep,
    reply: ChannelReply,
    after: ContextView,
    next: AdvertiseStep,
    bytes: Seq<u8>,
)
    requires
        relay_is_readable(),
        advertise_goes_well(before, step, bytes),
        is_good(reply),
        keeps_topic(reply, bytes),
        crate::channels::advertise_follows(before, step, reply, after, next),
    ensures
        advertise_goes_well(after, next, bytes),
{
    law_nothing_is_skipped_in_advertising(before, step, reply, after, next);
    if let AdvertiseStep::Join { step: join_step } = step {
        let join = choose|join: JoinStep| #[trigger]
            crate::channels::join_follows(before, join_step, reply, after, join)
                && crate::channels::advertise_after_join(join, next);
        lemma_join_goes_well(before, join_step, reply, after, join, bytes);
    }
}

proof fn lemma_advertise_run_goes_well(
    before: ContextView,
    step: AdvertiseStep,
    replies: Seq<ChannelReply>,
    after: ContextView,
    end: AdvertiseStep,
    bytes: Seq<u8>,
)
    requires
        relay_is_readable(),
        advertise_goes_well(before, step, bytes),
        forall|i: int|
            0 <= i < replies.len() ==> is_good(#[trigger] replies[i]) && keeps_topic(
                replies[i],
                bytes,
            ),
        crate::channels::advertise_runs(before, step, replies, after, end),
    ensures
        advertise_goes_well(after, end, bytes),
    decreases replies.len(),
{
    if replies.len() > 0 {
        let (mid, next) = choose|mid: ContextView, next: AdvertiseStep| #[trigger]
            crate::channels::advertise_follows(before, step, replies[0], mid, next)
                && crate::channels::advertise_runs(mid, next, replies.skip(1), after, end);
        assert(is_good(replies[0]));
        lemma_advertise_goes_well(before, step, replies[0], mid, next, bytes);
        let rest = replies.skip(1);
        assert forall|i: int| 0 <= i < rest.len() implies is_good(#[trigger] rest[i])
            && keeps_topic(rest[i], bytes) by {
            assert(rest[i] == replies[i + 1]);
        }
        lemma_advertise_run_goes_well(mid, next, rest, after, end, bytes);
    }
}

/// Advertising in a channel whose topic is not remembered succeeds wherever nothing fails
/// outside, with or without an endpoint before. It ends with the topic joined and an endpoint
/// there, and no sooner than the message was sent.
pub proof fn law_advertising_succeeds(
    before: ContextView,
    replies: Seq<ChannelReply>,
    after: ContextView,
    end: AdvertiseStep,
    bytes: Seq<u8>,
)
    ensures
        relay_is_readable() && !before.channels.contains(bytes) && (forall|i: int|
            0 <= i < replies.len() ==> is_good(#[trigger] replies[i]) && keeps_topic(
                replies[i],
                bytes,
            )) && crate::channels::advertise_runs(
            before,
            AdvertiseStep::LoadTopic,
            replies,
            after,
            end,
        ) ==> match end {
            AdvertiseStep::Finished { result } => result matches Ok(Some(topic)) && topic.bytes@
                == bytes && after.endpoint is Some,
            AdvertiseStep::SendMessage { topic, .. } => topic.bytes@ == bytes && after.endpoint
                is Some,
            AdvertiseStep::LoadWebxdc { topic } => topic.bytes@ == bytes && after.endpoint is Some,
            _ => true,
        },
{
    if relay_is_readable() && !before.channels.contains(bytes) && (forall|i: int|
        0 <= i < replies.len() ==> is_good(#[trigger] replies[i]) && keeps_topic(
            replies[i],
            bytes,
        )) && crate::channels::advertise_runs(
        before,
        AdvertiseStep::LoadTopic,
        replies,
        after,
        end,
    ) {
        lemma_advertise_run_goes_well(
            before,
            AdvertiseStep::LoadTopic,
            replies,
            after,
            end,
            bytes,
        );
    }
}

/// Without an endpoint before, advertising creates it first: the key is loaded and, where it
/// is new, stored; the endpoint is bound; and then the peers other than its node are loaded.
pub proof fn law_first_advertisement_creates_the_endpoint(
    before: ContextView,
    bytes: Vec<u8>,
    c1: ContextView,
    s1: AdvertiseStep,
    stored: Option<String>,
    c2: ContextView,
    s2: AdvertiseStep,
    c3: ContextView,
    s3: AdvertiseStep,
    bind: InitStep,
    node_id: NodeId,
    c4: ContextView,
    s4: AdvertiseStep,
)
    ensures
        before.endpoint is None && !before.channels.contains(bytes@) && relay_is_readable()
            && crate::channels::advertise_follows(
            before,
            AdvertiseStep::LoadTopic,
            ChannelReply::Topic { bytes },
            c1,
            s1,
        ) && crate::channels::advertise_follows(
            c1,
            s1,
            ChannelReply::SecretKey { stored },
            c2,
            s2,
        ) ==> {
            ||| s2 matches AdvertiseStep::Join { step } && step matches JoinStep::Init { step: i }
                && (stored matches Some(text) && crate::secret_key::secret_key_of(text@)
                matches Some(key) && binds_with(i, key))
            ||| s2 matches AdvertiseStep::Join { step } && step matches JoinStep::Init { step: i }
                && (i matches InitStep::StoreSecretKey { secret_key, .. } && (
            crate::channels::advertise_follows(c2, s2, ChannelReply::Done, c3, s3) ==> (s3
                matches AdvertiseStep::Join { step } && step matches JoinStep::Init { step: i }
                && binds_with(i, secret_key@))))
        },
        bind is BindEndpoint && crate::channels::advertise_follows(
            c3,
            AdvertiseStep::Join { step: JoinStep::Init { step: bind } },
            ChannelReply::Bound { node_id },
            c4,
            s4,
        ) ==> (s4 matches AdvertiseStep::Join { step } && step matches JoinStep::LoadPeers { own }
            && own.bytes@ == node_id.bytes@ && c4.endpoint == Some(node_id.bytes@)),
{
    let topic_reply = ChannelReply::Topic { bytes };
    let key_reply = ChannelReply::SecretKey { stored };
    if before.endpoint is None && !before.channels.contains(bytes@) && relay_is_readable()
        && crate::channels::advertise_follows(
        before,
        AdvertiseStep::LoadTopic,
        topic_reply,
        c1,
        s1,
    ) && crate::channels::advertise_follows(c1, s1, key_reply, c2, s2) {
        let j1 = JoinStep::Init { step: InitStep::LoadSecretKey };
        assert(s1 == (AdvertiseStep::Join { step: j1 }));
        let j2 = choose|j: JoinStep| #[trigger]
            crate::channels::join_follows(c1, j1, key_reply, c2, j)
                && crate::channels::advertise_after_join(j, s2);
        assert(crate::channels::join_follows(c1, j1, key_reply, c2, j2));
        let i2 = choose|i: InitStep| #[trigger]
            crate::channels::init_follows(c1, InitStep::LoadSecretKey, key_reply, c2, i)
                && crate::channels::join_after_init(c2, i, j2);
        assert(crate::channels::init_follows(c1, InitStep::LoadSecretKey, key_reply, c2, i2));
        if crate::channels::advertise_follows(c2, s2, ChannelReply::Done, c3, s3)
            && i2 is StoreSecretKey {
            let j3 = choose|j: JoinStep| #[trigger]
                crate::channels::join_follows(c2, j2, ChannelReply::Done, c3, j)
                    && crate::channels::advertise_after_join(j, s3);
            assert(crate::channels::join_follows(c2, j2, ChannelReply::Done, c3, j3));
            let i3 = choose|i: InitStep| #[trigger]
                crate::channels::init_follows(c2, i2, ChannelReply::Done, c3, i)
                    && crate::channels::join_after_init(c3, i, j3);
            assert(crate::channels::init_follows(c2, i2, ChannelReply::Done, c3, i3));
        }
    }
    let bound = ChannelReply::Bound { node_id };
    let jb = JoinStep::Init { step: bind };
    if bind is BindEndpoint && crate::channels::advertise_follows(
        c3,
        AdvertiseStep::Join { step: jb },
        bound,
        c4,
        s4,
    ) {
        let j4 = choose|j: JoinStep| #[trigger]
            crate::channels::join_follows(c3, jb, bound, c4, j)
                && crate::channels::advertise_after_join(j, s4);
        law_joining_begins_with_the_endpoint(c3, j4, node_id, bind, c4, j4);
        let i4 = choose|i: InitStep| #[trigger]
            crate::channels::init_follows(c3, bind, bound, c4, i)
                && crate::channels::join_after_init(c4, i, j4);
        assert(crate::channels::init_follows(c3, bind, bound, c4, i4));
    }
}

proof fn lemma_advertise_run_is_join_run(
    before: ContextView,
    join: JoinStep,
    replies: Seq<ChannelReply>,
    after: ContextView,
    end: AdvertiseStep,
)
    requires
        join is LoadPeers || join is AddNodeAddr || join is LoadTopic,
        forall|i: int|
            0 <= i < replies.len() ==> is_good(#[trigger] replies[i]) && !(replies[i] is Topic),
        crate::channels::advertise_runs(
            before,
            AdvertiseStep::Join { step: join },
            replies,
            after,
            end,
        ),
    ensures
        end matches AdvertiseStep::Join { step } && join_runs(before, join, replies, after, step),
    decreases replies.len(),
{
    if replies.len() > 0 {
        let step = AdvertiseStep::Join { step: join };
        let (mid, next) = choose|mid: ContextView, next: AdvertiseStep| #[trigger]
            crate::channels::advertise_follows(before, step, replies[0], mid, next)
                && crate::channels::advertise_runs(mid, next, replies.skip(1), after, end);
        let j = choose|j: JoinStep| #[trigger]
            crate::channels::join_follows(before, join, replies[0], mid, j)
                && crate::channels::advertise_after_join(j, next);
        assert(is_good(replies[0]));
        law_nothing_is_skipped_in_joining(before, join, replies[0], mid, j);
        let rest = replies.skip(1);
        assert forall|i: int| 0 <= i < rest.len() implies is_good(#[trigger] rest[i]) && !(
        rest[i] is Topic) by {
            assert(rest[i] == replies[i + 1]);
        }
        lemma_advertise_run_is_join_run(mid, j, rest, after, end);
        assert(crate::channels::join_follows(before, join, replies[0], mid, j));
    }
}

/// With an endpoint, advertising that gets all that it asks for goes on from the peers to the
/// end: the endpoint is told of each peer, the topic is joined with the keys of all of them,
/// the message that the channel belongs to is loaded, the advertisement is sent to its chat,
/// and the result is the topic.
pub proof fn law_advertising_reaches_the_chat(
    c1: ContextView,
    own: NodeId,
    rows: Vec<PeerRow>,
    c2: ContextView,
    s2: AdvertiseStep,
    bytes: Vec<u8>,
    c3: ContextView,
    s3: AdvertiseStep,
    c4: ContextView,
    s4: AdvertiseStep,
    rfc724_mid: String,
    chat_id: u32,
    c5: ContextView,
    s5: AdvertiseStep,
    c6: ContextView,
    s6: AdvertiseStep,
)
    ensures
        is_good(ChannelReply::Peers { rows }) && crate::channels::advertise_runs(
            c1,
            AdvertiseStep::Join { step: JoinStep::LoadPeers { own } },
            seq![ChannelReply::Peers { rows }] + dones(rows@.len()),
            c2,
            s2,
        ) && crate::channels::advertise_follows(c2, s2, ChannelReply::Topic { bytes }, c3, s3) ==> {
            &&& s3 matches AdvertiseStep::Join { step } && step matches JoinStep::Join {
                topic,
                nodes,
            } && topic.bytes@ == bytes@ && nodes@.len() == rows@.len() && forall|i: int|
                0 <= i < rows@.len() ==> (#[trigger] nodes@[i]).bytes@ == rows@[i].public_key@
            &&& crate::channels::advertise_follows(c3, s3, ChannelReply::Done, c4, s4)
                && crate::channels::advertise_follows(
                c4,
                s4,
                ChannelReply::Webxdc { rfc724_mid, chat_id },
                c5,
                s5,
            ) ==> (s5 matches AdvertiseStep::SendMessage { chat_id: c, .. } && c == chat_id)
            &&& crate::channels::advertise_follows(c3, s3, ChannelReply::Done, c4, s4)
                && crate::channels::advertise_follows(
                c4,
                s4,
                ChannelReply::Webxdc { rfc724_mid, chat_id },
                c5,
                s5,
            ) && crate::channels::advertise_follows(c5, s5, ChannelReply::Done, c6, s6) ==> (s6
                matches AdvertiseStep::Finished { result } && result matches Ok(Some(t))
                && t.bytes@ == bytes@)
        },
{
    let peers_reply = ChannelReply::Peers { rows };
    let topic_reply = ChannelReply::Topic { bytes };
    let all = seq![peers_reply] + dones(rows@.len());
    let first = JoinStep::LoadPeers { own };
    if is_good(peers_reply) && crate::channels::advertise_runs(
        c1,
        AdvertiseStep::Join { step: first },
        all,
        c2,
        s2,
    ) && crate::channels::advertise_follows(c2, s2, topic_reply, c3, s3) {
        assert forall|i: int| 0 <= i < all.len() implies is_good(#[trigger] all[i]) && !(
        all[i] is Topic) by {
            if i > 0 {
                assert(all[i] == dones(rows@.len())[i - 1]);
            }
        }
        lemma_advertise_run_is_join_run(c1, first, all, c2, s2);
        let j2 = s2->Join_step;
        let j3 = choose|j: JoinStep| #[trigger]
            crate::channels::join_follows(c2, j2, topic_reply, c3, j)
                && crate::channels::advertise_after_join(j, s3);
        law_topic_is_joined_with_all_peers(c1, own, rows, rows@.len(), c2, j2, bytes, c3, j3);
        if crate::channels::advertise_follows(c3, s3, ChannelReply::Done, c4, s4) {
            let j4 = choose|j: JoinStep| #[trigger]
                crate::channels::join_follows(c3, j3, ChannelReply::Done, c4, j)
                    && crate::channels::advertise_after_join(j, s4);
            assert(crate::channels::join_follows(c3, j3, ChannelReply::Done, c4, j4));
        }
    }
}

proof fn lemma_join_run_goes_well(
    before: ContextView,
    step: JoinStep,
    replies: Seq<ChannelReply>,
    after: ContextView,
    end: JoinStep,
    bytes: Seq<u8>,
)
    requires
        relay_is_readable(),
        join_goes_well(before, step, bytes),
        forall|i: int|
            0 <= i < replies.len() ==> is_good(#[trigger] replies[i]) && keeps_topic(
                replies[i],
                bytes,
            ),
        join_runs(before, step, replies, after, end),
    ensures
        join_goes_well(after, end, bytes),
    decreases replies.len(),
{
    if replies.len() > 0 {
        let (mid, next) = choose|mid: ContextView, next: JoinStep| #[trigger]
            crate::channels::join_follows(before, step, replies[0], mid, next) && join_runs(
                mid,
                next,
                replies.skip(1),
                after,
                end,
            );
        assert(is_good(replies[0]));
        lemma_join_goes_well(before, step, replies[0], mid, next, bytes);
        let rest = replies.skip(1);
        assert forall|i: int| 0 <= i < rest.len() implies is_good(#[trigger] rest[i])
            && keeps_topic(rest[i], bytes) by {
            assert(rest[i] == replies[i + 1]);
        }
        lemma_join_run_goes_well(mid, next, rest, after, end, bytes);
    }
}

/// Joining succeeds wherever nothing fails outside, with or without an endpoint before. It
/// ends with the topic that was loaded, and with an endpoint there.
pub proof fn law_joining_succeeds(
    before: ContextView,
    first: JoinStep,
    replies: Seq<ChannelReply>,
    after: ContextView,
    result: Result<TopicId, ChannelError>,
    bytes: Seq<u8>,
)
    ensures
        relay_is_readable() && crate::channels::join_begins(before, first) && (forall|i: int|
            0 <= i < replies.len() ==> is_good(#[trigger] replies[i]) && keeps_topic(
                replies[i],
                bytes,
            )) && join_runs(before, first, replies, after, JoinStep::Finished { result }) ==> (
        result matches Ok(topic) && topic.bytes@ == bytes && after.endpoint is Some),
{
    if relay_is_readable() && crate::channels::join_begins(before, first) && (forall|i: int|
        0 <= i < replies.len() ==> is_good(#[trigger] replies[i]) && keeps_topic(
            replies[i],
            bytes,
        )) && join_runs(before, first, replies, after, JoinStep::Finished { result }) {
        law_joining_begins_with_the_endpoint(
            before,
            first,
            arbitrary(),
            arbitrary(),
            before,
            first,
        );
        lemma_join_run_goes_well(
            before,
            first,
            replies,
            after,
            JoinStep::Finished { result },
            bytes,
        );
    }
}

/// Whether a step to send data is for this topic and this data.
spec fn sends(step: SendStep, bytes: Seq<u8>, data: Seq<u8>) -> bool {
    match step {
        SendStep::LoadTopic { .. } => false,
        SendStep::Advertise { topic, data: d, .. } => topic.bytes@ == bytes && d@ == data,
        SendStep::Broadcast { topic, payload } => topic.bytes@ == bytes && payload@.len()
            == data.len() + 8 && payload@.take(data.len() as int) == data,
        SendStep::Finished { .. } => true,
    }
}

proof fn lemma_broadcast_sends(
    ctx: ContextView,
    topic: TopicId,
    data: Seq<u8>,
    next: SendStep,
)
    requires
        crate::channels::broadcasts(ctx, topic, data, next),
    ensures
        sends(next, topic.bytes@, data),
        ctx.endpoint is Some ==> next is Broadcast,
        ctx.endpoint is None ==> next == (SendStep::Finished {
            result: Err::<(), ChannelError>(ChannelError::NoGossip),
        }),
{
    if let SendStep::Broadcast { payload, .. } = next {
        crate::payload::law_payload_is_data_and_eight_bytes(payload@, data);
        assert(payload@.take(data.len() as int) =~= data);
    }
}

proof fn lemma_send_keeps_topic_and_data(
    before: ContextView,
    step: SendStep,
    reply: ChannelReply,
    after: ContextView,
    next: SendStep,
    bytes: Seq<u8>,
    data: Seq<u8>,
)
    requires
        crate::channels::send_follows(before, step, reply, after, next),
        sends(step, bytes, data) || step is LoadTopic && step->LoadTopic_data@ == data && (reply
            matches ChannelReply::Topic { bytes: b } && b@ == bytes),
    ensures
        sends(next, bytes, data),
{
    match step {
        SendStep::LoadTopic { .. } => {
            if before.channels.contains(bytes) {
                let topic = choose|topic: TopicId|
                    topic@ == bytes && #[trigger]
                    crate::channels::broadcasts(before, topic, data, next);
                lemma_broadcast_sends(before, topic, data, next);
            }
        },
        SendStep::Advertise { topic, data: d, step: advertise_step } => {
            let advertise = choose|advertise: AdvertiseStep| #[trigger]
                crate::channels::advertise_follows(before, advertise_step, reply, after, advertise)
                    && crate::channels::send_after_advertise(after, topic, d, advertise, next);
            if let AdvertiseStep::Finished { result: Ok(_) } = advertise {
                lemma_broadcast_sends(after, topic, data, next);
            }
        },
        _ => {},
    }
}

proof fn lemma_send_run_keeps_topic_and_data(
    before: ContextView,
    step: SendStep,
    replies: Seq<ChannelReply>,
    after: ContextView,
    end: SendStep,
    bytes: Seq<u8>,
    data: Seq<u8>,
)
    requires
        send_runs(before, step, replies, after, end),
        sends(step, bytes, data),
    ensures
        sends(end, bytes, data),
    decreases replies.len(),
{
    if replies.len() > 0 {
        let (mid, next) = choose|mid: ContextView, next: SendStep| #[trigger]
            crate::channels::send_follows(before, step, replies[0], mid, next) && send_runs(
                mid,
                next,
                replies.skip(1),
                after,
                end,
            );
        lemma_send_keeps_topic_and_data(before, step, replies[0], mid, next, bytes, data);
        lemma_send_run_keeps_topic_and_data(mid, next, replies.skip(1), after, end, bytes, data);
    }
}

/// Whatever comes between, what is broadcast goes to the topic that was loaded first, and it is
/// the data with eight bytes behind it.
pub proof fn law_data_is_broadcast_to_its_topic(
    before: ContextView,
    data: Vec<u8>,
    bytes: Vec<u8>,
    replies: Seq<ChannelReply>,
    after: ContextView,
    topic: TopicId,
    payload: Vec<u8>,
)
    ensures
        send_runs(
            before,
            SendStep::LoadTopic { data },
            seq![ChannelReply::Topic { bytes }] + replies,
            after,
            SendStep::Broadcast { topic, payload },
        ) ==> topic.bytes@ == bytes@ && payload@.len() == data@.len() + 8 && payload@.take(
            data@.len() as int,
        ) == data@,
{
    let step = SendStep::LoadTopic { data };
    let end = SendStep::Broadcast { topic, payload };
    let all = seq![ChannelReply::Topic { bytes }] + replies;
    if send_runs(before, step, all, after, end) {
        assert(all[0] == (ChannelReply::Topic { bytes }));
        let (mid, next) = choose|mid: ContextView, next: SendStep| #[trigger]
            crate::channels::send_follows(before, step, all[0], mid, next) && send_runs(
                mid,
                next,
                all.skip(1),
                after,
                end,
            );
        lemma_send_keeps_topic_and_data(before, step, all[0], mid, next, bytes@, data@);
        lemma_send_run_keeps_topic_and_data(mid, next, all.skip(1), after, end, bytes@, data@);
    }
}

/// Data for a remembered topic is broadcast at once, where there is an endpoint, and where
/// there is none that is an error. For any other topic, advertising comes first, from its
/// beginning.
pub proof fn law_sending_advertises_unless_remembered(
    before: ContextView,
    data: Vec<u8>,
    bytes: Vec<u8>,
    after: ContextView,
    next: SendStep,
)
    ensures
        crate::channels::send_follows(
            before,
            SendStep::LoadTopic { data },
            ChannelReply::Topic { bytes },
            after,
            next,
        ) ==> after == before && if !before.channels.contains(bytes@) {
            next matches SendStep::Advertise { step, .. } && step is LoadTopic
        } else if before.endpoint is Some {
            next is Broadcast
        } else {
            next == (SendStep::Finished { result: Err(ChannelError::NoGossip) })
        },
{
    if crate::channels::send_follows(
        before,
        SendStep::LoadTopic { data },
        ChannelReply::Topic { bytes },
        after,
        next,
    ) && before.channels.contains(bytes@) {
        let topic = choose|topic: TopicId|
            topic@ == bytes@ && #[trigger]
            crate::channels::broadcasts(before, topic, data@, next);
        lemma_broadcast_sends(before, topic, data@, next);
    }
}

/// Sending succeeds only once the payload was broadcast.
pub proof fn law_nothing_is_skipped_in_sending(
    before: ContextView,
    step: SendStep,
    reply: ChannelReply,
    after: ContextView,
    next: SendStep,
)
    ensures
        crate::channels::send_follows(before, step, reply, after, next) ==> match next {
            SendStep::LoadTopic { .. } => false,
            SendStep::Advertise { .. } => step is LoadTopic || step is Advertise,
            SendStep::Broadcast { .. } => after.endpoint is Some && (step is LoadTopic
                || step is Advertise),
            SendStep::Finished { result } => result is Ok ==> step is Broadcast && reply is Done,
        },
{
    if crate::channels::send_follows(before, step, reply, after, next) {
        match step {
            SendStep::LoadTopic { data } => {
                if let ChannelReply::Topic { bytes } = reply {
                    if before.channels.contains(bytes@) {
                        let topic = choose|topic: TopicId|
                            topic@ == bytes@ && #[trigger]
                            crate::channels::broadcasts(before, topic, data@, next);
                        lemma_broadcast_sends(before, topic, data@, next);
                    }
                }
            },
            SendStep::Advertise { topic, data, step: advertise_step } => {
                let advertise = choose|advertise: AdvertiseStep| #[trigger]
                    crate::channels::advertise_follows(
                        before,
                        advertise_step,
                        reply,
                        after,
                        advertise,
                    ) && crate::channels::send_after_advertise(after, topic, data, advertise, next);
                if let AdvertiseStep::Finished { result: Ok(_) } = advertise {
                    lemma_broadcast_sends(after, topic, data@, next);
                }
            },
            _ => {},
        }
    }
}

/// Whether sending goes well.
spec fn send_goes_well(ctx: ContextView, step: SendStep, bytes: Seq<u8>) -> bool {
    match step {
        SendStep::LoadTopic { .. } => ctx.channels.contains(bytes) ==> ctx.endpoint is Some,
        SendStep::Advertise { step, .. } => advertise_goes_well(ctx, step, bytes) && !(step
            is Finished),
        SendStep::Broadcast { .. } => true,
        SendStep::Finished { result } => result is Ok,
    }
}

proof fn lemma_send_goes_well(
    before: ContextView,
    step: SendStep,
    reply: ChannelReply,
    after: ContextView,
    next: SendStep,
    bytes: Seq<u8>,
)
    requires
        relay_is_readable(),
        send_goes_well(before, step, bytes),
        is_good(reply),
        keeps_topic(reply, bytes),
        crate::channels::send_follows(before, step, reply, after, next),
    ensures
        send_goes_well(after, next, bytes),
{
    match step {
        SendStep::LoadTopic { data } => {
            if let ChannelReply::Topic { bytes: b } = reply {
                law_sending_advertises_unless_remembered(before, data, b, after, next);
            }
        },
        SendStep::Advertise { topic, data, step: advertise_step } => {
            let advertise = choose|advertise: AdvertiseStep| #[trigger]
                crate::channels::advertise_follows(before, advertise_step, reply, after, advertise)
                    && crate::channels::send_after_advertise(after, topic, data, advertise, next);
            lemma_advertise_goes_well(before, advertise_step, reply, after, advertise, bytes);
            if let AdvertiseStep::Finished { result: Ok(_) } = advertise {
                lemma_broadcast_sends(after, topic, data@, next);
            }
        },
        _ => {},
    }
}

proof fn lemma_send_run_goes_well(
    before: ContextView,
    step: SendStep,
    replies: Seq<ChannelReply>,
    after: ContextView,
    end: SendStep,
    bytes: Seq<u8>,
)
    requires
        relay_is_readable(),
        send_goes_well(before, step, bytes),
        forall|i: int|
            0 <= i < replies.len() ==> is_good(#[trigger] replies[i]) && keeps_topic(
                replies[i],
                bytes,
            ),
        send_runs(before, step, replies, after, end),
    ensures
        send_goes_well(after, end, bytes),
    decreases replies.len(),
{
    if replies.len() > 0 {
        let (mid, next) = choose|mid: ContextView, next: SendStep| #[trigger]
            crate::channels::send_follows(before, step, replies[0], mid, next) && send_runs(
                mid,
                next,
                replies.skip(1),
                after,
                end,
            );
        assert(is_good(replies[0]));
        lemma_send_goes_well(before, step, replies[0], mid, next, bytes);
        let rest = replies.skip(1);
        assert forall|i: int| 0 <= i < rest.len() implies is_good(#[trigger] rest[i])
            && keeps_topic(rest[i], bytes) by {
            assert(rest[i] == replies[i + 1]);
        }
        lemma_send_run_goes_well(mid, next, rest, after, end, bytes);
    }
}

/// Sending succeeds wherever nothing fails outside, unless the topic is remembered without an
/// endpoint.
pub proof fn law_sending_succeeds(
    before: ContextView,
    data: Vec<u8>,
    replies: Seq<ChannelReply>,
    after: ContextView,
    result: Result<(), ChannelError>,
    bytes: Seq<u8>,
)
    ensures
        relay_is_readable() && (before.channels.contains(bytes) ==> before.endpoint is Some) && (
        forall|i: int|
            0 <= i < replies.len() ==> is_good(#[trigger] replies[i]) && keeps_topic(
                replies[i],
                bytes,
            )) && send_runs(
            before,
            SendStep::LoadTopic { data },
            replies,
            after,
            SendStep::Finished { result },
        ) ==> result is Ok,
{
    if relay_is_readable() && (before.channels.contains(bytes) ==> before.endpoint is Some) && (
    forall|i: int|
        0 <= i < replies.len() ==> is_good(#[trigger] replies[i]) && keeps_topic(
            replies[i],
            bytes,
        )) && send_runs(
        before,
        SendStep::LoadTopic { data },
        replies,
        after,
        SendStep::Finished { result },
    ) {
        lemma_send_run_goes_well(
            before,
            SendStep::LoadTopic { data },
            replies,
            after,
            SendStep::Finished { result },
            bytes,
        );
    }
}

/// The error of a part of an operation is that of the whole. Of stored peers it is that of the
/// first that cannot be read; of a relay that cannot be read, it says that.
pub proof fn law_errors_are_passed_on(
    before: ContextView,
    reply: ChannelReply,
    after: ContextView,
    init: InitStep,
    own: NodeId,
    rows: Vec<PeerRow>,
    n: int,
    join: JoinStep,
    join_next: JoinStep,
    advertise: AdvertiseStep,
    topic: TopicId,
    data: Vec<u8>,
    e: ChannelError,
)
    ensures
        crate::channels::init_follows(
            before,
            init,
            reply,
            after,
            InitStep::Finished { result: Err(e) },
        ) ==> e == if reply is Failed {
            ChannelError::Outside
        } else {
            ChannelError::BadRelayUrl
        },
        crate::channels::join_follows(
            before,
            JoinStep::Init { step: init },
            reply,
            after,
            JoinStep::Finished { result: Err(e) },
        ) ==> e == if reply is Failed {
            ChannelError::Outside
        } else {
            ChannelError::BadRelayUrl
        },
        crate::channels::join_follows(
            before,
            JoinStep::LoadPeers { own },
            ChannelReply::Peers { rows },
            after,
            join_next,
        ) && 0 <= n < rows@.len() && !crate::peers::is_readable(rows@[n]) && (forall|i: int|
            0 <= i < n ==> crate::peers::is_readable(#[trigger] rows@[i])) ==> after == before
            && join_next == (JoinStep::Finished {
            result: Err(
                ChannelError::BadPeer(
                    if rows@[n].relay_server matches Some(text) && crate::peers::relay_url_of(text@)
                        is None {
                        crate::peers::PeerRowError::BadRelayUrl
                    } else if rows@[n].public_key@.len() != 32 {
                        crate::peers::PeerRowError::BadKeyLength
                    } else {
                        crate::peers::PeerRowError::BadKey
                    },
                ),
            ),
        }),
        crate::channels::advertise_follows(
            before,
            AdvertiseStep::Join { step: join },
            reply,
            after,
            AdvertiseStep::Finished { result: Err(e) },
        ) ==> crate::channels::join_follows(
            before,
            join,
            reply,
            after,
            JoinStep::Finished { result: Err(e) },
        ),
        crate::channels::send_follows(
            before,
            SendStep::Advertise { topic, data, step: advertise },
            reply,
            after,
            SendStep::Finished { result: Err(e) },
        ) ==> crate::channels::advertise_follows(
            before,
            advertise,
            reply,
            after,
            AdvertiseStep::Finished { result: Err(e) },
        ) || after.endpoint is None && e == ChannelError::NoGossip,
{
    if crate::channels::join_follows(
        before,
        JoinStep::Init { step: init },
        reply,
        after,
        JoinStep::Finished { result: Err(e) },
    ) {
        let i = choose|i: InitStep| #[trigger]
            crate::channels::init_follows(before, init, reply, after, i)
                && crate::channels::join_after_init(
                after,
                i,
                JoinStep::Finished { result: Err(e) },
            );
        assert(crate::channels::init_follows(before, init, reply, after, i));
        crate::channels::law_init_gives_an_endpoint(before, init, reply, after, i);
    }
    if crate::channels::join_follows(
        before,
        JoinStep::LoadPeers { own },
        ChannelReply::Peers { rows },
        after,
        join_next,
    ) && 0 <= n < rows@.len() && !crate::peers::is_readable(rows@[n]) && (forall|i: int|
        0 <= i < n ==> crate::peers::is_readable(#[trigger] rows@[i])) {
        match join_next {
            JoinStep::AddNodeAddr { peers, .. } => {
                crate::peers::law_first_unreadable_peer_decides(rows@, n, Ok(peers));
            },
            JoinStep::Finished { result } => {
                if let Err(ChannelError::BadPeer(bad)) = result {
                    crate::peers::law_first_unreadable_peer_decides(rows@, n, Err(bad));
                }
            },
            _ => {},
        }
    }
    if crate::channels::advertise_follows(
        before,
        AdvertiseStep::Join { step: join },
        reply,
        after,
        AdvertiseStep::Finished { result: Err(e) },
    ) {
        let j = choose|j: JoinStep| #[trigger]
            crate::channels::join_follows(before, join, reply, after, j)
                && crate::channels::advertise_after_join(
                j,
                AdvertiseStep::Finished { result: Err(e) },
            );
        assert(crate::channels::join_follows(before, join, reply, after, j));
    }
    let failed = SendStep::Finished { result: Err::<(), ChannelError>(e) };
    if crate::channels::send_follows(
        before,
        SendStep::Advertise { topic, data, step: advertise },
        reply,
        after,
        failed,
    ) {
        let a = choose|a: AdvertiseStep| #[trigger]
            crate::channels::advertise_follows(before, advertise, reply, after, a)
                && crate::channels::send_after_advertise(after, topic, data, a, failed);
        assert(crate::channels::advertise_follows(before, advertise, reply, after, a));
        if let AdvertiseStep::Finished { result: Ok(_) } = a {
            lemma_broadcast_sends(after, topic, data@, failed);
        }
    }
}

/// Leaving quits the topic that was loaded, and then forgets that topic and no other. Without
/// an endpoint it is an error. Until the topic was quit, nothing is forgotten.
pub proof fn law_leaving_quits_and_forgets_the_topic(
    before: ContextView,
    bytes: Vec<u8>,
    loaded: ContextView,
    next: LeaveStep,
    after: ContextView,
    end: LeaveStep,
    other: Seq<u8>,
)
    ensures
        crate::channels::leave_follows(
            before,
            LeaveStep::LoadTopic,
            ChannelReply::Topic { bytes },
            loaded,
            next,
        ) ==> {
            &&& loaded == before
            &&& before.endpoint is Some ==> (next matches LeaveStep::Quit { topic } && topic.bytes@
                == bytes@)
            &&& before.endpoint is None ==> next == (LeaveStep::Finished {
                result: Err(ChannelError::NoGossip),
            })
        },
        crate::channels::leave_follows(
            before,
            LeaveStep::LoadTopic,
            ChannelReply::Topic { bytes },
            loaded,
            next,
        ) && before.endpoint is Some && crate::channels::leave_follows(
            loaded,
            next,
            ChannelReply::Done,
            after,
            end,
        ) ==> {
            &&& end == (LeaveStep::Finished { result: Ok(()) })
            &&& after.endpoint == before.endpoint
            &&& !after.channels.contains(bytes@)
            &&& other != bytes@ ==> (after.channels.contains(other) <==> before.channels.contains(
                other,
            ))
        },
{
}

/// Each step can go on with what it asks for: whatever record, node, message or peers come
/// back, and any topic of thirty-two bytes.
pub proof fn law_each_step_can_go_on(
    stored: Option<String>,
    node_id: NodeId,
    rows: Vec<PeerRow>,
    bytes: Vec<u8>,
    rfc724_mid: String,
    chat_id: u32,
    reply: ChannelReply,
    init: InitStep,
    join: JoinStep,
    advertise: AdvertiseStep,
    send: SendStep,
    leave: LeaveStep,
)
    requires
        bytes@.len() == 32,
    ensures
        init is LoadSecretKey ==> crate::channels::init_answers(
            ChannelReply::SecretKey { stored },
            init,
        ),
        init is StoreSecretKey ==> crate::channels::init_answers(ChannelReply::Done, init),
        init is BindEndpoint ==> crate::channels::init_answers(
            ChannelReply::Bound { node_id },
            init,
        ),
        join is LoadPeers ==> crate::channels::join_answers(ChannelReply::Peers { rows }, join),
        join is AddNodeAddr || join is Join ==> crate::channels::join_answers(
            ChannelReply::Done,
            join,
        ),
        join is LoadTopic ==> crate::channels::join_answers(ChannelReply::Topic { bytes }, join),
        advertise is LoadTopic ==> crate::channels::advertise_answers(
            ChannelReply::Topic { bytes },
            advertise,
        ),
        advertise is LoadWebxdc ==> crate::channels::advertise_answers(
            ChannelReply::Webxdc { rfc724_mid, chat_id },
            advertise,
        ),
        advertise is SendMessage ==> crate::channels::advertise_answers(
            ChannelReply::Done,
            advertise,
        ),
        send is LoadTopic ==> crate::channels::send_answers(ChannelReply::Topic { bytes }, send),
        send is Broadcast ==> crate::channels::send_answers(ChannelReply::Done, send),
        leave is LoadTopic ==> crate::channels::leave_answers(
            ChannelReply::Topic { bytes },
            leave,
        ),
        leave is Quit ==> crate::channels::leave_answers(ChannelReply::Done, leave),
        join matches JoinStep::Init { step } ==> (crate::channels::join_answers(reply, join)
            <==> crate::channels::init_answers(reply, step)),
        advertise matches AdvertiseStep::Join { step } ==> (crate::channels::advertise_answers(
            reply,
            advertise,
        ) <==> crate::channels::join_answers(reply, step)),
        send matches SendStep::Advertise { step, .. } ==> (crate::channels::send_answers(
            reply,
            send,
        ) <==> crate::channels::advertise_answers(reply, step)),
{
}

} // verus!
