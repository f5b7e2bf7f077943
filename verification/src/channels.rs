//! Realtime channels: joining, advertising, sending and leaving, step by step.
//!
//! The network, the database and the chat are outside of this module. What is begun here
//! says what is to be done there next, and goes on with what came of it. A [`Context`]
//! holds what the steps decide upon.
use crate::payload::add_random_salt;
use crate::peers::{
    get_gossip_peers, parse_relay_url, topic_from_bytes, MsgId, NodeAddr, NodeId, PeerRow,
    PeerRowError, TopicId,
};
use crate::secret_key::get_or_generate_iroh_keypair;
use crate::swarm::accepted_alpn;
use crate::text::as_str;
use vstd::prelude::*;

verus! {

/// Why an operation on a channel fails.
#[derive(Clone, Copy, Debug, PartialEq, Eq, Structural)]
pub enum ChannelError {
    /// There is no endpoint yet, and so no gossip.
    NoGossip,
    /// The URL of the relay cannot be read.
    BadRelayUrl,
    /// A stored peer cannot be read.
    BadPeer(PeerRowError),
    /// What was asked for outside failed.
    Outside,
}

/// What is kept while the program runs: the endpoint, over which all gossip goes, once
/// there is one; and the topics for which an advertisement was sent.
#[derive(Debug)]
pub struct Context {
    endpoint: Option<NodeId>,
    channels: Vec<TopicId>,
}

/// What a [`Context`] stands for.
#[verifier::ext_equal]
pub struct ContextView {
    /// The node that the endpoint is.
    pub endpoint: Option<Seq<u8>>,
    pub channels: Set<Seq<u8>>,
}

/// Whether `r` is the address of the own node, with the relay that the endpoint uses now; an
/// error where there is no endpoint.
pub open spec fn is_own_addr(
    ctx: ContextView,
    relay: Option<String>,
    r: Result<NodeAddr, ChannelError>,
) -> bool {
    match r {
        Ok(addr) => ctx.endpoint == Some(addr.node_id@) && addr.relay_url == relay,
        Err(e) => ctx.endpoint is None && e == ChannelError::NoGossip,
    }
}

spec fn topic_views(topics: Seq<TopicId>) -> Seq<Seq<u8>> {
    topics.map_values(|topic: TopicId| topic@)
}

fn topic_eq(a: &TopicId, b: &TopicId) -> (r: bool)
    ensures
        r == (a@ == b@),
{
    let mut i: usize = 0;
    while i < 32
        invariant
            i <= 32,
            forall|j: int| 0 <= j < i ==> a@[j] == b@[j],
        decreases 32 - i,
    {
        if a.bytes[i] != b.bytes[i] {
            assert(a@[i as int] != b@[i as int]);
            return false;
        }
        i = i + 1;
    }
    assert(a@ =~= b@);
    true
}

impl Context {
    /// No topic is remembered twice.
    pub closed spec fn wf(self) -> bool {
        topic_views(self.channels@).no_duplicates()
    }

    pub closed spec fn view(self) -> ContextView {
        ContextView {
            endpoint: match self.endpoint {
                Some(node) => Some(node@),
                None => None,
            },
            channels: topic_views(self.channels@).to_set(),
        }
    }

    /// Without an endpoint, and with no topic remembered.
    pub fn new() -> (r: Self)
        ensures
            r.wf(),
            r@ == (ContextView { endpoint: None, channels: Set::empty() }),
    {
        let r = Context { endpoint: None, channels: Vec::new() };
        assert(r@.channels =~= Set::empty());
        r
    }

    /// The node that the endpoint is, once there is an endpoint.
    pub fn node_id(&self) -> (r: Option<NodeId>)
        ensures
            match r {
                Some(node) => self@.endpoint == Some(node@),
                None => self@.endpoint is None,
            },
    {
        self.endpoint
    }

    /// The number of topics for which an advertisement was sent.
    pub fn channels_len(&self) -> (r: usize)
        requires
            self.wf(),
        ensures
            r == self@.channels.len(),
    {
        proof {
            topic_views(self.channels@).unique_seq_to_set();
        }
        self.channels.len()
    }

    fn position(&self, topic: &TopicId) -> (r: Option<usize>)
        ensures
            match r {
                Some(i) => i < self.channels@.len() && self.channels@[i as int]@ == topic@,
                None => !self@.channels.contains(topic@),
            },
    {
        let mut i: usize = 0;
        while i < self.channels.len()
            invariant
                i <= self.channels.len(),
                forall|j: int| 0 <= j < i ==> (#[trigger] self.channels@[j])@ != topic@,
            decreases self.channels.len() - i,
        {
            if topic_eq(&self.channels[i], topic) {
                return Some(i);
            }
            i = i + 1;
        }
        proof {
            let views = topic_views(self.channels@);
            if views.contains(topic@) {
                let j = choose|j: int| 0 <= j < views.len() && views[j] == topic@;
                assert(self.channels@[j]@ == topic@);
            }
        }
        None
    }

    /// Whether an advertisement was sent for the topic.
    pub fn has_channel(&self, topic: &TopicId) -> (r: bool)
        ensures
            r == self@.channels.contains(topic@),
    {
        match self.position(topic) {
            Some(i) => {
                assert(topic_views(self.channels@)[i as int] == topic@);
                true
            },
            None => false,
        }
    }

    fn add_channel(&mut self, topic: TopicId)
        requires
            old(self).wf(),
            !old(self)@.channels.contains(topic@),
        ensures
            final(self).wf(),
            final(self)@ == (ContextView {
                channels: old(self)@.channels.insert(topic@),
                ..old(self)@
            }),
    {
        let ghost views = topic_views(self.channels@);
        self.channels.push(topic);
        proof {
            let now = topic_views(self.channels@);
            assert(now =~= views.push(topic@));
            assert forall|i: int| 0 <= i < views.len() implies views[i] != topic@ by {
                assert(views.contains(views[i]));
            }
            assert(now.to_set() =~= views.to_set().insert(topic@)) by {
                assert forall|t: Seq<u8>|
                    now.to_set().contains(t) == views.to_set().insert(topic@).contains(t) by {
                    if views.contains(t) {
                        let i = choose|i: int| 0 <= i < views.len() && views[i] == t;
                        assert(now[i] == t);
                    }
                    assert(now[views.len() as int] == topic@);
                }
            }
        }
    }

    fn remove_channel(&mut self, topic: &TopicId)
        requires
            old(self).wf(),
        ensures
            final(self).wf(),
            final(self)@ == (ContextView {
                channels: old(self)@.channels.remove(topic@),
                ..old(self)@
            }),
    {
        let ghost views = topic_views(self.channels@);
        match self.position(topic) {
            Some(i) => {
                self.channels.remove(i);
                proof {
                    let now = topic_views(self.channels@);
                    assert(views[i as int] == topic@);
                    assert(now =~= views.remove(i as int));
                    assert forall|a: int, b: int|
                        0 <= a < now.len() && 0 <= b < now.len() && a != b implies now[a]
                        != now[b] by {
                        let x = if a < i { a } else { a + 1 };
                        let y = if b < i { b } else { b + 1 };
                        assert(now[a] == views[x] && now[b] == views[y]);
                    }
                    assert(now.to_set() =~= views.to_set().remove(topic@)) by {
                        assert forall|t: Seq<u8>|
                            now.to_set().contains(t) == views.to_set().remove(topic@).contains(
                                t,
                            ) by {
                            if now.contains(t) {
                                let a = choose|a: int| 0 <= a < now.len() && now[a] == t;
                                let x = if a < i { a } else { a + 1 };
                                assert(views[x] == t);
                                assert(views[x] != views[i as int]);
                            }
                            if views.contains(t) && t != topic@ {
                                let x = choose|x: int| 0 <= x < views.len() && views[x] == t;
                                let a = if x < i { x } else { x - 1 };
                                assert(now[a] == t);
                            }
                        }
                    }
                }
            },
            None => {
                assert(self@.channels =~= old(self)@.channels.remove(topic@));
            },
        }
    }

    /// The address of the own node: its relay is what the endpoint says it is now.
    pub fn get_iroh_node_addr(&self, relay: Option<String>) -> (r: Result<NodeAddr, ChannelError>)
        ensures
            is_own_addr(self@, relay, r),
    {
        match self.endpoint {
            Some(node_id) => Ok(NodeAddr { node_id, relay_url: relay }),
            None => Err(ChannelError::NoGossip),
        }
    }
}

/// What came of a step outside.
#[derive(Debug)]
pub enum ChannelReply {
    /// The record of the secret key, if there is one.
    SecretKey { stored: Option<String> },
    /// The endpoint is bound, and its gossip runs.
    Bound { node_id: NodeId },
    /// The stored peers.
    Peers { rows: Vec<PeerRow> },
    /// The stored topic.
    Topic { bytes: Vec<u8> },
    /// The message that the channel belongs to: its message id, and its chat.
    Webxdc { rfc724_mid: String, chat_id: u32 },
    Done,
    Failed,
}

/// The relay that the endpoint uses.
pub open spec fn relay_server() -> Seq<char> {
    "https://iroh.testrun.org:4443"@
}

/// What is to be done next to create the endpoint.
#[derive(Debug)]
pub enum InitStep {
    LoadSecretKey,
    StoreSecretKey { secret_key: [u8; 32], text: String },
    /// Bind the endpoint, with this as the only protocol and this as the only relay, start
    /// the gossip, and forward incoming connections to it.
    BindEndpoint { secret_key: [u8; 32], alpn: Vec<u8>, relay_url: String },
    /// Nothing: this is the result.
    Finished { result: Result<(), ChannelError> },
}

pub open spec fn init_answers(reply: ChannelReply, step: InitStep) -> bool {
    reply is Failed && !(step is Finished) || match step {
        InitStep::LoadSecretKey => reply is SecretKey,
        InitStep::StoreSecretKey { .. } => reply is Done,
        InitStep::BindEndpoint { .. } => reply is Bound,
        InitStep::Finished { .. } => false,
    }
}

/// How many steps can follow.
pub open spec fn init_steps_left(step: InitStep) -> nat {
    match step {
        InitStep::LoadSecretKey => 3,
        InitStep::StoreSecretKey { .. } => 2,
        InitStep::BindEndpoint { .. } => 1,
        InitStep::Finished { .. } => 0,
    }
}

/// Whether the step is the one to take once the secret key is there and stored: an
/// endpoint is bound only where there is none.
pub open spec fn binds_if_needed(ctx: ContextView, secret_key: Seq<u8>, next: InitStep) -> bool {
    if ctx.endpoint is Some {
        next == (InitStep::Finished { result: Ok(()) })
    } else {
        match crate::peers::relay_url_of(relay_server()) {
            Some(url) => next matches InitStep::BindEndpoint { secret_key: key, alpn, relay_url }
                && key@ == secret_key && alpn@ == crate::swarm::gossip_alpn() && relay_url@
                == url,
            None => next == (InitStep::Finished { result: Err(ChannelError::BadRelayUrl) }),
        }
    }
}

/// Whether a step and its reply lead to the next step, and from one state to the other.
pub open spec fn init_follows(
    before: ContextView,
    step: InitStep,
    reply: ChannelReply,
    after: ContextView,
    next: InitStep,
) -> bool {
    match (step, reply) {
        (_, ChannelReply::Failed) => after == before && next == (InitStep::Finished {
            result: Err(ChannelError::Outside),
        }),
        (
            InitStep::LoadSecretKey,
            ChannelReply::SecretKey { stored },
        ) => {
            &&& after == before
            &&& match crate::secret_key::stored_key(crate::text::string_view(stored)) {
                Some(key) => binds_if_needed(before, key, next),
                None => next matches InitStep::StoreSecretKey { secret_key, text } && text@
                    == crate::secret_key::secret_key_text(secret_key@)
                    && crate::secret_key::secret_key_of(text@) == Some(secret_key@),
            }
        },
        (
            InitStep::StoreSecretKey { secret_key, .. },
            ChannelReply::Done,
        ) => after == before && binds_if_needed(before, secret_key@, next),
        (
            InitStep::BindEndpoint { .. },
            ChannelReply::Bound { node_id },
        ) => {
            &&& after == (ContextView { endpoint: Some(node_id@), ..before })
            &&& next == (InitStep::Finished { result: Ok(()) })
        },
        _ => false,
    }
}

/// What is to be done next to join a topic.
#[derive(Debug)]
pub enum JoinStep {
    /// Create the endpoint.
    Init { step: InitStep },
    /// Load the stored peers of the channel, other than the own node.
    LoadPeers { own: NodeId },
    /// Tell the endpoint how to reach the peer at position `next`.
    AddNodeAddr { peers: Vec<NodeAddr>, next: usize },
    LoadTopic { peers: Vec<NodeAddr> },
    /// Join the topic with these nodes, and subscribe to it.
    Join { topic: TopicId, nodes: Vec<NodeId> },
    /// Nothing: this is the result, the topic that was joined.
    Finished { result: Result<TopicId, ChannelError> },
}

/// A position stands for a peer.
pub open spec fn join_step_wf(step: JoinStep) -> bool {
    match step {
        JoinStep::Init { step } => !(step is Finished),
        JoinStep::AddNodeAddr { peers, next } => next < peers@.len(),
        _ => true,
    }
}

pub open spec fn join_answers(reply: ChannelReply, step: JoinStep) -> bool {
    match step {
        JoinStep::Init { step } => init_answers(reply, step),
        JoinStep::LoadPeers { .. } => reply is Peers || reply is Failed,
        JoinStep::AddNodeAddr { .. } => reply is Done || reply is Failed,
        JoinStep::LoadTopic { .. } => is_topic(reply) || reply is Failed,
        JoinStep::Join { .. } => reply is Done || reply is Failed,
        JoinStep::Finished { .. } => false,
    }
}

/// Whether a reply is a topic: thirty-two bytes.
pub open spec fn is_topic(reply: ChannelReply) -> bool {
    reply matches ChannelReply::Topic { bytes } && bytes@.len() == 32
}

/// How many kinds of steps can follow.
pub open spec fn join_phase(step: JoinStep) -> nat {
    match step {
        JoinStep::Init { step } => 4 + init_steps_left(step),
        JoinStep::LoadPeers { .. } => 4,
        JoinStep::AddNodeAddr { .. } => 3,
        JoinStep::LoadTopic { .. } => 2,
        JoinStep::Join { .. } => 1,
        JoinStep::Finished { .. } => 0,
    }
}

/// How many peers the endpoint is still to be told of.
pub open spec fn peers_left(step: JoinStep) -> int {
    match step {
        JoinStep::AddNodeAddr { peers, next } => peers@.len() - next,
        _ => 0,
    }
}

/// Whether the step is the first one to join a topic: an endpoint is created where there
/// is none.
pub open spec fn join_begins(ctx: ContextView, next: JoinStep) -> bool {
    match ctx.endpoint {
        Some(node) => next matches JoinStep::LoadPeers { own } && own@ == node,
        None => next == (JoinStep::Init { step: InitStep::LoadSecretKey }),
    }
}

/// Whether the step is the one to take after a step to create the endpoint.
pub open spec fn join_after_init(ctx: ContextView, init: InitStep, next: JoinStep) -> bool {
    match init {
        InitStep::Finished { result: Ok(()) } => match ctx.endpoint {
            Some(node) => next matches JoinStep::LoadPeers { own } && own@ == node,
            None => next == (JoinStep::Finished { result: Err(ChannelError::NoGossip) }),
        },
        InitStep::Finished { result: Err(e) } => next == (JoinStep::Finished { result: Err(e) }),
        _ => next == (JoinStep::Init { step: init }),
    }
}

/// Whether a step and its reply lead to the next step, and from one state to the other.
pub open spec fn join_follows(
    before: ContextView,
    step: JoinStep,
    reply: ChannelReply,
    after: ContextView,
    next: JoinStep,
) -> bool {
    match (step, reply) {
        (JoinStep::Init { step }, _) => exists|init: InitStep| #[trigger]
            init_follows(before, step, reply, after, init) && join_after_init(after, init, next),
        (_, ChannelReply::Failed) => after == before && next == (JoinStep::Finished {
            result: Err(ChannelError::Outside),
        }),
        (
            JoinStep::LoadPeers { .. },
            ChannelReply::Peers { rows },
        ) => {
            &&& after == before
            &&& match next {
                JoinStep::AddNodeAddr { peers, next } => next == 0 && rows@.len() > 0
                    && crate::peers::rows_read_as(rows@, Ok(peers)),
                JoinStep::LoadTopic { peers } => rows@.len() == 0 && peers@.len() == 0,
                JoinStep::Finished { result } => result matches Err(ChannelError::BadPeer(e))
                    && crate::peers::rows_read_as(rows@, Err(e)),
                _ => false,
            }
        },
        (
            JoinStep::AddNodeAddr { peers, next: n },
            ChannelReply::Done,
        ) => {
            &&& after == before
            &&& if n + 1 < peers@.len() {
                next == (JoinStep::AddNodeAddr { peers, next: (n + 1) as usize })
            } else {
                next == (JoinStep::LoadTopic { peers })
            }
        },
        (
            JoinStep::LoadTopic { peers },
            ChannelReply::Topic { bytes },
        ) => {
            &&& after == before
            &&& next matches JoinStep::Join { topic, nodes } && topic@ == bytes@
                && nodes@ =~= peers@.map_values(|peer: NodeAddr| peer.node_id)
        },
        (
            JoinStep::Join { topic, .. },
            ChannelReply::Done,
        ) => after == before && next == (JoinStep::Finished { result: Ok(topic) }),
        _ => false,
    }
}

fn node_ids(peers: &Vec<NodeAddr>) -> (r: Vec<NodeId>)
    ensures
        r@ =~= peers@.map_values(|peer: NodeAddr| peer.node_id),
{
    let mut r: Vec<NodeId> = Vec::new();
    let mut i: usize = 0;
    while i < peers.len()
        invariant
            i <= peers.len(),
            r@.len() == i,
            forall|j: int| 0 <= j < i ==> r@[j] == peers@[j].node_id,
        decreases peers.len() - i,
    {
        r.push(peers[i].node_id);
        i = i + 1;
    }
    r
}

impl Context {
    /// Begins to create the endpoint.
    pub fn inite_peer_channels(&self) -> (r: InitStep)
        ensures
            r is LoadSecretKey,
    {
        InitStep::LoadSecretKey
    }

    fn bind_if_needed(&self, secret_key: [u8; 32]) -> (r: InitStep)
        ensures
            binds_if_needed(self@, secret_key@, r),
            init_steps_left(r) <= 1,
    {
        match self.endpoint {
            Some(_) => InitStep::Finished { result: Ok(()) },
            None => match parse_relay_url("https://iroh.testrun.org:4443") {
                Ok(relay_url) => InitStep::BindEndpoint {
                    secret_key,
                    alpn: accepted_alpn(),
                    relay_url,
                },
                Err(_) => InitStep::Finished { result: Err(ChannelError::BadRelayUrl) },
            },
        }
    }

    /// Goes on to create the endpoint with what came of the step.
    pub fn resume_init(&mut self, step: InitStep, reply: ChannelReply) -> (r: InitStep)
        requires
            old(self).wf(),
            init_answers(reply, step),
        ensures
            final(self).wf(),
            init_follows(old(self)@, step, reply, final(self)@, r),
            init_steps_left(r) < init_steps_left(step),
    {
        match (step, reply) {
            (InitStep::LoadSecretKey, ChannelReply::SecretKey { stored }) => {
                let keypair = get_or_generate_iroh_keypair(as_str(&stored));
                match keypair.persist {
                    Some(text) => InitStep::StoreSecretKey { secret_key: keypair.secret_key, text },
                    None => self.bind_if_needed(keypair.secret_key),
                }
            },
            (
                InitStep::StoreSecretKey { secret_key, .. },
                ChannelReply::Done,
            ) => self.bind_if_needed(secret_key),
            (InitStep::BindEndpoint { .. }, ChannelReply::Bound { node_id }) => {
                self.endpoint = Some(node_id);
                InitStep::Finished { result: Ok(()) }
            },
            _ => InitStep::Finished { result: Err(ChannelError::Outside) },
        }
    }

    fn begin_join(&self) -> (r: JoinStep)
        ensures
            join_begins(self@, r),
            join_step_wf(r),
            4 <= join_phase(r) <= 7,
    {
        match self.endpoint {
            Some(own) => JoinStep::LoadPeers { own },
            None => JoinStep::Init { step: self.inite_peer_channels() },
        }
    }

    fn step_join(&mut self, step: JoinStep, reply: ChannelReply) -> (r: JoinStep)
        requires
            old(self).wf(),
            join_step_wf(step),
            join_answers(reply, step),
        ensures
            final(self).wf(),
            join_step_wf(r),
            join_follows(old(self)@, step, reply, final(self)@, r),
            join_phase(r) < join_phase(step) || join_phase(r) == join_phase(step) && 0
                <= peers_left(r) < peers_left(step),
    {
        match (step, reply) {
            (JoinStep::Init { step }, reply) => {
                let init = self.resume_init(step, reply);
                assert(init_follows(old(self)@, step, reply, self@, init));
                match init {
                    InitStep::Finished { result } => match result {
                        Ok(_) => match self.endpoint {
                            Some(own) => JoinStep::LoadPeers { own },
                            None => JoinStep::Finished { result: Err(ChannelError::NoGossip) },
                        },
                        Err(e) => JoinStep::Finished { result: Err(e) },
                    },
                    step => JoinStep::Init { step },
                }
            },
            (
                JoinStep::LoadPeers { .. },
                ChannelReply::Peers { rows },
            ) => match get_gossip_peers(&rows) {
                Ok(peers) => if peers.len() > 0 {
                    JoinStep::AddNodeAddr { peers, next: 0 }
                } else {
                    JoinStep::LoadTopic { peers }
                },
                Err(e) => JoinStep::Finished { result: Err(ChannelError::BadPeer(e)) },
            },
            (
                JoinStep::AddNodeAddr { peers, next },
                ChannelReply::Done,
            ) => if peers.len() - next > 1 {
                JoinStep::AddNodeAddr { peers, next: next + 1 }
            } else {
                JoinStep::LoadTopic { peers }
            },
            (JoinStep::LoadTopic { peers }, ChannelReply::Topic { bytes }) => JoinStep::Join {
                topic: topic_from_bytes(&bytes),
                nodes: node_ids(&peers),
            },
            (
                JoinStep::Join { topic, .. },
                ChannelReply::Done,
            ) => JoinStep::Finished { result: Ok(topic) },
            _ => JoinStep::Finished { result: Err(ChannelError::Outside) },
        }
    }
}

/// How a message is shown.
#[derive(Clone, Copy, Debug, PartialEq, Eq, Structural)]
pub enum Viewtype {
    Text,
}

/// What a system message is about.
#[derive(Clone, Copy, Debug, PartialEq, Eq, Structural)]
pub enum SystemMessage {
    IrohNodeAddr,
}

/// A message to a chat.
#[derive(Debug)]
pub struct Message {
    pub viewtype: Viewtype,
    pub hidden: bool,
    pub cmd: SystemMessage,
    /// The message id of the message that it replies to.
    pub in_reply_to: Option<String>,
}

/// Whether a message is an advertisement for the channel of the message with this id.
pub open spec fn is_advertisement(message: Message, rfc724_mid: Seq<char>) -> bool {
    &&& message.viewtype == Viewtype::Text
    &&& message.hidden
    &&& message.cmd == SystemMessage::IrohNodeAddr
    &&& crate::text::string_view(message.in_reply_to) == Some(rfc724_mid)
}

/// What is to be done next to advertise oneself in the chat of a channel.
#[derive(Debug)]
pub enum AdvertiseStep {
    LoadTopic,
    /// Join the topic.
    Join { step: JoinStep },
    /// Load the message that the channel belongs to.
    LoadWebxdc { topic: TopicId },
    /// Send the message to the chat.
    SendMessage { topic: TopicId, chat_id: u32, message: Message },
    /// Nothing: this is the result, the topic that was joined; `None` where an
    /// advertisement was sent before.
    Finished { result: Result<Option<TopicId>, ChannelError> },
}

pub open spec fn advertise_step_wf(step: AdvertiseStep) -> bool {
    step matches AdvertiseStep::Join { step } ==> join_step_wf(step) && !(step is Finished)
}

pub open spec fn advertise_answers(reply: ChannelReply, step: AdvertiseStep) -> bool {
    match step {
        AdvertiseStep::LoadTopic => is_topic(reply) || reply is Failed,
        AdvertiseStep::Join { step } => join_answers(reply, step),
        AdvertiseStep::LoadWebxdc { .. } => reply is Webxdc || reply is Failed,
        AdvertiseStep::SendMessage { .. } => reply is Done || reply is Failed,
        AdvertiseStep::Finished { .. } => false,
    }
}

/// How many kinds of steps can follow.
pub open spec fn advertise_phase(step: AdvertiseStep) -> nat {
    match step {
        AdvertiseStep::LoadTopic => 10,
        AdvertiseStep::Join { step } => 2 + join_phase(step),
        AdvertiseStep::LoadWebxdc { .. } => 2,
        AdvertiseStep::SendMessage { .. } => 1,
        AdvertiseStep::Finished { .. } => 0,
    }
}

/// How many peers the endpoint is still to be told of.
pub open spec fn advertise_peers_left(step: AdvertiseStep) -> int {
    match step {
        AdvertiseStep::Join { step } => peers_left(step),
        _ => 0,
    }
}

/// Whether the step is the one to take after a step to join the topic.
pub open spec fn advertise_after_join(join: JoinStep, next: AdvertiseStep) -> bool {
    match join {
        JoinStep::Finished { result: Ok(topic) } => next == (AdvertiseStep::LoadWebxdc { topic }),
        JoinStep::Finished { result: Err(e) } => next == (AdvertiseStep::Finished {
            result: Err(e),
        }),
        _ => next == (AdvertiseStep::Join { step: join }),
    }
}

/// Whether a step and its reply lead to the next step, and from one state to the other.
///
/// The topic is remembered before it is joined, and stays so if joining fails.
pub open spec fn advertise_follows(
    before: ContextView,
    step: AdvertiseStep,
    reply: ChannelReply,
    after: ContextView,
    next: AdvertiseStep,
) -> bool {
    match (step, reply) {
        (AdvertiseStep::Join { step }, _) => exists|join: JoinStep| #[trigger]
            join_follows(before, step, reply, after, join) && advertise_after_join(join, next),
        (_, ChannelReply::Failed) => after == before && next == (AdvertiseStep::Finished {
            result: Err(ChannelError::Outside),
        }),
        (
            AdvertiseStep::LoadTopic,
            ChannelReply::Topic { bytes },
        ) => if before.channels.contains(bytes@) {
            after == before && next == (AdvertiseStep::Finished { result: Ok(None) })
        } else {
            &&& after == (ContextView { channels: before.channels.insert(bytes@), ..before })
            &&& next matches AdvertiseStep::Join { step } && join_begins(after, step)
        },
        (
            AdvertiseStep::LoadWebxdc { topic },
            ChannelReply::Webxdc { rfc724_mid, chat_id },
        ) => {
            &&& after == before
            &&& next matches AdvertiseStep::SendMessage { topic: t, chat_id: c, message }
                && t == topic && c == chat_id && is_advertisement(message, rfc724_mid@)
        },
        (
            AdvertiseStep::SendMessage { topic, .. },
            ChannelReply::Done,
        ) => after == before && next == (AdvertiseStep::Finished { result: Ok(Some(topic)) }),
        _ => false,
    }
}

/// What is to be done next to send realtime data.
#[derive(Debug)]
pub enum SendStep {
    LoadTopic { data: Vec<u8> },
    /// Advertise oneself.
    Advertise { topic: TopicId, data: Vec<u8>, step: AdvertiseStep },
    /// Broadcast the payload to the swarm of the topic.
    Broadcast { topic: TopicId, payload: Vec<u8> },
    /// Nothing: this is the result.
    Finished { result: Result<(), ChannelError> },
}

pub open spec fn send_step_wf(step: SendStep) -> bool {
    step matches SendStep::Advertise { step, .. } ==> advertise_step_wf(step)
        && !(step is Finished)
}

pub open spec fn send_answers(reply: ChannelReply, step: SendStep) -> bool {
    match step {
        SendStep::LoadTopic { .. } => is_topic(reply) || reply is Failed,
        SendStep::Advertise { step, .. } => advertise_answers(reply, step),
        SendStep::Broadcast { .. } => reply is Done || reply is Failed,
        SendStep::Finished { .. } => false,
    }
}

/// How many kinds of steps can follow.
pub open spec fn send_phase(step: SendStep) -> nat {
    match step {
        SendStep::LoadTopic { .. } => 12,
        SendStep::Advertise { step, .. } => 1 + advertise_phase(step),
        SendStep::Broadcast { .. } => 1,
        SendStep::Finished { .. } => 0,
    }
}

/// How many peers the endpoint is still to be told of.
pub open spec fn send_peers_left(step: SendStep) -> int {
    match step {
        SendStep::Advertise { step, .. } => advertise_peers_left(step),
        _ => 0,
    }
}

/// Whether the step is the one to broadcast the data with some salt behind it.
pub open spec fn broadcasts(
    ctx: ContextView,
    topic: TopicId,
    data: Seq<u8>,
    next: SendStep,
) -> bool {
    if ctx.endpoint is Some {
        next matches SendStep::Broadcast { topic: t, payload } && t == topic
            && crate::payload::carries(payload@, data)
    } else {
        next == (SendStep::Finished { result: Err(ChannelError::NoGossip) })
    }
}

/// Whether the step is the one to take after a step to advertise oneself.
pub open spec fn send_after_advertise(
    ctx: ContextView,
    topic: TopicId,
    data: Vec<u8>,
    advertise: AdvertiseStep,
    next: SendStep,
) -> bool {
    match advertise {
        AdvertiseStep::Finished { result: Ok(_) } => broadcasts(ctx, topic, data@, next),
        AdvertiseStep::Finished { result: Err(e) } => next == (SendStep::Finished {
            result: Err(e),
        }),
        _ => next == (SendStep::Advertise { topic, data, step: advertise }),
    }
}

/// Whether a step and its reply lead to the next step, and from one state to the other.
pub open spec fn send_follows(
    before: ContextView,
    step: SendStep,
    reply: ChannelReply,
    after: ContextView,
    next: SendStep,
) -> bool {
    match (step, reply) {
        (SendStep::Advertise { topic, data, step }, _) => exists|advertise: AdvertiseStep|
         #[trigger]
            advertise_follows(before, step, reply, after, advertise) && send_after_advertise(
                after,
                topic,
                data,
                advertise,
                next,
            ),
        (_, ChannelReply::Failed) => after == before && next == (SendStep::Finished {
            result: Err(ChannelError::Outside),
        }),
        (
            SendStep::LoadTopic { data },
            ChannelReply::Topic { bytes },
        ) => {
            &&& after == before
            &&& if before.channels.contains(bytes@) {
                exists|topic: TopicId| topic@ == bytes@ && #[trigger]
                    broadcasts(before, topic, data@, next)
            } else {
                next matches SendStep::Advertise { topic, data: d, step } && topic@ == bytes@ && d
                    == data && step is LoadTopic
            }
        },
        (
            SendStep::Broadcast { .. },
            ChannelReply::Done,
        ) => after == before && next == (SendStep::Finished { result: Ok(()) }),
        _ => false,
    }
}

/// What is to be done next to leave a channel.
#[derive(Debug)]
pub enum LeaveStep {
    LoadTopic,
    /// Quit the topic.
    Quit { topic: TopicId },
    /// Nothing: this is the result.
    Finished { result: Result<(), ChannelError> },
}

pub open spec fn leave_answers(reply: ChannelReply, step: LeaveStep) -> bool {
    match step {
        LeaveStep::LoadTopic => is_topic(reply) || reply is Failed,
        LeaveStep::Quit { .. } => reply is Done || reply is Failed,
        LeaveStep::Finished { .. } => false,
    }
}

/// How many steps can follow.
pub open spec fn leave_steps_left(step: LeaveStep) -> nat {
    match step {
        LeaveStep::LoadTopic => 2,
        LeaveStep::Quit { .. } => 1,
        LeaveStep::Finished { .. } => 0,
    }
}

/// Whether a step and its reply lead to the next step, and from one state to the other.
pub open spec fn leave_follows(
    before: ContextView,
    step: LeaveStep,
    reply: ChannelReply,
    after: ContextView,
    next: LeaveStep,
) -> bool {
    match (step, reply) {
        (_, ChannelReply::Failed) => after == before && next == (LeaveStep::Finished {
            result: Err(ChannelError::Outside),
        }),
        (
            LeaveStep::LoadTopic,
            ChannelReply::Topic { bytes },
        ) => {
            &&& after == before
            &&& if before.endpoint is Some {
                next matches LeaveStep::Quit { topic } && topic@ == bytes@
            } else {
                next == (LeaveStep::Finished { result: Err(ChannelError::NoGossip) })
            }
        },
        (
            LeaveStep::Quit { topic },
            ChannelReply::Done,
        ) => {
            &&& after == (ContextView { channels: before.channels.remove(topic@), ..before })
            &&& next == (LeaveStep::Finished { result: Ok(()) })
        },
        _ => false,
    }
}

impl Context {
    fn step_advertise(&mut self, step: AdvertiseStep, reply: ChannelReply) -> (r:
        AdvertiseStep)
        requires
            old(self).wf(),
            advertise_step_wf(step),
            advertise_answers(reply, step),
        ensures
            final(self).wf(),
            advertise_step_wf(r),
            advertise_follows(old(self)@, step, reply, final(self)@, r),
            advertise_phase(r) < advertise_phase(step) || advertise_phase(r) == advertise_phase(
                step,
            ) && 0 <= advertise_peers_left(r) < advertise_peers_left(step),
    {
        match (step, reply) {
            (AdvertiseStep::Join { step }, reply) => {
                let join = self.step_join(step, reply);
                assert(join_follows(old(self)@, step, reply, self@, join));
                match join {
                    JoinStep::Finished { result } => match result {
                        Ok(topic) => AdvertiseStep::LoadWebxdc { topic },
                        Err(e) => AdvertiseStep::Finished { result: Err(e) },
                    },
                    step => AdvertiseStep::Join { step },
                }
            },
            (AdvertiseStep::LoadTopic, ChannelReply::Topic { bytes }) => {
                let topic = topic_from_bytes(&bytes);
                if self.has_channel(&topic) {
                    AdvertiseStep::Finished { result: Ok(None) }
                } else {
                    self.add_channel(topic);
                    AdvertiseStep::Join { step: self.begin_join() }
                }
            },
            (
                AdvertiseStep::LoadWebxdc { topic },
                ChannelReply::Webxdc { rfc724_mid, chat_id },
            ) => {
                let message = Message {
                    viewtype: Viewtype::Text,
                    hidden: true,
                    cmd: SystemMessage::IrohNodeAddr,
                    in_reply_to: Some(rfc724_mid),
                };
                AdvertiseStep::SendMessage { topic, chat_id, message }
            },
            (
                AdvertiseStep::SendMessage { topic, .. },
                ChannelReply::Done,
            ) => AdvertiseStep::Finished { result: Ok(Some(topic)) },
            _ => AdvertiseStep::Finished { result: Err(ChannelError::Outside) },
        }
    }

    fn broadcast(&self, topic: TopicId, data: Vec<u8>) -> (r: SendStep)
        ensures
            broadcasts(self@, topic, data@, r),
            send_phase(r) <= 1,
            send_step_wf(r),
            send_peers_left(r) == 0,
    {
        match self.endpoint {
            Some(_) => SendStep::Broadcast { topic, payload: add_random_salt(data) },
            None => SendStep::Finished { result: Err(ChannelError::NoGossip) },
        }
    }

    fn step_send(&mut self, step: SendStep, reply: ChannelReply) -> (r: SendStep)
        requires
            old(self).wf(),
            send_step_wf(step),
            send_answers(reply, step),
        ensures
            final(self).wf(),
            send_step_wf(r),
            send_follows(old(self)@, step, reply, final(self)@, r),
            send_phase(r) < send_phase(step) || send_phase(r) == send_phase(step) && 0
                <= send_peers_left(r) < send_peers_left(step),
    {
        match (step, reply) {
            (SendStep::Advertise { topic, data, step }, reply) => {
                let advertise = self.step_advertise(step, reply);
                assert(advertise_follows(old(self)@, step, reply, self@, advertise));
                match advertise {
                    AdvertiseStep::Finished { result } => match result {
                        Ok(_) => self.broadcast(topic, data),
                        Err(e) => SendStep::Finished { result: Err(e) },
                    },
                    step => SendStep::Advertise { topic, data, step },
                }
            },
            (SendStep::LoadTopic { data }, ChannelReply::Topic { bytes }) => {
                let topic = topic_from_bytes(&bytes);
                if self.has_channel(&topic) {
                    self.broadcast(topic, data)
                } else {
                    SendStep::Advertise { topic, data, step: AdvertiseStep::LoadTopic }
                }
            },
            (
                SendStep::Broadcast { .. },
                ChannelReply::Done,
            ) => SendStep::Finished { result: Ok(()) },
            _ => SendStep::Finished { result: Err(ChannelError::Outside) },
        }
    }

    fn step_leave(&mut self, step: LeaveStep, reply: ChannelReply) -> (r: LeaveStep)
        requires
            old(self).wf(),
            leave_answers(reply, step),
        ensures
            final(self).wf(),
            leave_follows(old(self)@, step, reply, final(self)@, r),
            leave_steps_left(r) < leave_steps_left(step),
    {
        match (step, reply) {
            (LeaveStep::LoadTopic, ChannelReply::Topic { bytes }) => match self.endpoint {
                Some(_) => LeaveStep::Quit { topic: topic_from_bytes(&bytes) },
                None => LeaveStep::Finished { result: Err(ChannelError::NoGossip) },
            },
            (LeaveStep::Quit { topic }, ChannelReply::Done) => {
                self.remove_channel(&topic);
                LeaveStep::Finished { result: Ok(()) }
            },
            _ => LeaveStep::Finished { result: Err(ChannelError::Outside) },
        }
    }
}

/// An operation under way on the channel that belongs to a message. Where a step asks for
/// a topic, for peers or for a message, it asks for those of that message.
#[derive(Debug)]
pub struct ChannelTask<S> {
    pub msg_id: MsgId,
    pub step: S,
}

impl Context {
    /// Begins to join the topic of a channel. If there is no endpoint, it is created.
    pub fn join_and_subscribe_gossip(&self, msg_id: MsgId) -> (r: ChannelTask<JoinStep>)
        ensures
            r.msg_id == msg_id,
            join_begins(self@, r.step),
            join_step_wf(r.step),
    {
        ChannelTask { msg_id, step: self.begin_join() }
    }

    /// Goes on to join a topic with what came of the step.
    pub fn resume_join(&mut self, task: ChannelTask<JoinStep>, reply: ChannelReply) -> (r:
        ChannelTask<JoinStep>)
        requires
            old(self).wf(),
            join_step_wf(task.step),
            join_answers(reply, task.step),
        ensures
            final(self).wf(),
            join_step_wf(r.step),
            r.msg_id == task.msg_id,
            join_follows(old(self)@, task.step, reply, final(self)@, r.step),
            join_phase(r.step) < join_phase(task.step) || join_phase(r.step) == join_phase(
                task.step,
            ) && 0 <= peers_left(r.step) < peers_left(task.step),
    {
        ChannelTask { msg_id: task.msg_id, step: self.step_join(task.step, reply) }
    }

    /// Begins to advertise oneself in the chat of a channel. The channel is joined if it
    /// was not joined before, and the endpoint created if there is none.
    pub fn send_webxdc_realtime_advertisement(&self, msg_id: MsgId) -> (r: ChannelTask<
        AdvertiseStep,
    >)
        ensures
            r == (ChannelTask { msg_id, step: AdvertiseStep::LoadTopic }),
    {
        ChannelTask { msg_id, step: AdvertiseStep::LoadTopic }
    }

    /// Goes on to advertise oneself with what came of the step.
    pub fn resume_advertise(
        &mut self,
        task: ChannelTask<AdvertiseStep>,
        reply: ChannelReply,
    ) -> (r: ChannelTask<AdvertiseStep>)
        requires
            old(self).wf(),
            advertise_step_wf(task.step),
            advertise_answers(reply, task.step),
        ensures
            final(self).wf(),
            advertise_step_wf(r.step),
            r.msg_id == task.msg_id,
            advertise_follows(old(self)@, task.step, reply, final(self)@, r.step),
            advertise_phase(r.step) < advertise_phase(task.step) || advertise_phase(r.step)
                == advertise_phase(task.step) && 0 <= advertise_peers_left(r.step)
                < advertise_peers_left(task.step),
    {
        ChannelTask { msg_id: task.msg_id, step: self.step_advertise(task.step, reply) }
    }

    /// Begins to send realtime data to the swarm of a channel.
    pub fn send_webxdc_realtime_data(&self, msg_id: MsgId, data: Vec<u8>) -> (r: ChannelTask<
        SendStep,
    >)
        ensures
            r == (ChannelTask { msg_id, step: SendStep::LoadTopic { data } }),
    {
        ChannelTask { msg_id, step: SendStep::LoadTopic { data } }
    }

    /// Goes on to send realtime data with what came of the step.
    pub fn resume_send(&mut self, task: ChannelTask<SendStep>, reply: ChannelReply) -> (r:
        ChannelTask<SendStep>)
        requires
            old(self).wf(),
            send_step_wf(task.step),
            send_answers(reply, task.step),
        ensures
            final(self).wf(),
            send_step_wf(r.step),
            r.msg_id == task.msg_id,
            send_follows(old(self)@, task.step, reply, final(self)@, r.step),
            send_phase(r.step) < send_phase(task.step) || send_phase(r.step) == send_phase(
                task.step,
            ) && 0 <= send_peers_left(r.step) < send_peers_left(task.step),
    {
        ChannelTask { msg_id: task.msg_id, step: self.step_send(task.step, reply) }
    }

    /// Begins to leave a channel.
    pub fn leave_gossip(&self, msg_id: MsgId) -> (r: ChannelTask<LeaveStep>)
        ensures
            r == (ChannelTask { msg_id, step: LeaveStep::LoadTopic }),
    {
        ChannelTask { msg_id, step: LeaveStep::LoadTopic }
    }

    /// Goes on to leave a channel with what came of the step.
    pub fn resume_leave(&mut self, task: ChannelTask<LeaveStep>, reply: ChannelReply) -> (r:
        ChannelTask<LeaveStep>)
        requires
            old(self).wf(),
            leave_answers(reply, task.step),
        ensures
            final(self).wf(),
            r.msg_id == task.msg_id,
            leave_follows(old(self)@, task.step, reply, final(self)@, r.step),
            leave_steps_left(r.step) < leave_steps_left(task.step),
    {
        ChannelTask { msg_id: task.msg_id, step: self.step_leave(task.step, reply) }
    }
}

/// Where there is an endpoint, creating one changes nothing, and none is bound.
pub proof fn law_second_endpoint_is_not_bound(
    before: ContextView,
    step: InitStep,
    reply: ChannelReply,
    after: ContextView,
    next: InitStep,
)
    ensures
        init_follows(before, step, reply, after, next) && before.endpoint is Some
            && !(step is BindEndpoint) ==> after == before && !(next is BindEndpoint),
{
}

/// Creating the endpoint succeeds only where there is an endpoint afterwards.
pub proof fn law_init_gives_an_endpoint(
    before: ContextView,
    step: InitStep,
    reply: ChannelReply,
    after: ContextView,
    next: InitStep,
)
    ensures
        init_follows(before, step, reply, after, next) && next == (InitStep::Finished {
            result: Ok::<(), ChannelError>(()),
        }) ==> after.endpoint is Some,
{
}

/// Joining a topic never changes for which topics an advertisement was sent.
pub proof fn law_join_keeps_channels(
    before: ContextView,
    step: JoinStep,
    reply: ChannelReply,
    after: ContextView,
    next: JoinStep,
)
    ensures
        join_follows(before, step, reply, after, next) ==> after.channels == before.channels,
{
    if join_follows(before, step, reply, after, next) {
        if let JoinStep::Init { step: init_step } = step {
            let init = choose|init: InitStep| #[trigger]
                init_follows(before, init_step, reply, after, init) && join_after_init(
                    after,
                    init,
                    next,
                );
            assert(init_follows(before, init_step, reply, after, init));
        }
    }
}

/// Advertising remembers the topic at its first step, and no later step, failed or not,
/// changes which topics are remembered.
pub proof fn law_advertise_remembers_topic_first(
    before: ContextView,
    step: AdvertiseStep,
    reply: ChannelReply,
    after: ContextView,
    next: AdvertiseStep,
)
    ensures
        advertise_follows(before, step, reply, after, next) ==> match (step, reply) {
            (
                AdvertiseStep::LoadTopic,
                ChannelReply::Topic { bytes },
            ) => after.channels == before.channels.insert(bytes@),
            _ => after.channels == before.channels,
        },
{
    if advertise_follows(before, step, reply, after, next) {
        match (step, reply) {
            (AdvertiseStep::Join { step: join_step }, _) => {
                let join = choose|join: JoinStep| #[trigger]
                    join_follows(before, join_step, reply, after, join) && advertise_after_join(
                        join,
                        next,
                    );
                law_join_keeps_channels(before, join_step, reply, after, join);
            },
            (AdvertiseStep::LoadTopic, ChannelReply::Topic { bytes }) => {
                assert(after.channels =~= before.channels.insert(bytes@));
            },
            _ => {},
        }
    }
}

/// Once a topic is remembered, advertising in its channel does nothing more: no message is
/// sent a second time.
pub proof fn law_advertised_once(
    before: ContextView,
    bytes: Vec<u8>,
    after: ContextView,
    next: AdvertiseStep,
)
    ensures
        advertise_follows(
            before,
            AdvertiseStep::LoadTopic,
            ChannelReply::Topic { bytes },
            after,
            next,
        ) && before.channels.contains(bytes@) ==> after == before && next == (
        AdvertiseStep::Finished { result: Ok::<Option<TopicId>, ChannelError>(None) }),
{
}

/// Sending data forgets no topic, and remembers no other than the one that it advertises.
pub proof fn law_send_forgets_no_channel(
    before: ContextView,
    step: SendStep,
    reply: ChannelReply,
    after: ContextView,
    next: SendStep,
)
    ensures
        send_follows(before, step, reply, after, next) ==> after.channels == before.channels || (
        reply matches ChannelReply::Topic { bytes } && after.channels == before.channels.insert(
            bytes@,
        )),
{
    if send_follows(before, step, reply, after, next) {
        if let SendStep::Advertise { topic, data, step: advertise_step } = step {
            let advertise = choose|advertise: AdvertiseStep| #[trigger]
                advertise_follows(before, advertise_step, reply, after, advertise)
                    && send_after_advertise(after, topic, data, advertise, next);
            law_advertise_remembers_topic_first(before, advertise_step, reply, after, advertise);
        }
    }
}

/// What is broadcast to send some data is received as that data, and only what can be
/// received is broadcast.
pub proof fn law_sent_data_is_received(
    ctx: ContextView,
    topic: TopicId,
    data: Seq<u8>,
    payload: Vec<u8>,
)
    ensures
        broadcasts(ctx, topic, data, SendStep::Broadcast { topic, payload }) ==> payload@.len()
            >= crate::payload::SALT_LEN && crate::payload::unsalted(payload@) == data,
{
}

/// Whether some replies, one after the other, lead from one step to advertise oneself to
/// another, and from one state to the other.
pub open spec fn advertise_runs(
    before: ContextView,
    step: AdvertiseStep,
    replies: Seq<ChannelReply>,
    after: ContextView,
    end: AdvertiseStep,
) -> bool
    decreases replies.len(),
{
    if replies.len() == 0 {
        after == before && end == step
    } else {
        exists|mid: ContextView, next: AdvertiseStep| #[trigger]
            advertise_follows(before, step, replies[0], mid, next) && advertise_runs(
                mid,
                next,
                replies.skip(1),
                after,
                end,
            )
    }
}

proof fn lemma_later_steps_keep_channels(
    before: ContextView,
    step: AdvertiseStep,
    replies: Seq<ChannelReply>,
    after: ContextView,
    end: AdvertiseStep,
)
    requires
        !(step is LoadTopic),
    ensures
        advertise_runs(before, step, replies, after, end) ==> after.channels == before.channels,
    decreases replies.len(),
{
    if replies.len() > 0 && advertise_runs(before, step, replies, after, end) {
        let (mid, next) = choose|mid: ContextView, next: AdvertiseStep| #[trigger]
            advertise_follows(before, step, replies[0], mid, next) && advertise_runs(
                mid,
                next,
                replies.skip(1),
                after,
                end,
            );
        law_advertise_remembers_topic_first(before, step, replies[0], mid, next);
        lemma_later_steps_keep_channels(mid, next, replies.skip(1), after, end);
    }
}

/// However far advertising comes, and whatever fails on the way, once the topic was loaded
/// exactly that topic is remembered in addition to those from before.
pub proof fn law_advertising_remembers_the_topic(
    before: ContextView,
    bytes: Vec<u8>,
    replies: Seq<ChannelReply>,
    after: ContextView,
    end: AdvertiseStep,
)
    ensures
        advertise_runs(
            before,
            AdvertiseStep::LoadTopic,
            seq![ChannelReply::Topic { bytes }] + replies,
            after,
            end,
        ) ==> after.channels == before.channels.insert(bytes@),
{
    let all = seq![ChannelReply::Topic { bytes }] + replies;
    if advertise_runs(before, AdvertiseStep::LoadTopic, all, after, end) {
        let (mid, next) = choose|mid: ContextView, next: AdvertiseStep| #[trigger]
            advertise_follows(before, AdvertiseStep::LoadTopic, all[0], mid, next)
                && advertise_runs(mid, next, all.skip(1), after, end);
        law_advertise_remembers_topic_first(
            before,
            AdvertiseStep::LoadTopic,
            all[0],
            mid,
            next,
        );
        lemma_later_steps_keep_channels(mid, next, all.skip(1), after, end);
    }
}

/// Leaving a channel undoes advertising in it, however far that came: the topics that are
/// remembered are those from before.
pub proof fn law_leaving_undoes_advertising(
    before: ContextView,
    bytes: Vec<u8>,
    replies: Seq<ChannelReply>,
    advertised: ContextView,
    end: AdvertiseStep,
    topic: TopicId,
    after: ContextView,
    left: LeaveStep,
)
    ensures
        advertise_runs(
            before,
            AdvertiseStep::LoadTopic,
            seq![ChannelReply::Topic { bytes }] + replies,
            advertised,
            end,
        ) && !before.channels.contains(bytes@) && topic@ == bytes@ && leave_follows(
            advertised,
            LeaveStep::Quit { topic },
            ChannelReply::Done,
            after,
            left,
        ) ==> after.channels == before.channels,
{
    law_advertising_remembers_the_topic(before, bytes, replies, advertised, end);
    if !before.channels.contains(bytes@) {
        assert(before.channels.insert(bytes@).remove(bytes@) =~= before.channels);
    }
}

} // verus!
