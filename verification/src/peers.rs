//! The peers of a realtime channel: their addresses, and how these are stored.
use vstd::prelude::*;

verus! {

/// Identifies the message that a realtime channel belongs to.
#[derive(Clone, Copy, Debug)]
pub struct MsgId(pub u32);

/// Identifies a swarm of peers.
#[derive(Clone, Copy, Debug)]
pub struct TopicId {
    pub bytes: [u8; 32],
}

/// Identifies a node: its public key.
#[derive(Clone, Copy, Debug)]
pub struct NodeId {
    pub bytes: [u8; 32],
}

/// How to reach a node: through a relay, where one is known. There are no direct
/// addresses.
#[derive(Debug)]
pub struct NodeAddr {
    pub node_id: NodeId,
    pub relay_url: Option<String>,
}

/// What a [`NodeAddr`] stands for.
pub struct NodeAddrView {
    pub node_id: Seq<u8>,
    pub relay_url: Option<Seq<char>>,
}

impl TopicId {
    pub open spec fn view(self) -> Seq<u8> {
        self.bytes@
    }

    /// The topic with these bytes.
    pub fn from_bytes(bytes: [u8; 32]) -> (r: Self)
        ensures
            r@ == bytes@,
    {
        TopicId { bytes }
    }
}

impl NodeId {
    pub open spec fn view(self) -> Seq<u8> {
        self.bytes@
    }
}

impl NodeAddr {
    pub open spec fn view(self) -> NodeAddrView {
        NodeAddrView { node_id: self.node_id@, relay_url: crate::text::string_view(self.relay_url) }
    }
}

/// A peer as it is stored.
#[derive(Debug)]
pub struct PeerRow {
    pub public_key: Vec<u8>,
    pub relay_server: Option<String>,
}

/// Why a stored peer cannot be read.
#[derive(Clone, Copy, Debug, PartialEq, Eq, Structural)]
pub enum PeerRowError {
    /// The relay server is not a URL.
    BadRelayUrl,
    /// The public key is not thirty-two bytes long.
    BadKeyLength,
    /// The public key is not a point on the curve.
    BadKey,
}

/// The parse error of url, which is carried and never looked into.
#[verifier::external_type_specification]
#[verifier::external_body]
pub struct ExUrlParseError(url::ParseError);

/// The relay URL that a text stands for, as text; `None` where it is not a URL.
pub uninterp spec fn relay_url_of(text: Seq<char>) -> Option<Seq<char>>;

/// Calls `url::Url::parse`, and makes an `iroh_base::node_addr::RelayUrl` of the URL.
///
/// Trusted: whether a text is a URL, and of which relay, depends on the text alone.
#[verifier::external_body]
fn read_relay_url(text: &str) -> (r: Result<String, url::ParseError>)
    ensures
        match r {
            Ok(relay) => relay_url_of(text@) == Some(relay@),
            Err(_) => relay_url_of(text@) is None,
        },
{
    Ok(iroh_base::node_addr::RelayUrl::from(url::Url::parse(text)?).to_string())
}

/// Whether thirty-two bytes are the public key of a node.
pub uninterp spec fn is_node_key(bytes: Seq<u8>) -> bool;

/// Calls `iroh_base::key::NodeId::from_bytes`.
///
/// Trusted: whether bytes are a key depends on the bytes alone, and a key has the bytes
/// that it is made from.
#[verifier::external_body]
fn read_node_id(bytes: &[u8; 32]) -> (r: Option<[u8; 32]>)
    ensures
        match r {
            Some(id) => is_node_key(bytes@) && id@ == bytes@,
            None => !is_node_key(bytes@),
        },
{
    iroh_base::key::NodeId::from_bytes(bytes).ok().map(|id| *id.as_bytes())
}

/// Calls `rand::random`.
///
/// Trusted: nothing but that there are thirty-two bytes, which their type says.
#[verifier::external_body]
fn random_bytes() -> [u8; 32] {
    rand::random()
}

/// A new topic, chosen at random: the topic with random bytes. Which bytes these are is
/// left to chance.
pub fn create_random_topic() -> (r: TopicId)
    ensures
        r@.len() == 32,
{
    TopicId::from_bytes(random_bytes())
}

/// What a [`PeerRow`] stands for.
pub struct PeerRowView {
    pub public_key: Seq<u8>,
    pub relay_server: Option<Seq<char>>,
}

impl PeerRow {
    pub open spec fn view(self) -> PeerRowView {
        PeerRowView {
            public_key: self.public_key@,
            relay_server: crate::text::string_view(self.relay_server),
        }
    }
}

/// What a stored relay server stands for.
pub open spec fn relay_part(relay_server: Option<Seq<char>>) -> Result<
    Option<Seq<char>>,
    PeerRowError,
> {
    match relay_server {
        Some(text) => match relay_url_of(text) {
            Some(url) => Ok(Some(url)),
            None => Err(PeerRowError::BadRelayUrl),
        },
        None => Ok(None),
    }
}

/// What a stored public key stands for.
pub open spec fn key_part(public_key: Seq<u8>) -> Result<Seq<u8>, PeerRowError> {
    if public_key.len() != 32 {
        Err(PeerRowError::BadKeyLength)
    } else if !is_node_key(public_key) {
        Err(PeerRowError::BadKey)
    } else {
        Ok(public_key)
    }
}

/// An address of a relay and a node, or the first of the errors.
pub open spec fn combine(
    relay: Result<Option<Seq<char>>, PeerRowError>,
    node_id: Result<Seq<u8>, PeerRowError>,
) -> Result<NodeAddrView, PeerRowError> {
    match relay {
        Ok(relay_url) => match node_id {
            Ok(node_id) => Ok(NodeAddrView { node_id, relay_url }),
            Err(e) => Err(e),
        },
        Err(e) => Err(e),
    }
}

/// The address that a stored peer stands for.
pub open spec fn addr_of_row(row: PeerRowView) -> Result<NodeAddrView, PeerRowError> {
    combine(relay_part(row.relay_server), key_part(row.public_key))
}

/// Whether `r` is what the stored peers stand for: an address for each, in order, or the
/// error of the first that cannot be read.
pub open spec fn rows_read_as(
    rows: Seq<PeerRow>,
    r: Result<Vec<NodeAddr>, PeerRowError>,
) -> bool {
    match r {
        Ok(addrs) => {
            &&& addrs@.len() == rows.len()
            &&& forall|i: int|
                0 <= i < rows.len() ==> addr_of_row((#[trigger] rows[i])@) == Ok::<
                    NodeAddrView,
                    PeerRowError,
                >(addrs@[i]@)
        },
        Err(e) => exists|n: int|
            {
                &&& 0 <= n < rows.len()
                &&& addr_of_row((#[trigger] rows[n])@) == Err::<NodeAddrView, PeerRowError>(e)
                &&& forall|i: int| 0 <= i < n ==> addr_of_row((#[trigger] rows[i])@) is Ok
            },
    }
}

/// Whether a stored peer holds a public key, and a relay server that is a URL or none.
pub open spec fn is_readable(row: PeerRow) -> bool {
    &&& row.public_key@.len() == 32
    &&& is_node_key(row.public_key@)
    &&& row.relay_server matches Some(text) ==> relay_url_of(text@) is Some
}

/// Whether an address is that of a stored peer: its key, and what its relay server reads as.
pub open spec fn is_addr_of(addr: NodeAddr, row: PeerRow) -> bool {
    &&& addr.node_id.bytes@ == row.public_key@
    &&& match row.relay_server {
        Some(text) => addr.relay_url matches Some(url) && relay_url_of(text@) == Some(url@),
        None => addr.relay_url is None,
    }
}

/// Stored peers are read each with its own key and relay, in order and all of them, wherever
/// each can be read.
pub proof fn law_readable_peers_are_read(
    rows: Seq<PeerRow>,
    r: Result<Vec<NodeAddr>, PeerRowError>,
)
    ensures
        rows_read_as(rows, r) ==> (r is Ok <==> forall|i: int|
            0 <= i < rows.len() ==> is_readable(#[trigger] rows[i])),
        rows_read_as(rows, r) ==> (r matches Ok(addrs) ==> addrs@.len() == rows.len() && forall|
            i: int,
        |
            0 <= i < rows.len() ==> is_addr_of(#[trigger] addrs@[i], rows[i])),
{
    if rows_read_as(rows, r) {
        match r {
            Ok(addrs) => {
                assert forall|i: int| 0 <= i < rows.len() implies is_readable(
                    #[trigger] rows[i],
                ) by {
                    assert(addr_of_row(rows[i]@) is Ok);
                }
                assert forall|i: int| 0 <= i < rows.len() implies is_addr_of(
                    #[trigger] addrs@[i],
                    rows[i],
                ) by {
                    assert(addr_of_row(rows[i]@) == Ok::<NodeAddrView, PeerRowError>(addrs@[i]@));
                }
            },
            Err(e) => {
                let n = choose|n: int|
                    {
                        &&& 0 <= n < rows.len()
                        &&& addr_of_row((#[trigger] rows[n])@) == Err::<
                            NodeAddrView,
                            PeerRowError,
                        >(e)
                        &&& forall|i: int| 0 <= i < n ==> addr_of_row((#[trigger] rows[i])@) is Ok
                    };
                assert(!is_readable(rows[n]));
            },
        }
    }
}

/// The first stored peer that cannot be read decides upon the error: by its relay server, or
/// else by the length of its key, or else by the key.
pub proof fn law_first_unreadable_peer_decides(
    rows: Seq<PeerRow>,
    n: int,
    r: Result<Vec<NodeAddr>, PeerRowError>,
)
    requires
        0 <= n < rows.len(),
    ensures
        rows_read_as(rows, r) && !is_readable(rows[n]) && (forall|i: int|
            0 <= i < n ==> is_readable(#[trigger] rows[i])) ==> r == Err::<
            Vec<NodeAddr>,
            PeerRowError,
        >(
            if rows[n].relay_server matches Some(text) && relay_url_of(text@) is None {
                PeerRowError::BadRelayUrl
            } else if rows[n].public_key@.len() != 32 {
                PeerRowError::BadKeyLength
            } else {
                PeerRowError::BadKey
            },
        ),
{
    if rows_read_as(rows, r) && !is_readable(rows[n]) && (forall|i: int|
        0 <= i < n ==> is_readable(#[trigger] rows[i])) {
        law_readable_peers_are_read(rows, r);
        assert(addr_of_row(rows[n]@) is Err);
        if let Err(e) = r {
            let m = choose|m: int|
                {
                    &&& 0 <= m < rows.len()
                    &&& addr_of_row((#[trigger] rows[m])@) == Err::<NodeAddrView, PeerRowError>(e)
                    &&& forall|i: int| 0 <= i < m ==> addr_of_row((#[trigger] rows[i])@) is Ok
                };
            if m < n {
                assert(is_readable(rows[m]));
            } else if n < m {
                assert(addr_of_row(rows[n]@) is Ok);
            }
        }
    }
}

/// The bytes as an array, where there are thirty-two of them.
pub fn to_array(bytes: &Vec<u8>) -> (r: Option<[u8; 32]>)
    ensures
        match r {
            Some(a) => a@ == bytes@,
            None => bytes@.len() != 32,
        },
{
    if bytes.len() != 32 {
        return None;
    }
    let mut a: [u8; 32] = [0u8;32];
    let mut i: usize = 0;
    while i < 32
        invariant
            i <= 32,
            bytes@.len() == 32,
            forall|j: int| 0 <= j < i ==> a@[j] == bytes@[j],
        decreases 32 - i,
    {
        a[i] = bytes[i];
        i = i + 1;
    }
    assert(a@ =~= bytes@);
    Some(a)
}

/// The bytes of an array, as they are stored.
pub fn to_vec(bytes: &[u8; 32]) -> (r: Vec<u8>)
    ensures
        r@ == bytes@,
{
    let mut v: Vec<u8> = Vec::new();
    let mut i: usize = 0;
    while i < 32
        invariant
            i <= 32,
            v@ == bytes@.take(i as int),
        decreases 32 - i,
    {
        v.push(bytes[i]);
        assert(v@ =~= bytes@.take(i + 1));
        i = i + 1;
    }
    assert(bytes@.take(32) =~= bytes@);
    v
}

pub open spec fn relay_view(relay: Result<Option<String>, PeerRowError>) -> Result<
    Option<Seq<char>>,
    PeerRowError,
> {
    match relay {
        Ok(url) => Ok(crate::text::string_view(url)),
        Err(e) => Err(e),
    }
}

pub open spec fn node_id_view(node_id: Result<NodeId, PeerRowError>) -> Result<
    Seq<u8>,
    PeerRowError,
> {
    match node_id {
        Ok(id) => Ok(id@),
        Err(e) => Err(e),
    }
}

pub open spec fn node_addr_view(addr: Result<NodeAddr, PeerRowError>) -> Result<
    NodeAddrView,
    PeerRowError,
> {
    match addr {
        Ok(addr) => Ok(addr@),
        Err(e) => Err(e),
    }
}

/// An address of a relay and a node. Where neither can be read, the error is that of the
/// relay.
pub fn node_addr_from_parts(
    relay: Result<Option<String>, PeerRowError>,
    node_id: Result<NodeId, PeerRowError>,
) -> (r: Result<NodeAddr, PeerRowError>)
    ensures
        node_addr_view(r) == combine(relay_view(relay), node_id_view(node_id)),
{
    match relay {
        Ok(relay_url) => match node_id {
            Ok(node_id) => Ok(NodeAddr { node_id, relay_url }),
            Err(e) => Err(e),
        },
        Err(e) => Err(e),
    }
}

/// The relay that a text names.
pub fn parse_relay_url(text: &str) -> (r: Result<String, PeerRowError>)
    ensures
        match r {
            Ok(url) => relay_url_of(text@) == Some(url@),
            Err(e) => relay_url_of(text@) is None && e == PeerRowError::BadRelayUrl,
        },
{
    match read_relay_url(text) {
        Ok(url) => Ok(url),
        Err(_) => Err(PeerRowError::BadRelayUrl),
    }
}

/// The address that a stored peer stands for.
pub fn node_addr_from_row(row: &PeerRow) -> (r: Result<NodeAddr, PeerRowError>)
    ensures
        node_addr_view(r) == addr_of_row(row@),
{
    let relay = match &row.relay_server {
        Some(text) => match parse_relay_url(text.as_str()) {
            Ok(url) => Ok(Some(url)),
            Err(e) => Err(e),
        },
        None => Ok(None),
    };
    let node_id = match to_array(&row.public_key) {
        Some(bytes) => match read_node_id(&bytes) {
            Some(bytes) => Ok(NodeId { bytes }),
            None => Err(PeerRowError::BadKey),
        },
        None => Err(PeerRowError::BadKeyLength),
    };
    node_addr_from_parts(relay, node_id)
}

/// The addresses that the stored peers of a channel stand for.
pub fn get_gossip_peers(rows: &Vec<PeerRow>) -> (r: Result<Vec<NodeAddr>, PeerRowError>)
    ensures
        rows_read_as(rows@, r),
{
    let mut addrs: Vec<NodeAddr> = Vec::new();
    let mut i: usize = 0;
    while i < rows.len()
        invariant
            i <= rows.len(),
            addrs@.len() == i,
            forall|j: int|
                0 <= j < i ==> addr_of_row((#[trigger] rows@[j])@) == Ok::<
                    NodeAddrView,
                    PeerRowError,
                >(addrs@[j]@),
        decreases rows.len() - i,
    {
        match node_addr_from_row(&rows[i]) {
            Ok(addr) => {
                addrs.push(addr);
            },
            Err(e) => {
                assert(addr_of_row(rows@[i as int]@) == Err::<NodeAddrView, PeerRowError>(e));
                return Err(e);
            },
        }
        i = i + 1;
    }
    Ok(addrs)
}

/// The topic that stored bytes stand for.
pub fn topic_from_bytes(bytes: &Vec<u8>) -> (r: TopicId)
    requires
        bytes@.len() == 32,
    ensures
        r@ == bytes@,
{
    match to_array(bytes) {
        Some(bytes) => TopicId { bytes },
        None => TopicId { bytes: [0u8;32] },
    }
}

/// A peer of a topic, as it is to be stored.
#[derive(Debug)]
pub struct PeerRecord {
    pub msg_id: MsgId,
    pub topic: Vec<u8>,
    pub row: PeerRow,
}

/// What to store to remember a peer of a topic.
pub fn add_peer_for_topic(
    msg_id: MsgId,
    topic: &TopicId,
    peer: &NodeId,
    relay_server: Option<&str>,
) -> (r: PeerRecord)
    ensures
        r.msg_id == msg_id,
        r.topic@ == topic@,
        r.row@ == (PeerRowView {
            public_key: peer@,
            relay_server: crate::text::str_view(relay_server),
        }),
{
    let relay_server = match relay_server {
        Some(text) => Some(text.to_owned()),
        None => None,
    };
    PeerRecord {
        msg_id,
        topic: to_vec(&topic.bytes),
        row: PeerRow { public_key: to_vec(&peer.bytes), relay_server },
    }
}

/// A peer that was stored with its key is read back with that key, and with the relay
/// that was stored with it.
pub proof fn law_stored_peer_is_read_back(peer: NodeId, relay_server: Option<Seq<char>>)
    ensures
        is_node_key(peer@) && relay_server is None ==> addr_of_row(
            PeerRowView { public_key: peer@, relay_server },
        ) == Ok::<NodeAddrView, PeerRowError>(
            NodeAddrView { node_id: peer@, relay_url: None },
        ),
        is_node_key(peer@) ==> (relay_server matches Some(text) ==> (relay_url_of(
            text,
        ) matches Some(url) ==> addr_of_row(
            PeerRowView { public_key: peer@, relay_server },
        ) == Ok::<NodeAddrView, PeerRowError>(
            NodeAddrView { node_id: peer@, relay_url: Some(url) },
        ))),
{
}

} // verus!
