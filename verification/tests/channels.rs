use deltachat_channels::channels::{
    AdvertiseStep, ChannelError, ChannelReply, ChannelTask, Context, InitStep, JoinStep, LeaveStep,
    SendStep, SystemMessage, Viewtype,
};
use deltachat_channels::payload::strip_salt;
use deltachat_channels::peers::{MsgId, NodeId, PeerRow, PeerRowError, TopicId};
use deltachat_channels::secret_key::new_keypair;

fn node(n: u8) -> [u8; 32] {
    *iroh_base::key::SecretKey::from_bytes(&[n; 32]).public().as_bytes()
}

fn topic(n: u8) -> ChannelReply {
    ChannelReply::Topic { bytes: vec![n; 32] }
}

fn peers(list: &[u8]) -> ChannelReply {
    let rows = list
        .iter()
        .map(|n| PeerRow { public_key: node(*n).to_vec(), relay_server: None })
        .collect();
    ChannelReply::Peers { rows }
}

fn with_endpoint() -> Context {
    let mut ctx = Context::new();
    let text = new_keypair([1; 32]).persist;
    let step = ctx.resume_init(InitStep::LoadSecretKey, ChannelReply::SecretKey { stored: text });
    let bound = ChannelReply::Bound { node_id: NodeId { bytes: node(1) } };
    let step = ctx.resume_init(step, bound);
    assert!(matches!(step, InitStep::Finished { result: Ok(()) }));
    ctx
}

fn webxdc() -> ChannelReply {
    ChannelReply::Webxdc { rfc724_mid: "mid".to_string(), chat_id: 12 }
}

fn advertise(ctx: &mut Context, n: u8) {
    let t = ctx.send_webxdc_realtime_advertisement(MsgId(1));
    let t = ctx.resume_advertise(t, topic(n));
    let t = ctx.resume_advertise(t, peers(&[]));
    let t = ctx.resume_advertise(t, topic(n));
    let t = ctx.resume_advertise(t, ChannelReply::Done);
    let t = ctx.resume_advertise(t, webxdc());
    let t = ctx.resume_advertise(t, ChannelReply::Done);
    assert_eq!(t.msg_id.0, 1);
    match t.step {
        AdvertiseStep::Finished { result: Ok(Some(joined)) } => {
            assert_eq!(joined.bytes, [n; 32])
        }
        _ => panic!("not advertised"),
    }
}

#[test]
fn endpoint_is_created_with_a_new_key() {
    let mut ctx = Context::new();
    assert!(ctx.node_id().is_none());
    let step = ctx.inite_peer_channels();
    let step = ctx.resume_init(step, ChannelReply::SecretKey { stored: None });
    let secret = match &step {
        InitStep::StoreSecretKey { secret_key, text } => {
            assert_eq!(new_keypair(*secret_key).persist, Some(text.clone()));
            *secret_key
        }
        _ => panic!("not stored"),
    };
    let step = ctx.resume_init(step, ChannelReply::Done);
    match &step {
        InitStep::BindEndpoint { secret_key, alpn, relay_url } => {
            assert_eq!(*secret_key, secret);
            assert_eq!(alpn, b"/iroh-gossip/0");
            assert_eq!(relay_url, "https://iroh.testrun.org.:4443/");
        }
        _ => panic!("not bound"),
    }
    let bound = ChannelReply::Bound { node_id: NodeId { bytes: node(5) } };
    let step = ctx.resume_init(step, bound);
    assert!(matches!(step, InitStep::Finished { result: Ok(()) }));
    assert_eq!(ctx.node_id().unwrap().bytes, node(5));
}

#[test]
fn second_endpoint_is_not_created() {
    let mut ctx = with_endpoint();
    let stored = new_keypair([2; 32]).persist;
    let step = ctx.resume_init(InitStep::LoadSecretKey, ChannelReply::SecretKey { stored });
    assert!(matches!(step, InitStep::Finished { result: Ok(()) }));
    assert_eq!(ctx.node_id().unwrap().bytes, node(1));
}

#[test]
fn own_address_needs_an_endpoint() {
    let relay = Some("https://r./".to_string());
    assert_eq!(
        Context::new().get_iroh_node_addr(relay.clone()).err(),
        Some(ChannelError::NoGossip)
    );
    let addr = with_endpoint().get_iroh_node_addr(relay.clone()).unwrap();
    assert_eq!(addr.node_id.bytes, node(1));
    assert_eq!(addr.relay_url, relay);
}

#[test]
fn joining_creates_the_endpoint_and_adds_peers() {
    let mut ctx = Context::new();
    let t = ctx.join_and_subscribe_gossip(MsgId(4));
    let stored = new_keypair([1; 32]).persist;
    let t = ctx.resume_join(t, ChannelReply::SecretKey { stored });
    assert!(matches!(t.step, JoinStep::Init { step: InitStep::BindEndpoint { .. } }));
    let bound = ChannelReply::Bound { node_id: NodeId { bytes: node(1) } };
    let t = ctx.resume_join(t, bound);
    match &t.step {
        JoinStep::LoadPeers { own } => assert_eq!(own.bytes, node(1)),
        _ => panic!("not loaded"),
    }
    let t = ctx.resume_join(t, peers(&[2, 3]));
    assert!(matches!(t.step, JoinStep::AddNodeAddr { next: 0, .. }));
    let t = ctx.resume_join(t, ChannelReply::Done);
    assert!(matches!(t.step, JoinStep::AddNodeAddr { next: 1, .. }));
    let t = ctx.resume_join(t, ChannelReply::Done);
    let t = ctx.resume_join(t, topic(8));
    match &t.step {
        JoinStep::Join { topic, nodes } => {
            assert_eq!(topic.bytes, [8; 32]);
            assert_eq!(nodes.len(), 2);
            assert_eq!(nodes[0].bytes, node(2));
            assert_eq!(nodes[1].bytes, node(3));
        }
        _ => panic!("not joined"),
    }
    let t = ctx.resume_join(t, ChannelReply::Done);
    assert_eq!(t.msg_id.0, 4);
    assert!(matches!(t.step, JoinStep::Finished { result: Ok(_) }));
    assert_eq!(ctx.channels_len(), 0);
}

#[test]
fn joining_fails_on_a_bad_peer() {
    let mut ctx = with_endpoint();
    let t = ctx.join_and_subscribe_gossip(MsgId(4));
    let rows = vec![PeerRow { public_key: vec![1], relay_server: None }];
    let t = ctx.resume_join(t, ChannelReply::Peers { rows });
    assert!(matches!(
        t.step,
        JoinStep::Finished { result: Err(ChannelError::BadPeer(PeerRowError::BadKeyLength)) }
    ));
}

#[test]
fn advertisement_is_sent_once() {
    let mut ctx = with_endpoint();
    let t = ctx.send_webxdc_realtime_advertisement(MsgId(1));
    let t = ctx.resume_advertise(t, topic(8));
    assert!(ctx.has_channel(&TopicId { bytes: [8; 32] }));
    let t = ctx.resume_advertise(t, peers(&[]));
    let t = ctx.resume_advertise(t, topic(8));
    let t = ctx.resume_advertise(t, ChannelReply::Done);
    assert!(matches!(t.step, AdvertiseStep::LoadWebxdc { .. }));
    let t = ctx.resume_advertise(t, webxdc());
    match &t.step {
        AdvertiseStep::SendMessage { chat_id, message, .. } => {
            assert_eq!(*chat_id, 12);
            assert!(message.hidden);
            assert_eq!(message.viewtype, Viewtype::Text);
            assert_eq!(message.cmd, SystemMessage::IrohNodeAddr);
            assert_eq!(message.in_reply_to, Some("mid".to_string()));
        }
        _ => panic!("not sent"),
    }
    let t = ctx.resume_advertise(t, ChannelReply::Done);
    assert!(matches!(t.step, AdvertiseStep::Finished { result: Ok(Some(_)) }));
    let t = ctx.send_webxdc_realtime_advertisement(MsgId(1));
    let t = ctx.resume_advertise(t, topic(8));
    assert!(matches!(t.step, AdvertiseStep::Finished { result: Ok(None) }));
}

#[test]
fn failed_advertisement_stays_remembered() {
    let mut ctx = with_endpoint();
    let t = ctx.send_webxdc_realtime_advertisement(MsgId(1));
    let t = ctx.resume_advertise(t, topic(8));
    let t = ctx.resume_advertise(t, ChannelReply::Failed);
    assert!(matches!(t.step, AdvertiseStep::Finished { result: Err(ChannelError::Outside) }));
    assert_eq!(ctx.channels_len(), 1);
}

#[test]
fn leaving_undoes_advertising() {
    let mut ctx = with_endpoint();
    advertise(&mut ctx, 7);
    advertise(&mut ctx, 8);
    assert_eq!(ctx.channels_len(), 2);
    let t = ctx.leave_gossip(MsgId(1));
    let t = ctx.resume_leave(t, topic(7));
    match &t.step {
        LeaveStep::Quit { topic } => assert_eq!(topic.bytes, [7; 32]),
        _ => panic!("not left"),
    }
    let t = ctx.resume_leave(t, ChannelReply::Done);
    assert!(matches!(t.step, LeaveStep::Finished { result: Ok(()) }));
    assert_eq!(ctx.channels_len(), 1);
    assert!(!ctx.has_channel(&TopicId { bytes: [7; 32] }));
    assert!(ctx.has_channel(&TopicId { bytes: [8; 32] }));
    advertise(&mut ctx, 7);
    assert_eq!(ctx.channels_len(), 2);
}

#[test]
fn leaving_needs_gossip() {
    let mut ctx = Context::new();
    let t = ctx.leave_gossip(MsgId(1));
    let t = ctx.resume_leave(t, topic(7));
    assert!(matches!(t.step, LeaveStep::Finished { result: Err(ChannelError::NoGossip) }));
}

#[test]
fn failed_quit_keeps_the_channel() {
    let mut ctx = with_endpoint();
    advertise(&mut ctx, 7);
    let t = ctx.leave_gossip(MsgId(1));
    let t = ctx.resume_leave(t, topic(7));
    let t = ctx.resume_leave(t, ChannelReply::Failed);
    assert!(matches!(t.step, LeaveStep::Finished { result: Err(ChannelError::Outside) }));
    assert_eq!(ctx.channels_len(), 1);
}

fn payload(t: &ChannelTask<SendStep>) -> Vec<u8> {
    match &t.step {
        SendStep::Broadcast { payload, .. } => strip_salt(payload),
        _ => panic!("not broadcast"),
    }
}

#[test]
fn sending_advertises_first() {
    let mut ctx = with_endpoint();
    let t = ctx.send_webxdc_realtime_data(MsgId(1), b"alice -> bob".to_vec());
    let t = ctx.resume_send(t, topic(7));
    assert!(matches!(t.step, SendStep::Advertise { step: AdvertiseStep::LoadTopic, .. }));
    let t = ctx.resume_send(t, topic(7));
    let t = ctx.resume_send(t, peers(&[]));
    let t = ctx.resume_send(t, topic(7));
    let t = ctx.resume_send(t, ChannelReply::Done);
    let t = ctx.resume_send(t, webxdc());
    let t = ctx.resume_send(t, ChannelReply::Done);
    assert_eq!(payload(&t), b"alice -> bob");
    let t = ctx.resume_send(t, ChannelReply::Done);
    assert!(matches!(t.step, SendStep::Finished { result: Ok(()) }));
    assert_eq!(ctx.channels_len(), 1);
    let t = ctx.send_webxdc_realtime_data(MsgId(1), b"bob -> alice 2".to_vec());
    let t = ctx.resume_send(t, topic(7));
    assert_eq!(payload(&t), b"bob -> alice 2");
}

#[test]
fn sending_without_gossip_fails() {
    let mut ctx = Context::new();
    let t = ctx.send_webxdc_realtime_advertisement(MsgId(1));
    let t = ctx.resume_advertise(t, topic(7));
    let t = ctx.resume_advertise(t, ChannelReply::Failed);
    assert!(matches!(t.step, AdvertiseStep::Finished { result: Err(ChannelError::Outside) }));
    let t = ctx.send_webxdc_realtime_data(MsgId(1), b"x".to_vec());
    let t = ctx.resume_send(t, topic(7));
    assert!(matches!(t.step, SendStep::Finished { result: Err(ChannelError::NoGossip) }));
}
