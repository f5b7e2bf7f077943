use deltachat_channels::keys::{Aheader, Fingerprint, Peerstate, SignedPublicKey};
use deltachat_channels::peerstate::{get_autocrypt_peerstate, PeerstateReply, PeerstateStep};

fn header() -> Aheader {
    Aheader {
        public_key: SignedPublicKey { fingerprint: Fingerprint { bytes: vec![5] }, bytes: vec![6] },
    }
}

fn peer(addr: &str) -> Peerstate {
    Peerstate { addr: addr.to_string(), public_key: None, gossip_key: None }
}

fn addr(step: PeerstateStep) -> Option<String> {
    match step {
        PeerstateStep::Finished { result: Ok(p) } => p.map(|p| p.addr),
        _ => panic!("not finished"),
    }
}

#[test]
fn header_is_applied_and_saved() {
    let h = header();
    let l = get_autocrypt_peerstate("a", Some(&h), 3, true);
    match &l.step {
        PeerstateStep::LoadByVerifiedFingerprintOrAddr { fingerprint } => {
            assert_eq!(fingerprint.bytes, vec![5])
        }
        _ => panic!("not loaded"),
    }
    let l = l.resume(PeerstateReply::Loaded { found: Some(peer("a")), same_addr: true });
    assert!(matches!(l.step, PeerstateStep::ApplyHeader { .. }));
    let l = l.resume(PeerstateReply::Updated { peerstate: peer("updated") });
    assert!(matches!(l.step, PeerstateStep::Save { create: false, .. }));
    assert_eq!(l.message_time, 3);
    assert_eq!(addr(l.resume(PeerstateReply::Saved).step), Some("updated".to_string()));
}

#[test]
fn new_state_is_created() {
    let h = header();
    let l = get_autocrypt_peerstate("a", Some(&h), 3, false);
    let l = l.resume(PeerstateReply::Loaded { found: None, same_addr: false });
    assert!(matches!(l.step, PeerstateStep::MakeFromHeader));
    let l = l.resume(PeerstateReply::Updated { peerstate: peer("new") });
    assert!(matches!(l.step, PeerstateStep::Save { create: true, .. }));
    assert_eq!(addr(l.resume(PeerstateReply::Saved).step), Some("new".to_string()));
}

#[test]
fn foreign_state_is_returned_unchanged() {
    let h = header();
    let l = get_autocrypt_peerstate("a", Some(&h), 3, true);
    let l = l.resume(PeerstateReply::Loaded { found: Some(peer("b")), same_addr: false });
    assert_eq!(addr(l.step), Some("b".to_string()));
    let l = get_autocrypt_peerstate("a", Some(&h), 3, false);
    let l = l.resume(PeerstateReply::Loaded { found: Some(peer("a")), same_addr: true });
    assert_eq!(addr(l.step), Some("a".to_string()));
}

#[test]
fn without_header_the_stored_state_counts() {
    let l = get_autocrypt_peerstate("a", None, 3, true);
    assert!(matches!(l.step, PeerstateStep::LoadByAddr));
    let l = l.resume(PeerstateReply::Loaded { found: Some(peer("a")), same_addr: true });
    assert_eq!(addr(l.step), Some("a".to_string()));
    let l = get_autocrypt_peerstate("a", None, 3, true).resume(PeerstateReply::Failed);
    assert!(matches!(l.step, PeerstateStep::Finished { result: Err(()) }));
}
