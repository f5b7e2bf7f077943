use deltachat_channels::auth_results::AuthResultsError;
use deltachat_channels::decryption_info::{
    collect_decryption_info, create_decryption_info, InfoCollection, InfoError, InfoReply, InfoStep,
};
use deltachat_channels::keys::{Aheader, Fingerprint, Peerstate, SignedPublicKey};
use deltachat_channels::mail::{parse_mail, MailError};
use deltachat_channels::peerstate::PeerstateStep;

const MAIL: &[u8] = b"From: Alice <alice@example.org>\r\n\
Authentication-Results: mx dkim=pass header.d=example.org\r\n\
Authentication-Results: other dkim=fail\r\n\r\nhi";

fn header() -> Aheader {
    Aheader {
        public_key: SignedPublicKey { fingerprint: Fingerprint { bytes: vec![9] }, bytes: vec![1] },
    }
}

fn up_to_domain(mail: &[u8]) -> InfoCollection {
    create_decryption_info(&parse_mail(mail).unwrap(), 42)
        .resume(InfoReply::AutocryptHeader { header: Some(header()) })
}

fn domain() -> InfoReply {
    InfoReply::SenderDomain { domain: "example.org".to_string() }
}

fn candidates(config: Option<&str>) -> InfoReply {
    InfoReply::Candidates { config: config.map(|s| s.to_string()) }
}

#[test]
fn info_is_collected() {
    let c = create_decryption_info(&parse_mail(MAIL).unwrap(), 42);
    assert_eq!(c.from, "alice@example.org");
    assert!(matches!(c.step, InfoStep::ReadAutocryptHeader));
    let c = up_to_domain(MAIL);
    assert!(matches!(c.step, InfoStep::ReadSenderDomain));
    let c = c.resume(domain());
    assert!(matches!(c.step, InfoStep::LoadCandidates { .. }));
    let c = c.resume(candidates(Some("x mx")));
    match &c.step {
        InfoStep::StoreCandidates { config, .. } => assert_eq!(config, "mx"),
        _ => panic!("not stored"),
    }
    let c = c.resume(InfoReply::Stored);
    assert!(matches!(c.step, InfoStep::ReloadCandidates { .. }));
    let c = c.resume(candidates(Some("mx")));
    assert!(matches!(
        c.step,
        InfoStep::UpdatePeerstate { dkim_passed: true, allow_change: true }
    ));
    let lookup = c.update_peerstate().unwrap();
    assert_eq!(lookup.from, "alice@example.org");
    assert_eq!(lookup.message_time, 42);
    assert!(lookup.allow_change);
    match lookup.step {
        PeerstateStep::LoadByVerifiedFingerprintOrAddr { fingerprint } => {
            assert_eq!(fingerprint.bytes, vec![9])
        }
        _ => panic!("not loaded by fingerprint"),
    }
    let peerstate = Peerstate { addr: "p".to_string(), public_key: None, gossip_key: None };
    let c = c.resume(InfoReply::Peerstate { peerstate: Some(peerstate) });
    match c.step {
        InfoStep::Finished { result: Ok(info) } => {
            assert_eq!(info.from, "alice@example.org");
            assert_eq!(info.autocrypt_header.unwrap().public_key.fingerprint.bytes, vec![9]);
            assert_eq!(info.peerstate.unwrap().addr, "p");
            assert_eq!(info.message_time, 42);
        }
        _ => panic!("not finished"),
    }
}

#[test]
fn failed_dkim_still_allows_key_changes() {
    let c = up_to_domain(MAIL).resume(domain()).resume(candidates(Some("other")));
    let c = c.resume(InfoReply::Stored).resume(candidates(Some("other")));
    assert!(matches!(
        c.step,
        InfoStep::UpdatePeerstate { dkim_passed: false, allow_change: true }
    ));
}

#[test]
fn candidates_stay_without_results() {
    let c = up_to_domain(b"From: a@b.c\n\n").resume(domain());
    assert!(matches!(c.step, InfoStep::ReloadCandidates { .. }));
    let c = c.resume(candidates(None));
    assert!(matches!(c.step, InfoStep::UpdatePeerstate { dkim_passed: true, .. }));
}

#[test]
fn unreadable_autocrypt_header_counts_as_none() {
    let c = create_decryption_info(&parse_mail(MAIL).unwrap(), 1).resume(InfoReply::Failed);
    assert!(matches!(c.step, InfoStep::ReadSenderDomain));
    assert!(c.autocrypt_header.is_none());
    assert!(c.update_peerstate().is_none());
}

#[test]
fn errors_of_the_collection() {
    let c = up_to_domain(MAIL).resume(InfoReply::Failed);
    assert!(matches!(c.step, InfoStep::Finished { result: Err(InfoError::Outside) }));
    let c = collect_decryption_info(String::new(), Ok(vec![" ".to_string()]), 0)
        .resume(InfoReply::AutocryptHeader { header: None })
        .resume(domain());
    assert!(matches!(
        c.step,
        InfoStep::Finished { result: Err(InfoError::AuthResults(AuthResultsError::EmptyHeader)) }
    ));
    let c = collect_decryption_info(String::new(), Err(MailError::Malformed), 0)
        .resume(InfoReply::Failed)
        .resume(domain());
    assert!(matches!(
        c.step,
        InfoStep::Finished { result: Err(InfoError::AuthResults(AuthResultsError::Mail(_))) }
    ));
}
