use deltachat_channels::decrypt::{
    check_detached_signature, decrypt_part, try_decrypt, validate_detached_signature, Decrypted,
    DecryptError, DecryptReply, DecryptStep, DecryptionInfo,
};
use deltachat_channels::keys::{
    keyring_from_peerstate, Fingerprint, Keyring, Peerstate, SignedPublicKey,
};
use deltachat_channels::mail::{parse_mail, MailError};
use deltachat_channels::mime::MimePart;
use std::collections::HashSet;

fn leaf(mimetype: &str, body: Option<&[u8]>) -> MimePart {
    MimePart {
        mimetype: mimetype.to_string(),
        raw_bytes: body.unwrap_or(b"").to_vec(),
        body: body.map(|b| b.to_vec()),
        subparts: vec![],
    }
}

fn encrypted(payload: Option<&[u8]>) -> MimePart {
    MimePart {
        mimetype: "multipart/encrypted".to_string(),
        raw_bytes: vec![],
        body: Some(vec![]),
        subparts: vec![
            leaf("application/pgp-encrypted", Some(b"Version: 1")),
            leaf("application/octet-stream", payload),
        ],
    }
}

fn key(n: u8) -> SignedPublicKey {
    SignedPublicKey { fingerprint: Fingerprint { bytes: vec![n] }, bytes: vec![n, n] }
}

fn info(peerstate: Option<Peerstate>) -> DecryptionInfo {
    DecryptionInfo { from: "a@b.c".to_string(), autocrypt_header: None, peerstate, message_time: 7 }
}

fn peer(public_key: Option<SignedPublicKey>, gossip_key: Option<SignedPublicKey>) -> Peerstate {
    Peerstate { addr: "a@b.c".to_string(), public_key, gossip_key }
}

fn content(step: DecryptStep) -> Decrypted {
    match step {
        DecryptStep::Finished { result: Ok(Some(decrypted)) } => decrypted,
        _ => panic!("not delivered"),
    }
}

fn error(step: DecryptStep) -> DecryptError {
    match step {
        DecryptStep::Finished { result: Err(e) } => e,
        _ => panic!("no error"),
    }
}

const ARMOR: &[u8] = b"-----BEGIN PGP MESSAGE-----\nabc";

const SIGNED: &[u8] = b"Content-Type: multipart/signed; boundary=foo\r\n\r\n\
--foo\r\nContent-Type: text/plain\r\n\r\nhello\r\n\
--foo\r\nContent-Type: application/pgp-signature\r\n\r\nsig\r\n--foo--\r\n";

#[test]
fn keyring_prefers_the_announced_key() {
    let keyring = keyring_from_peerstate(&Some(peer(Some(key(1)), Some(key(2)))));
    assert_eq!(keyring.len(), 1);
    assert_eq!(keyring.get(0).unwrap().fingerprint.bytes, vec![1]);
    let keyring = keyring_from_peerstate(&Some(peer(None, Some(key(2)))));
    assert_eq!(keyring.get(0).unwrap().bytes, vec![2, 2]);
    assert!(keyring.get(1).is_none());
    assert_eq!(keyring_from_peerstate(&Some(peer(None, None))).len(), 0);
    assert_eq!(keyring_from_peerstate(&None).len(), 0);
}

#[test]
fn mail_that_is_not_encrypted_is_ignored() {
    let mail = leaf("text/plain", Some(b"hi"));
    let d = try_decrypt(&mail, &info(None));
    assert!(matches!(d.step, DecryptStep::Finished { result: Ok(None) }));
}

#[test]
fn payload_that_is_not_armored_is_ignored() {
    let mail = encrypted(Some(b"no armor"));
    let d = try_decrypt(&mail, &info(None)).resume(DecryptReply::KeyringLoaded);
    assert!(matches!(d.step, DecryptStep::Finished { result: Ok(None) }));
}

#[test]
fn payload_that_cannot_be_decoded_is_an_error() {
    let part = leaf("application/octet-stream", None);
    let d = decrypt_part(&part, Keyring::new()).step;
    assert_eq!(error(d), DecryptError::Mail(MailError::BadBody));
}

#[test]
fn unsigned_mail_is_delivered_as_it_is() {
    let mail = encrypted(Some(ARMOR));
    let d = try_decrypt(&mail, &info(Some(peer(Some(key(3)), None))));
    assert_eq!(d.keyring.get(0).unwrap().bytes, vec![3, 3]);
    assert!(matches!(d.step, DecryptStep::LoadOwnKeyring { .. }));
    let d = d.resume(DecryptReply::KeyringLoaded);
    match &d.step {
        DecryptStep::PkDecrypt { data } => assert_eq!(data, ARMOR),
        _ => panic!("not decrypted"),
    }
    let plain = b"Subject: x\r\n\r\nhello".to_vec();
    let d = d.resume(DecryptReply::Decrypted { plain: plain.clone(), signatures: HashSet::new() });
    assert_eq!(d.keyring.len(), 1);
    let decrypted = content(d.step);
    assert_eq!(decrypted.content, plain);
    assert!(decrypted.signatures.is_empty());
}

#[test]
fn detached_signature_is_validated() {
    let mail = encrypted(Some(ARMOR));
    let d = try_decrypt(&mail, &info(None)).resume(DecryptReply::KeyringLoaded);
    let signatures = HashSet::from([Fingerprint { bytes: vec![1] }]);
    let d = d.resume(DecryptReply::Decrypted { plain: SIGNED.to_vec(), signatures });
    match &d.step {
        DecryptStep::PkValidate { content, signature } => {
            assert_eq!(content, b"Content-Type: text/plain\r\n\r\nhello\r\n");
            assert_eq!(signature, b"sig\r\n");
        }
        _ => panic!("not validated"),
    }
    let d = d.resume(DecryptReply::Validated { signatures: HashSet::new() });
    let decrypted = content(d.step);
    assert_eq!(decrypted.content, b"Content-Type: text/plain\r\n\r\nhello\r\n");
    assert!(decrypted.signatures.is_empty());
}

#[test]
fn signatures_are_passed_on() {
    let mail = encrypted(Some(ARMOR));
    let signatures = || HashSet::from([key(1).fingerprint, key(2).fingerprint]);
    let d = try_decrypt(&mail, &info(None)).resume(DecryptReply::KeyringLoaded);
    let plain = b"Subject: x\r\n\r\nhello".to_vec();
    let d = d.resume(DecryptReply::Decrypted { plain, signatures: signatures() });
    assert_eq!(content(d.step).signatures, signatures());
    let d = try_decrypt(&mail, &info(None)).resume(DecryptReply::KeyringLoaded);
    let plain = SIGNED.to_vec();
    let d = d.resume(DecryptReply::Decrypted { plain, signatures: HashSet::new() });
    let d = d.resume(DecryptReply::Validated { signatures: signatures() });
    assert_eq!(content(d.step).signatures, signatures());
}

#[test]
fn what_was_decrypted_has_to_be_a_mail() {
    let mail = encrypted(Some(ARMOR));
    let d = try_decrypt(&mail, &info(None)).resume(DecryptReply::KeyringLoaded);
    let d = d.resume(DecryptReply::Decrypted { plain: b" x".to_vec(), signatures: HashSet::new() });
    assert_eq!(error(d.step), DecryptError::Mail(MailError::Malformed));
}

#[test]
fn failure_outside_ends_the_decryption() {
    let mail = encrypted(Some(ARMOR));
    let d = try_decrypt(&mail, &info(None)).resume(DecryptReply::Failed);
    assert_eq!(error(d.step), DecryptError::Outside);
    let d = try_decrypt(&mail, &info(None)).resume(DecryptReply::KeyringLoaded);
    assert_eq!(error(d.resume(DecryptReply::Failed).step), DecryptError::Outside);
}

#[test]
fn signed_multipart_needs_two_parts() {
    let mail = parse_mail(SIGNED).unwrap();
    let found = validate_detached_signature(&mail).unwrap().unwrap();
    assert_eq!(found.signature, b"sig\r\n");
    let mut mail = parse_mail(SIGNED).unwrap();
    mail.subparts[1].body = None;
    assert_eq!(validate_detached_signature(&mail).err(), Some(MailError::BadBody));
    mail.subparts.pop();
    assert!(validate_detached_signature(&mail).unwrap().is_none());
    let step = check_detached_signature(b"p".to_vec(), HashSet::new(), Ok(mail));
    assert_eq!(content(step).content, b"p");
    let step = check_detached_signature(b"p".to_vec(), HashSet::new(), Err(MailError::Malformed));
    assert_eq!(error(step), DecryptError::Mail(MailError::Malformed));
}
