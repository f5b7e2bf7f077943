use deltachat_channels::mail::{from_addr, get_all_values, parse_mail, MailError};
use deltachat_channels::mime::{
    get_attachment_mime, get_autocrypt_mime, get_encrypted_mime, get_mixed_up_mime,
};

const ENCRYPTED: &str = "From: Alice <alice@example.org>\r\n\
Content-Type: multipart/encrypted; boundary=foo\r\n\
\r\n\
--foo\r\n\
Content-Type: application/pgp-encrypted\r\n\
\r\n\
Version: 1\r\n\
--foo\r\n\
Content-Type: application/octet-stream\r\n\
\r\n\
payload\r\n\
--foo--\r\n";

const MIXED_UP: &str = "Content-Type: multipart/mixed; boundary=foo\r\n\
\r\n\
--foo\r\n\
Content-Type: text/plain\r\n\
\r\n\
Empty Message\r\n\
--foo\r\n\
Content-Type: application/pgp-encrypted\r\n\
\r\n\
Version: 1\r\n\
--foo\r\n\
Content-Type: application/octet-stream\r\n\
Content-Transfer-Encoding: base64\r\n\
\r\n\
aGVsbG8=\r\n\
--foo--\r\n";

const ATTACHMENT: &str = "Content-Type: multipart/mixed; boundary=outer\r\n\
\r\n\
--outer\r\n\
Content-Type: text/plain\r\n\
\r\n\
footer\r\n\
--outer\r\n\
Content-Type: multipart/encrypted; boundary=inner\r\n\
\r\n\
--inner\r\n\
Content-Type: application/pgp-encrypted\r\n\
\r\n\
Version: 1\r\n\
--inner\r\n\
Content-Type: application/octet-stream\r\n\
\r\n\
payload\r\n\
--inner--\r\n\
--outer--\r\n";

#[test]
fn autocrypt_mail() {
    let mail = parse_mail(ENCRYPTED.as_bytes()).unwrap();
    assert!(get_autocrypt_mime(&mail).is_some());
    assert!(get_mixed_up_mime(&mail).is_none());
    assert!(get_attachment_mime(&mail).is_none());
    let part = get_encrypted_mime(&mail).unwrap();
    assert_eq!(part.mimetype, "application/octet-stream");
    assert_eq!(part.body, Some(b"payload\r\n".to_vec()));
}

#[test]
fn mixed_up_mail() {
    let mail = parse_mail(MIXED_UP.as_bytes()).unwrap();
    assert!(get_autocrypt_mime(&mail).is_none());
    assert!(get_mixed_up_mime(&mail).is_some());
    assert!(get_attachment_mime(&mail).is_none());
    assert_eq!(get_encrypted_mime(&mail).unwrap().body, Some(b"hello".to_vec()));
}

#[test]
fn attachment_mail() {
    let mail = parse_mail(ATTACHMENT.as_bytes()).unwrap();
    assert!(get_autocrypt_mime(&mail).is_none());
    assert!(get_mixed_up_mime(&mail).is_none());
    assert!(get_attachment_mime(&mail).is_some());
    assert_eq!(get_encrypted_mime(&mail).unwrap().body, Some(b"payload\r\n".to_vec()));
}

#[test]
fn plain_mail_has_no_encrypted_payload() {
    let mail = parse_mail(b"Subject: hi\r\n\r\nbody").unwrap();
    assert_eq!(mail.mimetype, "text/plain");
    assert!(get_encrypted_mime(&mail).is_none());
}

#[test]
fn mixed_up_mail_needs_all_types() {
    let text = MIXED_UP.replace("text/plain", "text/html");
    let mail = parse_mail(text.as_bytes()).unwrap();
    assert!(get_encrypted_mime(&mail).is_none());
}

#[test]
fn parsed_mail_is_the_tree_that_mailparse_finds() {
    let mail = parse_mail(ATTACHMENT.as_bytes()).unwrap();
    let parsed = mailparse::parse_mail(ATTACHMENT.as_bytes()).unwrap();
    assert_eq!(mail.raw_bytes, ATTACHMENT.as_bytes());
    assert_eq!(mail.mimetype, parsed.ctype.mimetype);
    assert_eq!(mail.subparts.len(), 2);
    assert_eq!(mail.subparts[0].subparts.len(), 0);
    assert_eq!(mail.subparts[1].subparts.len(), 2);
    assert_eq!(
        mail.subparts[1].subparts[0].raw_bytes,
        parsed.subparts[1].subparts[0].raw_bytes
    );
    assert_eq!(mail.subparts[1].subparts[0].body, Some(b"Version: 1\r\n".to_vec()));
}

#[test]
fn body_that_cannot_be_decoded() {
    let mail = parse_mail(b"Content-Transfer-Encoding: base64\r\n\r\n!!!").unwrap();
    assert_eq!(mail.body, None);
}

#[test]
fn malformed_mail() {
    assert_eq!(parse_mail(b" overhanging").err(), Some(MailError::Malformed));
}

#[test]
fn headers_of_a_mail() {
    let mail =
        parse_mail(b"From: Bob <bob@example.net>\nKey: one\nKey: two\n three\n\nbody").unwrap();
    assert_eq!(get_all_values(&mail, "key"), Ok(vec!["one".to_string(), "two three".to_string()]));
    assert_eq!(get_all_values(&mail, "Other"), Ok(vec![]));
    assert_eq!(from_addr(&mail), "bob@example.net");
}

#[test]
fn headers_that_cannot_be_read() {
    let mut mail = parse_mail(b"Key: one\n\n").unwrap();
    mail.raw_bytes = b" overhanging".to_vec();
    assert_eq!(get_all_values(&mail, "Key"), Err(MailError::Malformed));
}

#[test]
fn from_address_is_empty_unless_there_is_exactly_one() {
    let mail = parse_mail(b"From: a@b.c, d@e.f\n\n").unwrap();
    assert_eq!(from_addr(&mail), "");
    let mail = parse_mail(b"Subject: x\n\n").unwrap();
    assert_eq!(from_addr(&mail), "");
    let mail = parse_mail(b"From: team: a@b.c;\n\n").unwrap();
    assert_eq!(from_addr(&mail), "");
}
