//! The MIME structure of a mail, and where in it an encrypted payload stands.
use crate::text::str_eq;
use vstd::prelude::*;

verus! {

/// A mail, or a part of one.
#[derive(Debug)]
pub struct MimePart {
    /// The type and subtype, in lower case.
    pub mimetype: String,
    /// All bytes of the part, its headers included.
    pub raw_bytes: Vec<u8>,
    /// The body with its transfer encoding undone; `None` where that fails.
    pub body: Option<Vec<u8>>,
    /// The parts of a multipart, in order.
    pub subparts: Vec<MimePart>,
}

/// What a [`MimePart`] stands for.
#[verifier::ext_equal]
pub struct MimeTree {
    pub mimetype: Seq<char>,
    pub raw_bytes: Seq<u8>,
    pub body: Option<Seq<u8>>,
    pub subparts: Seq<MimeTree>,
}

pub open spec fn bytes_view(bytes: Option<Vec<u8>>) -> Option<Seq<u8>> {
    match bytes {
        Some(b) => Some(b@),
        None => None,
    }
}

impl MimePart {
    pub open spec fn tree(&self) -> MimeTree
        decreases self,
    {
        MimeTree {
            mimetype: self.mimetype@,
            raw_bytes: self.raw_bytes@,
            body: bytes_view(self.body),
            subparts: Seq::new(
                self.subparts@.len(),
                |i: int|
                    if 0 <= i < self.subparts@.len() {
                        self.subparts@[i].tree()
                    } else {
                        arbitrary()
                    },
            ),
        }
    }
}

/// The encrypted payload of a PGP/MIME mail.
pub open spec fn autocrypt_payload(mail: MimeTree) -> Option<MimeTree> {
    if mail.mimetype == "multipart/encrypted"@ && mail.subparts.len() == 2
        && mail.subparts[0].mimetype == "application/pgp-encrypted"@
        && mail.subparts[1].mimetype == "application/octet-stream"@ {
        Some(mail.subparts[1])
    } else {
        None
    }
}

/// The encrypted payload of a "Mixed Up" mail.
pub open spec fn mixed_up_payload(mail: MimeTree) -> Option<MimeTree> {
    if mail.mimetype == "multipart/mixed"@ && mail.subparts.len() == 3
        && mail.subparts[0].mimetype == "text/plain"@ && mail.subparts[1].mimetype
        == "application/pgp-encrypted"@ && mail.subparts[2].mimetype
        == "application/octet-stream"@ {
        Some(mail.subparts[2])
    } else {
        None
    }
}

/// The encrypted payload of a mail that was turned into an attachment.
pub open spec fn attachment_payload(mail: MimeTree) -> Option<MimeTree> {
    if mail.mimetype == "multipart/mixed"@ && mail.subparts.len() == 2
        && mail.subparts[0].mimetype == "text/plain"@ && mail.subparts[1].mimetype
        == "multipart/encrypted"@ {
        autocrypt_payload(mail.subparts[1])
    } else {
        None
    }
}

/// The encrypted payload of a mail, whichever of the three forms it has.
pub open spec fn encrypted_payload(mail: MimeTree) -> Option<MimeTree> {
    if autocrypt_payload(mail) is Some {
        autocrypt_payload(mail)
    } else if mixed_up_payload(mail) is Some {
        mixed_up_payload(mail)
    } else {
        attachment_payload(mail)
    }
}

/// A mail has at most one of the three encrypted forms.
pub proof fn law_encrypted_forms_exclude_each_other(mail: MimeTree)
    ensures
        autocrypt_payload(mail) is Some ==> mixed_up_payload(mail) is None && attachment_payload(
            mail,
        ) is None,
        mixed_up_payload(mail) is Some ==> attachment_payload(mail) is None,
{
    reveal_strlit("multipart/encrypted");
    reveal_strlit("multipart/mixed");
    assert("multipart/encrypted"@.len() != "multipart/mixed"@.len());
}

/// An encrypted payload is always an octet stream.
pub proof fn law_payload_is_octet_stream(mail: MimeTree)
    ensures
        encrypted_payload(mail) matches Some(p) ==> p.mimetype == "application/octet-stream"@,
{
}

/// A part stands for what its fields hold, and for what each of its subparts stands for.
pub proof fn law_tree_holds_the_part(part: &MimePart, i: int)
    ensures
        part.tree().mimetype == part.mimetype@,
        part.tree().raw_bytes == part.raw_bytes@,
        part.body matches Some(body) ==> part.tree().body == Some(body@),
        part.body is None ==> part.tree().body is None,
        part.tree().subparts.len() == part.subparts@.len(),
        0 <= i < part.subparts@.len() ==> part.tree().subparts[i] == part.subparts@[i].tree(),
{
}

/// A version part and an octet stream are found as a payload, whatever else the mail and
/// its parts hold: as the two parts of an encrypted mail, and behind a plain text in a
/// mixed one.
pub proof fn law_payload_is_found(
    mail: MimeTree,
    text: MimeTree,
    version: MimeTree,
    payload: MimeTree,
)
    requires
        text.mimetype == "text/plain"@,
        version.mimetype == "application/pgp-encrypted"@,
        payload.mimetype == "application/octet-stream"@,
    ensures
        mail.mimetype == "multipart/encrypted"@ && mail.subparts == seq![version, payload]
            ==> autocrypt_payload(mail) == Some(payload) && encrypted_payload(mail) == Some(
            payload,
        ),
        mail.mimetype == "multipart/mixed"@ && mail.subparts == seq![text, version, payload]
            ==> mixed_up_payload(mail) == Some(payload) && encrypted_payload(mail) == Some(payload),
{
    law_encrypted_forms_exclude_each_other(mail);
}

/// An encrypted mail that was attached to a plain text has the payload that it had before,
/// and has none if it had none.
pub proof fn law_attached_mail_keeps_its_payload(mail: MimeTree, text: MimeTree, attached: MimeTree)
    requires
        text.mimetype == "text/plain"@,
        attached.mimetype == "multipart/encrypted"@,
        mail.mimetype == "multipart/mixed"@,
        mail.subparts == seq![text, attached],
    ensures
        attachment_payload(mail) == autocrypt_payload(attached),
        encrypted_payload(mail) == encrypted_payload(attached),
{
    reveal_strlit("multipart/encrypted");
    reveal_strlit("multipart/mixed");
    assert("multipart/encrypted"@.len() != "multipart/mixed"@.len());
}

/// No other mail has a payload: where there is one, it is the last of the parts of a mail of
/// one of the three forms.
pub proof fn law_no_other_mail_has_a_payload(mail: MimeTree, payload: MimeTree)
    ensures
        autocrypt_payload(mail) == Some(payload) ==> {
            &&& mail.mimetype == "multipart/encrypted"@
            &&& mail.subparts.len() == 2
            &&& mail.subparts[0].mimetype == "application/pgp-encrypted"@
            &&& mail.subparts[1] == payload
            &&& payload.mimetype == "application/octet-stream"@
        },
        mixed_up_payload(mail) == Some(payload) ==> {
            &&& mail.mimetype == "multipart/mixed"@
            &&& mail.subparts.len() == 3
            &&& mail.subparts[0].mimetype == "text/plain"@
            &&& mail.subparts[1].mimetype == "application/pgp-encrypted"@
            &&& mail.subparts[2] == payload
            &&& payload.mimetype == "application/octet-stream"@
        },
        attachment_payload(mail) == Some(payload) ==> {
            &&& mail.mimetype == "multipart/mixed"@
            &&& mail.subparts.len() == 2
            &&& mail.subparts[0].mimetype == "text/plain"@
            &&& mail.subparts[1].mimetype == "multipart/encrypted"@
            &&& mail.subparts[1].subparts.len() == 2
            &&& mail.subparts[1].subparts[0].mimetype == "application/pgp-encrypted"@
            &&& mail.subparts[1].subparts[1] == payload
            &&& payload.mimetype == "application/octet-stream"@
        },
        encrypted_payload(mail) == Some(payload) <==> autocrypt_payload(mail) == Some(payload)
            || mixed_up_payload(mail) == Some(payload) || attachment_payload(mail) == Some(payload),
{
    law_encrypted_forms_exclude_each_other(mail);
}

fn has_type(part: &MimePart, mimetype: &str) -> (r: bool)
    ensures
        r == (part.tree().mimetype == mimetype@),
{
    str_eq(part.mimetype.as_str(), mimetype)
}

/// Returns the encrypted payload of a "Mixed Up" mail.
///
/// Encrypted mails should have the type `multipart/encrypted` and two parts, but some
/// servers change the type to `multipart/mixed` and put an empty part in front. The
/// contents of that part are not looked at, only its type, `text/plain`.
///
/// Returns `None` if the mail is not a "Mixed Up" mail.
pub fn get_mixed_up_mime<'a>(mail: &'a MimePart) -> (r: Option<&'a MimePart>)
    ensures
        match r {
            Some(part) => mixed_up_payload(mail.tree()) == Some(part.tree()),
            None => mixed_up_payload(mail.tree()) is None,
        },
{
    if !has_type(mail, "multipart/mixed") || mail.subparts.len() != 3 {
        return None;
    }
    if has_type(&mail.subparts[0], "text/plain") && has_type(
        &mail.subparts[1],
        "application/pgp-encrypted",
    ) && has_type(&mail.subparts[2], "application/octet-stream") {
        Some(&mail.subparts[2])
    } else {
        None
    }
}

/// Returns the encrypted payload of a mail that was turned into an attachment.
///
/// Some servers append a footer to each mail. They turn an encrypted mail into a
/// `multipart/mixed` of a plain text part with the footer and the encrypted mail.
pub fn get_attachment_mime<'a>(mail: &'a MimePart) -> (r: Option<&'a MimePart>)
    ensures
        match r {
            Some(part) => attachment_payload(mail.tree()) == Some(part.tree()),
            None => attachment_payload(mail.tree()) is None,
        },
{
    if !has_type(mail, "multipart/mixed") || mail.subparts.len() != 2 {
        return None;
    }
    if has_type(&mail.subparts[0], "text/plain") && has_type(
        &mail.subparts[1],
        "multipart/encrypted",
    ) {
        get_autocrypt_mime(&mail.subparts[1])
    } else {
        None
    }
}

/// Returns the encrypted payload of a valid PGP/MIME mail.
///
/// Returns `None` if the mail is not a valid PGP/MIME mail.
pub fn get_autocrypt_mime<'a>(mail: &'a MimePart) -> (r: Option<&'a MimePart>)
    ensures
        match r {
            Some(part) => autocrypt_payload(mail.tree()) == Some(part.tree()),
            None => autocrypt_payload(mail.tree()) is None,
        },
{
    if !has_type(mail, "multipart/encrypted") || mail.subparts.len() != 2 {
        return None;
    }
    if has_type(&mail.subparts[0], "application/pgp-encrypted") && has_type(
        &mail.subparts[1],
        "application/octet-stream",
    ) {
        Some(&mail.subparts[1])
    } else {
        None
    }
}

/// Returns the encrypted payload of a mail, whichever of the three forms it has.
pub fn get_encrypted_mime<'a>(mail: &'a MimePart) -> (r: Option<&'a MimePart>)
    ensures
        match r {
            Some(part) => encrypted_payload(mail.tree()) == Some(part.tree()),
            None => encrypted_payload(mail.tree()) is None,
        },
{
    match get_autocrypt_mime(mail) {
        Some(part) => Some(part),
        None => match get_mixed_up_mime(mail) {
            Some(part) => Some(part),
            None => get_attachment_mime(mail),
        },
    }
}

} // verus!
