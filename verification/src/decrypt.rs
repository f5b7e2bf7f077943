//! Decrypting a mail, step by step.
//!
//! The keys of the user, and the cryptography itself, are outside of this module. A
//! [`Decryption`] says what is to be done there next, and goes on with what came of it.
use crate::armor::has_decrypted_pgp_armor;
use crate::keys::{keyring_from_peerstate, Aheader, Fingerprint, Keyring, Peerstate};
use crate::mail::{parse_mail, MailError};
use crate::mime::{get_encrypted_mime, MimePart, MimeTree};
use crate::text::str_eq;
use std::collections::HashSet;
use vstd::prelude::*;

verus! {

/// What is known of a mail before it is decrypted.
#[derive(Debug)]
pub struct DecryptionInfo {
    /// The From address: that of the unencrypted, outer From header.
    pub from: String,
    pub autocrypt_header: Option<Aheader>,
    /// The peerstate that is used to validate the signatures.
    pub peerstate: Option<Peerstate>,
    /// The timestamp when the mail was sent. If it is older than what the peerstate was
    /// last seen with, the mail probably arrived out of order, and the peerstate is not
    /// modified.
    pub message_time: i64,
}

/// A decrypted mail, and the keys with which it was validly signed.
#[derive(Debug)]
pub struct Decrypted {
    pub content: Vec<u8>,
    pub signatures: HashSet<Fingerprint>,
}

/// A signature that stands beside what it signs.
#[derive(Debug)]
pub struct DetachedSignature {
    pub content: Vec<u8>,
    pub signature: Vec<u8>,
}

/// Why a mail cannot be decrypted.
#[derive(Clone, Copy, Debug, PartialEq, Eq, Structural)]
pub enum DecryptError {
    /// The mail, or what was decrypted, cannot be read.
    Mail(MailError),
    /// What was asked for outside failed.
    Outside,
}

/// What is to be done next.
#[derive(Debug)]
pub enum DecryptStep<'a> {
    /// Load the user's own keyring, to decrypt `part`.
    LoadOwnKeyring { part: &'a MimePart },
    /// Decrypt `data` with the user's own keyring, and find the keys of the other keyring
    /// with which it is validly signed.
    PkDecrypt { data: Vec<u8> },
    /// Find the keys with which `signature` is a valid signature of `content`.
    PkValidate { content: Vec<u8>, signature: Vec<u8> },
    /// Nothing: this is the result. `Ok(None)` where nothing encrypted was found.
    Finished { result: Result<Option<Decrypted>, DecryptError> },
}

/// What came of a step.
#[derive(Debug)]
pub enum DecryptReply {
    KeyringLoaded,
    Decrypted { plain: Vec<u8>, signatures: HashSet<Fingerprint> },
    Validated { signatures: HashSet<Fingerprint> },
    Failed,
}

/// A decryption under way.
#[derive(Debug)]
pub struct Decryption<'a> {
    /// The keys that count as the sender's when signatures are validated.
    pub keyring: Keyring,
    pub step: DecryptStep<'a>,
}

/// Whether `reply` can come of `step`.
pub open spec fn answers(reply: DecryptReply, step: DecryptStep) -> bool {
    match step {
        DecryptStep::LoadOwnKeyring { .. } => reply is KeyringLoaded || reply is Failed,
        DecryptStep::PkDecrypt { .. } => reply is Decrypted || reply is Failed,
        DecryptStep::PkValidate { .. } => reply is Validated || reply is Failed,
        DecryptStep::Finished { .. } => false,
    }
}

/// How many steps can follow.
pub open spec fn steps_left(step: DecryptStep) -> nat {
    match step {
        DecryptStep::LoadOwnKeyring { .. } => 3,
        DecryptStep::PkDecrypt { .. } => 2,
        DecryptStep::PkValidate { .. } => 1,
        DecryptStep::Finished { .. } => 0,
    }
}

/// Whether the step is the end, with an error.
pub open spec fn fails_with(step: DecryptStep, error: DecryptError) -> bool {
    step matches DecryptStep::Finished { result } && result == Err::<
        Option<Decrypted>,
        DecryptError,
    >(error)
}

/// Whether the step is the end, with nothing encrypted found.
pub open spec fn finds_nothing(step: DecryptStep) -> bool {
    step matches DecryptStep::Finished { result } && result == Ok::<
        Option<Decrypted>,
        DecryptError,
    >(None)
}

/// Whether the step is the end, with this content and these signatures.
pub open spec fn delivers(
    step: DecryptStep,
    content: Seq<u8>,
    signatures: HashSet<Fingerprint>,
) -> bool {
    step matches DecryptStep::Finished { result } && result matches Ok(Some(decrypted))
        && decrypted.content@ == content && decrypted.signatures == signatures
}

/// Whether a part is a signed multipart: what is signed, and a signature.
pub open spec fn has_detached_signature(part: MimeTree) -> bool {
    part.mimetype == "multipart/signed"@ && part.subparts.len() == 2
}

/// Whether the step is the one to decrypt an encrypted part with the given body.
pub open spec fn starts_on(body: Option<Seq<u8>>, step: DecryptStep) -> bool {
    match body {
        Some(data) => if crate::armor::is_armored(data) {
            step matches DecryptStep::PkDecrypt { data: d } && d@ == data
        } else {
            finds_nothing(step)
        },
        None => fails_with(step, DecryptError::Mail(MailError::BadBody)),
    }
}

/// Whether the step is the one to take once `plain` was decrypted, given how it reads as
/// a mail.
pub open spec fn goes_on_from(
    plain: Seq<u8>,
    signatures: HashSet<Fingerprint>,
    parsed: Option<MimeTree>,
    step: DecryptStep,
) -> bool {
    match parsed {
        Some(mail) => if has_detached_signature(mail) {
            match mail.subparts[1].body {
                Some(sig) => step matches DecryptStep::PkValidate { content, signature }
                    && content@ == mail.subparts[0].raw_bytes && signature@ == sig,
                None => fails_with(step, DecryptError::Mail(MailError::BadBody)),
            }
        } else {
            delivers(step, plain, signatures)
        },
        None => fails_with(step, DecryptError::Mail(MailError::Malformed)),
    }
}

/// Whether a step and its reply lead to the next step.
pub open spec fn follows(step: DecryptStep, reply: DecryptReply, next: DecryptStep) -> bool {
    match (step, reply) {
        (_, DecryptReply::Failed) => fails_with(next, DecryptError::Outside),
        (
            DecryptStep::LoadOwnKeyring { part },
            DecryptReply::KeyringLoaded,
        ) => starts_on(part.tree().body, next),
        (
            DecryptStep::PkDecrypt { .. },
            DecryptReply::Decrypted { plain, signatures },
        ) => goes_on_from(plain@, signatures, crate::mail::mail_tree(plain@), next),
        (
            DecryptStep::PkValidate { content, .. },
            DecryptReply::Validated { signatures },
        ) => delivers(next, content@, signatures),
        _ => false,
    }
}

/// The content that a step delivers, or will deliver once its signature is looked at.
pub open spec fn content_of(step: DecryptStep) -> Option<Seq<u8>> {
    match step {
        DecryptStep::PkValidate { content, .. } => Some(content@),
        DecryptStep::Finished { result: Ok(Some(decrypted)) } => Some(decrypted.content@),
        _ => None,
    }
}

/// A mail that is wrongly signed, or not signed at all, is still delivered: its content
/// does not depend on which signatures are found valid.
pub proof fn law_content_does_not_depend_on_signatures(
    step: DecryptStep,
    plain: Vec<u8>,
    signatures1: HashSet<Fingerprint>,
    next1: DecryptStep,
    signatures2: HashSet<Fingerprint>,
    next2: DecryptStep,
)
    ensures
        follows(step, DecryptReply::Decrypted { plain, signatures: signatures1 }, next1) && follows(
            step,
            DecryptReply::Decrypted { plain, signatures: signatures2 },
            next2,
        ) ==> content_of(next1) == content_of(next2),
        step is PkValidate && follows(
            step,
            DecryptReply::Validated { signatures: signatures1 },
            next1,
        ) ==> content_of(next1) == content_of(step),
{
}

/// Signatures are looked at only once something was decrypted, and something is decrypted
/// only where it is an armored message.
pub proof fn law_only_armored_messages_are_decrypted(
    step: DecryptStep,
    reply: DecryptReply,
    next: DecryptStep,
)
    ensures
        follows(step, reply, next) ==> (next matches DecryptStep::PkDecrypt { data } ==> step
            is LoadOwnKeyring && crate::armor::is_armored(data@)),
        follows(step, reply, next) ==> (next is PkValidate ==> step is PkDecrypt),
        follows(step, reply, next) ==> !(next is LoadOwnKeyring),
{
}

/// A detached signature is always validated. Whatever the two parts of a signed multipart
/// are, of which types, and whether they have parts of their own: the body of the second
/// is validated as a signature of all bytes of the first, and if that body cannot be
/// decoded, the decryption fails.
pub proof fn law_detached_signature_is_validated(
    data: Vec<u8>,
    plain: Vec<u8>,
    signatures: HashSet<Fingerprint>,
    mail: MimeTree,
    next: DecryptStep,
)
    ensures
        mail.mimetype == "multipart/signed"@ && mail.subparts.len() == 2 && (goes_on_from(
            plain@,
            signatures,
            Some(mail),
            next,
        ) || crate::mail::mail_tree(plain@) == Some(mail) && follows(
            DecryptStep::PkDecrypt { data },
            DecryptReply::Decrypted { plain, signatures },
            next,
        )) ==> match mail.subparts[1].body {
            Some(sig) => next matches DecryptStep::PkValidate { content, signature } && content@
                == mail.subparts[0].raw_bytes && signature@ == sig,
            None => next matches DecryptStep::Finished { result } && result matches Err(e) && e
                == DecryptError::Mail(MailError::BadBody),
        },
{
}

/// What was decrypted is delivered as it is, with the signatures found while decrypting,
/// wherever it is a mail of another type or with another number of parts.
pub proof fn law_other_mails_are_delivered_as_decrypted(
    data: Vec<u8>,
    plain: Vec<u8>,
    signatures: HashSet<Fingerprint>,
    mail: MimeTree,
    next: DecryptStep,
)
    ensures
        (mail.mimetype != "multipart/signed"@ || mail.subparts.len() != 2) && (goes_on_from(
            plain@,
            signatures,
            Some(mail),
            next,
        ) || crate::mail::mail_tree(plain@) == Some(mail) && follows(
            DecryptStep::PkDecrypt { data },
            DecryptReply::Decrypted { plain, signatures },
            next,
        )) ==> (next matches DecryptStep::Finished { result } && result matches Ok(Some(d))
            && d.content@ == plain@ && d.signatures == signatures),
        crate::mail::mail_tree(plain@) is None && follows(
            DecryptStep::PkDecrypt { data },
            DecryptReply::Decrypted { plain, signatures },
            next,
        ) ==> (next matches DecryptStep::Finished { result } && result matches Err(e) && e
            == DecryptError::Mail(MailError::Malformed)),
{
}

/// A decryption that gets all that it asks for, of a payload with the first line of an
/// armored message behind some blanks, ends with a delivery. Of a signed multipart, the
/// first part is delivered with the signatures found valid for it; of any other mail, all
/// of it with the signatures found while decrypting.
pub proof fn law_armored_payload_is_delivered(
    part: &MimePart,
    blanks: Seq<u8>,
    tail: Seq<u8>,
    decrypting: DecryptStep,
    plain: Vec<u8>,
    signatures: HashSet<Fingerprint>,
    mail: MimeTree,
    decrypted: DecryptStep,
    detached: HashSet<Fingerprint>,
    validated: DecryptStep,
)
    requires
        forall|i: int| 0 <= i < blanks.len() ==> #[trigger] blanks[i] <= 0x20,
        part.body matches Some(body) && body@ == blanks
            + "-----BEGIN PGP MESSAGE-----"@.map_values(|c: char| c as u8) + tail,
    ensures
        follows(DecryptStep::LoadOwnKeyring { part }, DecryptReply::KeyringLoaded, decrypting)
            ==> (decrypting matches DecryptStep::PkDecrypt { data } && Some(data@)
            == crate::mime::bytes_view(part.body)),
        follows(DecryptStep::LoadOwnKeyring { part }, DecryptReply::KeyringLoaded, decrypting)
            && follows(decrypting, DecryptReply::Decrypted { plain, signatures }, decrypted)
            && crate::mail::mail_tree(plain@) == Some(mail) ==> if mail.mimetype
            == "multipart/signed"@ && mail.subparts.len() == 2 {
            mail.subparts[1].body is Some && follows(
                decrypted,
                DecryptReply::Validated { signatures: detached },
                validated,
            ) ==> (validated matches DecryptStep::Finished { result } && result matches Ok(Some(d))
                && d.content@ == mail.subparts[0].raw_bytes && d.signatures == detached)
        } else {
            decrypted matches DecryptStep::Finished { result } && result matches Ok(Some(d))
                && d.content@ == plain@ && d.signatures == signatures
        },
{
    let header = "-----BEGIN PGP MESSAGE-----"@.map_values(|c: char| c as u8);
    let data = blanks + header + tail;
    reveal_strlit("-----BEGIN PGP MESSAGE-----");
    crate::armor::law_armor_stands_behind_blanks(data);
    let n = blanks.len() as int;
    assert(data.skip(n).take(27) =~= header);
    assert forall|i: int| 0 <= i < n implies #[trigger] data[i] <= 0x20 by {
        assert(data[i] == blanks[i]);
    }
}

/// A payload whose first byte that is no blank does not begin an armored message is left
/// alone, and one that cannot be decoded is an error.
pub proof fn law_other_payloads_are_not_decrypted(part: &MimePart, next: DecryptStep)
    ensures
        follows(DecryptStep::LoadOwnKeyring { part }, DecryptReply::KeyringLoaded, next) ==> match part.body {
            Some(body) => crate::armor::is_armored(body@) || (next matches DecryptStep::Finished {
                result,
            } && result matches Ok(None)),
            None => next matches DecryptStep::Finished { result } && result matches Err(e) && e
                == DecryptError::Mail(MailError::BadBody),
        },
{
}

/// A failure outside is always reported, and each step can go on with a failure and with
/// what it asks for.
pub proof fn law_failure_is_reported(
    step: DecryptStep,
    next: DecryptStep,
    plain: Vec<u8>,
    signatures: HashSet<Fingerprint>,
)
    ensures
        follows(step, DecryptReply::Failed, next) ==> (next matches DecryptStep::Finished {
            result,
        } && result matches Err(e) && e == DecryptError::Outside),
        !(step is Finished) ==> answers(DecryptReply::Failed, step),
        step is LoadOwnKeyring ==> answers(DecryptReply::KeyringLoaded, step),
        step is PkDecrypt ==> answers(DecryptReply::Decrypted { plain, signatures }, step),
        step is PkValidate ==> answers(DecryptReply::Validated { signatures }, step),
{
}

/// Finds what is to be validated of a signed multipart: its signature, and what it signs.
///
/// Returns `None` if the part is not a signed multipart.
pub fn validate_detached_signature(mail: &MimePart) -> (r: Result<Option<DetachedSignature>, MailError>)
    ensures
        match r {
            Ok(Some(found)) => {
                &&& has_detached_signature(mail.tree())
                &&& found.content@ == mail.tree().subparts[0].raw_bytes
                &&& Some(found.signature@) == mail.tree().subparts[1].body
            },
            Ok(None) => !has_detached_signature(mail.tree()),
            Err(e) => {
                &&& has_detached_signature(mail.tree())
                &&& mail.tree().subparts[1].body is None
                &&& e == MailError::BadBody
            },
        },
{
    if !str_eq(mail.mimetype.as_str(), "multipart/signed") || mail.subparts.len() != 2 {
        return Ok(None);
    }
    proof {
        assert(mail.tree().subparts[0] == mail.subparts@[0].tree());
        assert(mail.tree().subparts[1] == mail.subparts@[1].tree());
    }
    match &mail.subparts[1].body {
        Some(body) => {
            let content = mail.subparts[0].raw_bytes.clone();
            assert(content@ =~= mail.subparts@[0].raw_bytes@);
            let signature = body.clone();
            assert(signature@ =~= body@);
            Ok(Some(DetachedSignature { content, signature }))
        },
        None => Err(MailError::BadBody),
    }
}

/// Begins to decrypt a part, once the user's own keyring is loaded. Signatures are
/// validated with `keyring`.
pub fn decrypt_part<'a>(part: &'a MimePart, keyring: Keyring) -> (r: Decryption<'a>)
    ensures
        r.keyring == keyring,
        starts_on(part.tree().body, r.step),
{
    let step = match &part.body {
        Some(body) => if has_decrypted_pgp_armor(body.as_slice()) {
            let data = body.clone();
            assert(data@ =~= body@);
            DecryptStep::PkDecrypt { data }
        } else {
            DecryptStep::Finished { result: Ok(None) }
        },
        None => DecryptStep::Finished {
            result: Err(DecryptError::Mail(MailError::BadBody)),
        },
    };
    Decryption { keyring, step }
}

/// The step to take once `plain` was decrypted, given how it reads as a mail.
///
/// A wrongly signed or unsigned mail is still delivered. Whoever gets it has to look at
/// the signatures.
pub fn check_detached_signature<'a>(
    plain: Vec<u8>,
    signatures: HashSet<Fingerprint>,
    parsed: Result<MimePart, MailError>,
) -> (r: DecryptStep<'a>)
    ensures
        match parsed {
            Ok(mail) => goes_on_from(plain@, signatures, Some(mail.tree()), r),
            Err(e) => fails_with(r, DecryptError::Mail(e)),
        },
{
    match parsed {
        Ok(mail) => match validate_detached_signature(&mail) {
            Ok(Some(found)) => DecryptStep::PkValidate {
                content: found.content,
                signature: found.signature,
            },
            Ok(None) => DecryptStep::Finished {
                result: Ok(Some(Decrypted { content: plain, signatures })),
            },
            Err(e) => DecryptStep::Finished { result: Err(DecryptError::Mail(e)) },
        },
        Err(e) => DecryptStep::Finished { result: Err(DecryptError::Mail(e)) },
    }
}

/// Whether a decryption is at its first step: the user's own keyring is to be loaded for the
/// encrypted payload, where the mail has one.
pub open spec fn decryption_begins(
    mail: MimeTree,
    peerstate: Option<Peerstate>,
    decryption: Decryption,
) -> bool {
    &&& decryption.keyring@ == crate::keys::keys_of(peerstate)
    &&& match crate::mime::encrypted_payload(mail) {
        Some(payload) => decryption.step matches DecryptStep::LoadOwnKeyring { part }
            && part.tree() == payload,
        None => finds_nothing(decryption.step),
    }
}

/// A mail with a version part and an octet stream, in an encrypted mail, in a mixed one behind
/// a plain text, or in an encrypted mail attached to a plain text, has that octet stream
/// decrypted. What is neither encrypted nor mixed is left alone. Signatures are validated with
/// the key that the peer announced, or else with the one that others passed on.
pub proof fn law_payload_of_each_form_is_decrypted(
    mail: MimeTree,
    text: MimeTree,
    encrypted: MimeTree,
    version: MimeTree,
    payload: MimeTree,
    peerstate: Option<Peerstate>,
    decryption: Decryption,
)
    requires
        text.mimetype == "text/plain"@,
        version.mimetype == "application/pgp-encrypted"@,
        payload.mimetype == "application/octet-stream"@,
        encrypted.mimetype == "multipart/encrypted"@,
        encrypted.subparts == seq![version, payload],
    ensures
        decryption_begins(mail, peerstate, decryption) && (mail == encrypted || mail.mimetype
            == "multipart/mixed"@ && (mail.subparts == seq![text, version, payload]
            || mail.subparts == seq![text, encrypted])) ==> (decryption.step
            matches DecryptStep::LoadOwnKeyring { part } && part.tree() == payload),
        decryption_begins(mail, peerstate, decryption) && mail.mimetype != "multipart/encrypted"@
            && mail.mimetype != "multipart/mixed"@ ==> (decryption.step
            matches DecryptStep::Finished { result } && result matches Ok(None)),
        decryption_begins(mail, peerstate, decryption) ==> (peerstate matches Some(p) ==> (
        p.public_key matches Some(key) ==> decryption.keyring@ == seq![key@])),
        decryption_begins(mail, peerstate, decryption) ==> (peerstate matches Some(p) ==> (
        p.public_key is None ==> (p.gossip_key matches Some(key) ==> decryption.keyring@ == seq![
            key@,
        ]))),
        decryption_begins(mail, peerstate, decryption) && peerstate is None
            ==> decryption.keyring@.len() == 0,
{
    crate::mime::law_payload_is_found(encrypted, text, version, payload);
    crate::mime::law_payload_is_found(mail, text, version, payload);
    if mail.mimetype == "multipart/mixed"@ && mail.subparts == seq![text, encrypted] {
        crate::mime::law_attached_mail_keeps_its_payload(mail, text, encrypted);
    }
}

/// Begins to decrypt a mail, but only if it is structured as an Autocrypt mail.
///
/// The result is the decrypted body with the fingerprints of the valid signatures. If the
/// mail is wrongly signed, there are no fingerprints, but the body is still there.
pub fn try_decrypt<'a>(mail: &'a MimePart, decryption_info: &DecryptionInfo) -> (r: Decryption<'a>)
    ensures
        decryption_begins(mail.tree(), decryption_info.peerstate, r),
{
    let keyring = keyring_from_peerstate(&decryption_info.peerstate);
    let step = match get_encrypted_mime(mail) {
        Some(part) => DecryptStep::LoadOwnKeyring { part },
        None => DecryptStep::Finished { result: Ok(None) },
    };
    Decryption { keyring, step }
}

impl<'a> Decryption<'a> {
    /// Goes on with what came of the step.
    pub fn resume(self, reply: DecryptReply) -> (r: Decryption<'a>)
        requires
            answers(reply, self.step),
        ensures
            r.keyring == self.keyring,
            steps_left(r.step) < steps_left(self.step),
            follows(self.step, reply, r.step),
    {
        let keyring = self.keyring;
        match (self.step, reply) {
            (
                DecryptStep::LoadOwnKeyring { part },
                DecryptReply::KeyringLoaded,
            ) => decrypt_part(part, keyring),
            (DecryptStep::PkDecrypt { .. }, DecryptReply::Decrypted { plain, signatures }) => {
                let parsed = parse_mail(plain.as_slice());
                let step = check_detached_signature(plain, signatures, parsed);
                Decryption { keyring, step }
            },
            (
                DecryptStep::PkValidate { content, .. },
                DecryptReply::Validated { signatures },
            ) => Decryption {
                keyring,
                step: DecryptStep::Finished {
                    result: Ok(Some(Decrypted { content, signatures })),
                },
            },
            _ => Decryption {
                keyring,
                step: DecryptStep::Finished { result: Err(DecryptError::Outside) },
            },
        }
    }
}

} // verus!
