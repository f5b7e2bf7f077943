//! Reading mails: the MIME structure and the headers that a mail's bytes hold.
use crate::mime::{bytes_view, MimePart, MimeTree};
use mailparse::MailHeaderMap;
use vstd::prelude::*;

verus! {

/// Why a mail cannot be read.
#[derive(Clone, Copy, Debug, PartialEq, Eq, Structural)]
pub enum MailError {
    /// The bytes are not a mail.
    Malformed,
    /// The transfer encoding of a body cannot be undone.
    BadBody,
}

/// The parse error of mailparse, which is carried and never looked into.
#[verifier::external_type_specification]
#[verifier::external_body]
pub struct ExMailParseError(mailparse::MailParseError);

/// One part in the listing of a mail: the part without its subparts, and their number.
pub struct PartRecord {
    pub mimetype: String,
    pub raw_bytes: Vec<u8>,
    pub body: Option<Vec<u8>>,
    pub subparts: usize,
}

/// What a [`PartRecord`] stands for.
pub struct PartEntry {
    pub mimetype: Seq<char>,
    pub raw_bytes: Seq<u8>,
    pub body: Option<Seq<u8>>,
    pub subparts: nat,
}

impl PartRecord {
    pub open spec fn entry(&self) -> PartEntry {
        PartEntry {
            mimetype: self.mimetype@,
            raw_bytes: self.raw_bytes@,
            body: bytes_view(self.body),
            subparts: self.subparts as nat,
        }
    }
}

/// The listing entry of the root of `tree`.
pub open spec fn root_entry(tree: MimeTree) -> PartEntry {
    PartEntry {
        mimetype: tree.mimetype,
        raw_bytes: tree.raw_bytes,
        body: tree.body,
        subparts: tree.subparts.len(),
    }
}

/// The depth-first pre-order listing of a tree.
pub open spec fn listing(tree: MimeTree) -> Seq<PartEntry>
    decreases tree, 0nat,
{
    seq![root_entry(tree)] + listing_of_all(tree.subparts)
}

/// The listings of some trees, one after the other.
pub open spec fn listing_of_all(trees: Seq<MimeTree>) -> Seq<PartEntry>
    decreases trees, trees.len(),
{
    if trees.len() == 0 {
        seq![]
    } else {
        listing(trees[0]) + listing_of_all(trees.skip(1))
    }
}

/// The MIME structure that mailparse finds in the bytes of a mail; `None` where it finds
/// that they are not a mail.
pub uninterp spec fn mail_tree(raw: Seq<u8>) -> Option<MimeTree>;

/// Calls `mailparse::parse_mail`, and lists the parts of the mail with
/// `mailparse::ParsedMail::parts` and `mailparse::ParsedMail::get_body_raw`.
///
/// Trusted: whether the bytes are a mail, and of which parts, depends on the bytes alone;
/// the parts come in depth-first pre-order, each with the number of its subparts; the
/// first one is the mail itself and holds all of the bytes. How deeply parts can be nested
/// before the stack of the machine ends is not said.
#[verifier::external_body]
fn list_parts(raw: &[u8]) -> (r: Result<Vec<PartRecord>, mailparse::MailParseError>)
    ensures
        match r {
            Ok(records) => mail_tree(raw@) is Some && records@.map_values(
                |record: PartRecord| record.entry(),
            ) == listing(mail_tree(raw@)->0) && records@[0].raw_bytes@ == raw@,
            Err(_) => mail_tree(raw@) is None,
        },
{
    let mail = mailparse::parse_mail(raw)?;
    Ok(mail.parts().map(|part| PartRecord {
        mimetype: part.ctype.mimetype.clone(),
        raw_bytes: part.raw_bytes.to_vec(),
        body: part.get_body_raw().ok(),
        subparts: part.subparts.len(),
    }).collect())
}

proof fn lemma_listing_of_all_skip(trees: Seq<MimeTree>, k: int)
    requires
        0 <= k < trees.len(),
    ensures
        listing_of_all(trees.skip(k)) == listing(trees[k]) + listing_of_all(trees.skip(k + 1)),
{
    let rest = trees.skip(k);
    assert(rest[0] == trees[k]);
    assert(rest.skip(1) =~= trees.skip(k + 1));
}

fn copy_body(body: &Option<Vec<u8>>) -> (r: Option<Vec<u8>>)
    ensures
        bytes_view(r) == bytes_view(*body),
{
    match body {
        Some(bytes) => {
            let copy = bytes.clone();
            assert(copy@ =~= bytes@);
            Some(copy)
        },
        None => None,
    }
}

/// Builds the part whose listing begins at `start`, and tells where that listing ends.
fn build_part(records: &Vec<PartRecord>, start: usize, Ghost(tree): Ghost<MimeTree>) -> (r: (
    MimePart,
    usize,
))
    requires
        start + listing(tree).len() <= records@.len(),
        records@.map_values(|record: PartRecord| record.entry()).subrange(
            start as int,
            start + listing(tree).len(),
        ) == listing(tree),
    ensures
        r.0.tree() == tree,
        r.1 == start + listing(tree).len(),
    decreases records@.len() - start,
{
    let ghost entries = records@.map_values(|record: PartRecord| record.entry());
    let ghost trees = tree.subparts;
    let ghost end = start + listing(tree).len();
    proof {
        assert(listing(tree)[0] == root_entry(tree));
        assert(entries.subrange(start as int, end)[0] == entries[start as int]);
        assert(entries[start as int] == records@[start as int].entry());
        assert(trees.skip(0) =~= trees);
        assert(entries.subrange(start + 1, end) =~= entries.subrange(start as int, end).skip(1));
        assert(listing(tree).skip(1) =~= listing_of_all(trees));
    }
    assert(start < records.len());
    let record = &records[start];
    let mut subparts: Vec<MimePart> = Vec::new();
    let mut next: usize = start + 1;
    let mut k: usize = 0;
    while k < record.subparts
        invariant
            start < records@.len(),
            record == records@[start as int],
            entries == records@.map_values(|record: PartRecord| record.entry()),
            record.subparts == trees.len(),
            k <= trees.len(),
            start < next <= end <= records@.len(),
            entries.subrange(next as int, end) == listing_of_all(trees.skip(k as int)),
            subparts@.len() == k,
            forall|i: int| 0 <= i < k ==> (#[trigger] subparts@[i]).tree() == trees[i],
        decreases record.subparts - k,
    {
        let ghost child = trees[k as int];
        let ghost length = listing(child).len() as int;
        let ghost rest = entries.subrange(next as int, end);
        proof {
            lemma_listing_of_all_skip(trees, k as int);
            assert(rest.len() == end - next);
            assert(entries.subrange(next as int, next + length) =~= rest.take(length));
            assert(rest.take(length) =~= listing(child));
            assert(entries.subrange(next + length, end) =~= rest.skip(length));
            assert(rest.skip(length) =~= listing_of_all(trees.skip(k + 1)));
        }
        let (part, after) = build_part(records, next, Ghost(child));
        subparts.push(part);
        next = after;
        k = k + 1;
    }
    proof {
        assert(trees.skip(k as int) =~= seq![]);
        assert(entries.subrange(next as int, end).len() == 0);
    }
    let raw_bytes = record.raw_bytes.clone();
    assert(raw_bytes@ =~= record.raw_bytes@);
    let part = MimePart {
        mimetype: record.mimetype.clone(),
        raw_bytes,
        body: copy_body(&record.body),
        subparts,
    };
    assert(part.tree().subparts =~= tree.subparts);
    (part, next)
}

/// Reads a mail.
pub fn parse_mail(raw: &[u8]) -> (r: Result<MimePart, MailError>)
    ensures
        match r {
            Ok(part) => mail_tree(raw@) == Some(part.tree()) && part.raw_bytes@ == raw@,
            Err(e) => mail_tree(raw@) is None && e == MailError::Malformed,
        },
{
    match list_parts(raw) {
        Ok(records) => {
            let ghost tree = mail_tree(raw@)->0;
            proof {
                let entries = records@.map_values(|record: PartRecord| record.entry());
                assert(entries.subrange(0, entries.len() as int) =~= entries);
                assert(entries[0] == root_entry(tree));
                assert(entries[0] == records@[0].entry());
            }
            let (part, _) = build_part(&records, 0, Ghost(tree));
            Ok(part)
        },
        Err(_) => Err(MailError::Malformed),
    }
}

/// The values that mailparse finds for the header `key`, in the order of the mail; `None`
/// where it cannot tell the headers from the bytes.
pub uninterp spec fn header_values(raw: Seq<u8>, key: Seq<char>) -> Option<Seq<Seq<char>>>;

/// Calls `mailparse::parse_headers`, and `mailparse::MailHeaderMap::get_all_values` on
/// the headers found.
///
/// Trusted: the values depend on the bytes and on the name of the header alone.
#[verifier::external_body]
fn find_header_values(raw: &[u8], key: &str) -> (r: Result<Vec<String>, mailparse::MailParseError>)
    ensures
        match r {
            Ok(values) => header_values(raw@, key@) == Some(values.deep_view()),
            Err(_) => header_values(raw@, key@) is None,
        },
{
    let (headers, _) = mailparse::parse_headers(raw)?;
    Ok(headers.get_all_values(key))
}

/// The values of all headers `key` of a mail, in order.
pub fn get_all_values(mail: &MimePart, key: &str) -> (r: Result<Vec<String>, MailError>)
    ensures
        match r {
            Ok(values) => header_values(mail.raw_bytes@, key@) == Some(values.deep_view()),
            Err(e) => header_values(mail.raw_bytes@, key@) is None && e == MailError::Malformed,
        },
{
    match find_header_values(mail.raw_bytes.as_slice(), key) {
        Ok(values) => Ok(values),
        Err(_) => Err(MailError::Malformed),
    }
}

/// The address that mailparse finds in the first header `key`, where it finds that the
/// header holds exactly one mailbox and no group.
pub uninterp spec fn single_addr(raw: Seq<u8>, key: Seq<char>) -> Option<Seq<char>>;

/// Calls `mailparse::parse_headers`, `mailparse::MailHeaderMap::get_first_header`,
/// `mailparse::addrparse_header` and `mailparse::MailAddrList::extract_single_info`, one
/// on the result of the other.
///
/// Trusted: the address depends on the bytes and on the name of the header alone, and an
/// address that is found holds an `@`.
#[verifier::external_body]
fn find_single_addr(raw: &[u8], key: &str) -> (r: Option<String>)
    ensures
        match r {
            Some(addr) => single_addr(raw@, key@) == Some(addr@) && addr@.contains('@'),
            None => single_addr(raw@, key@) is None,
        },
{
    let (headers, _) = mailparse::parse_headers(raw).ok()?;
    let addrs = mailparse::addrparse_header(headers.get_first_header(key)?).ok()?;
    addrs.extract_single_info().map(|info| info.addr)
}

/// The address of a mail's sender: of the From header, where that holds exactly one
/// mailbox, and else empty.
pub fn from_addr(mail: &MimePart) -> (r: String)
    ensures
        r@ == match single_addr(mail.raw_bytes@, "From"@) {
            Some(addr) => addr,
            None => seq![],
        },
        r@.len() == 0 || r@.contains('@'),
{
    match find_single_addr(mail.raw_bytes.as_slice(), "From") {
        Some(addr) => addr,
        None => String::new(),
    }
}

} // verus!
