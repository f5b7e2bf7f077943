//! Collecting what is known of a mail before it is decrypted, step by step.
//!
//! The configuration, the database, and the reading of addresses and Autocrypt headers
//! are outside of this module. An [`InfoCollection`] says what is to be done there next,
//! and goes on with what came of it.
use crate::auth_results::{
    dkim_passed, group_authentication_results, update_authservid_candidates, AuthResults,
    AuthResultsError,
};
use crate::decrypt::DecryptionInfo;
use crate::keys::{Aheader, Peerstate};
use crate::mail::{from_addr, get_all_values, MailError};
use crate::mime::MimePart;
use crate::peerstate::{get_autocrypt_peerstate, PeerstateLookup};
use crate::text::as_str;
use vstd::prelude::*;

verus! {

/// Why the collection fails.
#[derive(Clone, Copy, Debug, PartialEq, Eq, Structural)]
pub enum InfoError {
    /// The Authentication-Results headers cannot be read.
    AuthResults(AuthResultsError),
    /// What was asked for outside failed.
    Outside,
}

/// What is to be done next.
#[derive(Debug)]
pub enum InfoStep {
    /// Read the Autocrypt header of the sender with the From address.
    ReadAutocryptHeader,
    /// Read the domain of the From address.
    ReadSenderDomain,
    /// Load the record of candidates, to update it.
    LoadCandidates { results: AuthResults },
    /// Store the record of candidates.
    StoreCandidates { results: AuthResults, config: String },
    /// Load the record of candidates, to see what it says now.
    ReloadCandidates { results: AuthResults },
    /// Bring the state of the peer up to date with the Autocrypt header.
    UpdatePeerstate { dkim_passed: bool, allow_change: bool },
    /// Nothing: this is the result.
    Finished { result: Result<DecryptionInfo, InfoError> },
}

/// What came of a step.
#[derive(Debug)]
pub enum InfoReply {
    AutocryptHeader { header: Option<Aheader> },
    SenderDomain { domain: String },
    Candidates { config: Option<String> },
    Stored,
    Peerstate { peerstate: Option<Peerstate> },
    Failed,
}

/// A collection under way.
#[derive(Debug)]
pub struct InfoCollection {
    pub from: String,
    /// The values of the Authentication-Results headers of the mail.
    pub auth_values: Result<Vec<String>, MailError>,
    pub message_time: i64,
    pub autocrypt_header: Option<Aheader>,
    pub step: InfoStep,
}

/// Whether `reply` can come of `step`. With a record that names exactly one candidate,
/// only a mail that has a header of that candidate can go on.
pub open spec fn answers(reply: InfoReply, step: InfoStep) -> bool {
    match step {
        InfoStep::ReadAutocryptHeader => reply is AutocryptHeader || reply is Failed,
        InfoStep::ReadSenderDomain => reply is SenderDomain || reply is Failed,
        InfoStep::LoadCandidates { .. } => reply is Candidates || reply is Failed,
        InfoStep::StoreCandidates { .. } => reply is Stored || reply is Failed,
        InfoStep::ReloadCandidates { results } => match reply {
            InfoReply::Candidates { config } => crate::auth_results::verdict_known(
                results@,
                crate::text::string_view(config),
            ),
            _ => reply is Failed,
        },
        InfoStep::UpdatePeerstate { .. } => reply is Peerstate || reply is Failed,
        InfoStep::Finished { .. } => false,
    }
}

/// How many steps can follow.
pub open spec fn steps_left(step: InfoStep) -> nat {
    match step {
        InfoStep::ReadAutocryptHeader => 6,
        InfoStep::ReadSenderDomain => 5,
        InfoStep::LoadCandidates { .. } => 4,
        InfoStep::StoreCandidates { .. } => 3,
        InfoStep::ReloadCandidates { .. } => 2,
        InfoStep::UpdatePeerstate { .. } => 1,
        InfoStep::Finished { .. } => 0,
    }
}

/// Whether the step is the end, with an error.
pub open spec fn fails_with(step: InfoStep, error: InfoError) -> bool {
    step matches InfoStep::Finished { result } && result == Err::<DecryptionInfo, InfoError>(error)
}

/// Whether the step is the one to take once the headers can be read: where no server
/// wrote one, the candidates are not updated.
pub open spec fn goes_on_with_results(
    auth_values: Result<Vec<String>, MailError>,
    domain: Seq<char>,
    step: InfoStep,
) -> bool {
    match auth_values {
        Ok(values) => match step {
            InfoStep::LoadCandidates { results } => results.ids().len() > 0
                && crate::auth_results::reads_as(values.deep_view(), domain, Ok(results)),
            InfoStep::ReloadCandidates { results } => results.ids().len() == 0
                && crate::auth_results::reads_as(values.deep_view(), domain, Ok(results)),
            InfoStep::Finished { result } => result matches Err(InfoError::AuthResults(e))
                && crate::auth_results::reads_as(values.deep_view(), domain, Err(e)),
            _ => false,
        },
        Err(e) => fails_with(step, InfoError::AuthResults(AuthResultsError::Mail(e))),
    }
}

/// Whether a reply leads from one state of a collection to the other.
///
/// An Autocrypt header that cannot be read counts as none. Key changes are always allowed,
/// whether DKIM passed or not.
pub open spec fn info_follows(
    before: InfoCollection,
    reply: InfoReply,
    after: InfoCollection,
) -> bool {
    &&& !(after.step is Finished) ==> after.from == before.from && after.auth_values
        == before.auth_values && after.message_time == before.message_time
    &&& !(after.step is Finished) && !(before.step is ReadAutocryptHeader)
        ==> after.autocrypt_header == before.autocrypt_header
    &&& match (before.step, reply) {
        (
            InfoStep::ReadAutocryptHeader,
            InfoReply::AutocryptHeader { header },
        ) => after.step is ReadSenderDomain && after.autocrypt_header == header,
        (InfoStep::ReadAutocryptHeader, InfoReply::Failed) => after.step is ReadSenderDomain
            && after.autocrypt_header is None,
        (_, InfoReply::Failed) => fails_with(after.step, InfoError::Outside),
        (
            InfoStep::ReadSenderDomain,
            InfoReply::SenderDomain { domain },
        ) => goes_on_with_results(before.auth_values, domain@, after.step),
        (
            InfoStep::LoadCandidates { results },
            InfoReply::Candidates { config: stored },
        ) => after.step matches InfoStep::StoreCandidates { results: same, config } && same
            == results && config@ == crate::text::join(
            crate::auth_results::next_candidates(results.ids(), crate::text::string_view(stored)),
            ' ',
        ),
        (
            InfoStep::StoreCandidates { results, .. },
            InfoReply::Stored,
        ) => after.step == (InfoStep::ReloadCandidates { results }),
        (
            InfoStep::ReloadCandidates { results },
            InfoReply::Candidates { config },
        ) => after.step == (InfoStep::UpdatePeerstate {
            dkim_passed: crate::auth_results::counts_as_passed(
                results@,
                crate::text::string_view(config),
            ),
            allow_change: true,
        }),
        (
            InfoStep::UpdatePeerstate { .. },
            InfoReply::Peerstate { peerstate },
        ) => after.step == (InfoStep::Finished {
            result: Ok(
                DecryptionInfo {
                    from: before.from,
                    autocrypt_header: before.autocrypt_header,
                    peerstate,
                    message_time: before.message_time,
                },
            ),
        }),
        _ => false,
    }
}

/// The record of candidates is touched if and only if the mail has a header: with readable
/// headers, it is loaded to be updated where there is at least one of them, and only looked
/// at where there is none. A header without words is an error.
pub proof fn law_any_header_updates_the_candidates(
    values: Vec<String>,
    domain: Seq<char>,
    step: InfoStep,
)
    ensures
        goes_on_with_results(Ok(values), domain, step) && (forall|i: int|
            0 <= i < values@.len() ==> crate::text::words(
                #[trigger] values.deep_view()[i],
            ).len() > 0) ==> (step is LoadCandidates <==> values@.len() > 0) && (
        step is ReloadCandidates <==> values@.len() == 0),
        goes_on_with_results(Ok(values), domain, step) && (exists|i: int|
            0 <= i < values@.len() && crate::text::words(
                #[trigger] values.deep_view()[i],
            ).len() == 0) ==> fails_with(
            step,
            InfoError::AuthResults(AuthResultsError::EmptyHeader),
        ),
{
    let v = values.deep_view();
    assert(v.len() == values@.len());
    match step {
        InfoStep::LoadCandidates { results } => {
            crate::auth_results::law_results_are_those_of_the_headers(
                v,
                domain,
                Ok::<AuthResults, AuthResultsError>(results),
                seq![],
            );
        },
        InfoStep::ReloadCandidates { results } => {
            crate::auth_results::law_results_are_those_of_the_headers(
                v,
                domain,
                Ok::<AuthResults, AuthResultsError>(results),
                seq![],
            );
        },
        InfoStep::Finished { result } => {
            if let Err(InfoError::AuthResults(e)) = result {
                crate::auth_results::law_results_are_those_of_the_headers(
                    v,
                    domain,
                    Err::<AuthResults, AuthResultsError>(e),
                    seq![],
                );
            }
        },
        _ => {},
    }
}

/// Whether the first word of one of the headers is the name of this server.
pub open spec fn wrote_header(values: Seq<Seq<char>>, id: Seq<char>) -> bool {
    exists|i: int| 0 <= i < values.len() && crate::text::words(#[trigger] values[i])[0] == id
}

/// Whether the record names this server. Where there is none, any server will do.
pub open spec fn was_recorded(stored: Option<String>, id: Seq<char>) -> bool {
    stored matches Some(s) ==> crate::text::split_on(s@, ' ').contains(id)
}

/// A mail with readable headers, at least one, has the record of candidates stored: the
/// servers that wrote a header now and that were recorded before; all that wrote one, where
/// there was no record.
pub proof fn law_candidates_are_stored(
    before: InfoCollection,
    values: Vec<String>,
    domain: String,
    read: InfoCollection,
    stored: Option<String>,
    updated: InfoCollection,
    id: Seq<char>,
    kept: Seq<char>,
)
    requires
        before.step is ReadSenderDomain,
        before.auth_values == Ok::<Vec<String>, MailError>(values),
        values@.len() > 0,
        forall|i: int|
            0 <= i < values@.len() ==> crate::text::words(
                #[trigger] values.deep_view()[i],
            ).len() > 0,
    ensures
        info_follows(before, InfoReply::SenderDomain { domain }, read) && info_follows(
            read,
            InfoReply::Candidates { config: stored },
            updated,
        ) ==> (updated.step matches InfoStep::StoreCandidates { config, .. } && {
            &&& wrote_header(values.deep_view(), kept) && was_recorded(stored, kept) ==> (
            crate::text::split_on(config@, ' ').contains(id) <==> wrote_header(
                values.deep_view(),
                id,
            ) && was_recorded(stored, id))
            &&& (forall|w: Seq<char>| #[trigger]
                wrote_header(values.deep_view(), w) ==> !was_recorded(stored, w)) ==> config@.len()
                == 0
        }),
{
    if info_follows(before, InfoReply::SenderDomain { domain }, read) && info_follows(
        read,
        InfoReply::Candidates { config: stored },
        updated,
    ) {
        let v = values.deep_view();
        assert(v.len() == values@.len());
        law_any_header_updates_the_candidates(values, domain@, read.step);
        if let InfoStep::LoadCandidates { results } = read.step {
            let ids = results.ids();
            let old = crate::text::string_view(stored);
            let next = crate::auth_results::next_candidates(ids, old);
            let ok = Ok::<AuthResults, AuthResultsError>(results);
            assert(crate::auth_results::reads_as(v, domain@, ok));
            crate::auth_results::law_results_are_those_of_the_headers(v, domain@, ok, id);
            crate::auth_results::law_results_are_those_of_the_headers(v, domain@, ok, kept);
            crate::auth_results::law_candidates_narrow_down(ids, old, id);
            crate::auth_results::law_candidates_narrow_down(ids, old, kept);
            assert(crate::auth_results::are_server_ids(ids)) by {
                assert forall|k: int| 0 <= k < ids.len() implies crate::text::is_word(
                    #[trigger] ids[k],
                ) by {
                    assert(ids.contains(ids[k]));
                    crate::auth_results::law_results_are_those_of_the_headers(
                        v,
                        domain@,
                        ok,
                        ids[k],
                    );
                    let i = choose|i: int|
                        0 <= i < v.len() && crate::text::words(#[trigger] v[i])[0] == ids[k];
                    crate::text::lemma_words(v[i]);
                    assert(crate::text::words(values.deep_view()[i]).len() > 0);
                }
            }
            if next.len() > 0 {
                crate::auth_results::law_candidates_are_read_back(ids, old);
                let w = next[0];
                assert(next.contains(w));
                crate::auth_results::law_candidates_narrow_down(ids, old, w);
                crate::auth_results::law_results_are_those_of_the_headers(v, domain@, ok, w);
                assert(wrote_header(v, w) && was_recorded(stored, w));
            } else {
                assert(!next.contains(kept));
            }
        }
    }
}

/// A collection carries what it began with from step to step, and ends with it and with the
/// state of the peer, whose key may change whatever DKIM says. Only a failure to read the
/// Autocrypt header does not end it.
pub proof fn law_info_is_what_was_collected(
    before: InfoCollection,
    reply: InfoReply,
    after: InfoCollection,
)
    ensures
        info_follows(before, reply, after) ==> match (before.step, reply) {
            (
                InfoStep::ReadAutocryptHeader,
                InfoReply::AutocryptHeader { header },
            ) => after.autocrypt_header == header && after.step is ReadSenderDomain,
            (InfoStep::ReadAutocryptHeader, _) => after.autocrypt_header is None && after.step
                is ReadSenderDomain,
            (_, InfoReply::Failed) => after.step matches InfoStep::Finished { result } && result
                == Err::<DecryptionInfo, InfoError>(InfoError::Outside),
            (InfoStep::StoreCandidates { .. }, _) => after.step is ReloadCandidates,
            (InfoStep::ReloadCandidates { .. }, _) => after.step
                matches InfoStep::UpdatePeerstate { allow_change, .. } && allow_change,
            (
                InfoStep::UpdatePeerstate { .. },
                InfoReply::Peerstate { peerstate },
            ) => after.step matches InfoStep::Finished { result } && result matches Ok(info)
                && info.from == before.from && info.autocrypt_header == before.autocrypt_header
                && info.peerstate == peerstate && info.message_time == before.message_time,
            _ => true,
        },
        info_follows(before, reply, after) && !(after.step is Finished) ==> after.from
            == before.from && after.auth_values == before.auth_values && after.message_time
            == before.message_time,
        info_follows(before, reply, after) && !(after.step is Finished) && !(before.step
            is ReadAutocryptHeader) ==> after.autocrypt_header == before.autocrypt_header,
        info_follows(before, reply, after) && (before.step matches InfoStep::StoreCandidates {
            results,
            ..
        }) ==> !(reply is Failed) ==> after.step == (InfoStep::ReloadCandidates {
            results: before.step->StoreCandidates_results,
        }),
        !(before.step is Finished) ==> answers(InfoReply::Failed, before.step),
{
}

/// A mail that is judged by the record that names one server is judged by the headers of
/// that server.
pub proof fn law_mail_is_judged_by_the_sole_candidate(
    values: Vec<String>,
    domain: Seq<char>,
    before: InfoCollection,
    results: AuthResults,
    record: String,
    after: InfoCollection,
)
    requires
        !record@.contains(' '),
        before.step == (InfoStep::ReloadCandidates { results }),
        crate::auth_results::reads_as(values.deep_view(), domain, Ok(results)),
    ensures
        answers(InfoReply::Candidates { config: None }, before.step),
        answers(InfoReply::Candidates { config: Some(record) }, before.step) <==> exists|i: int|
            0 <= i < values@.len() && crate::text::words(#[trigger] values.deep_view()[i])[0]
                == record@,
        answers(InfoReply::Candidates { config: Some(record) }, before.step) && info_follows(
            before,
            InfoReply::Candidates { config: Some(record) },
            after,
        ) ==> (after.step matches InfoStep::UpdatePeerstate { dkim_passed, .. } && (dkim_passed
            <==> exists|i: int|
            0 <= i < values@.len() && crate::text::words(#[trigger] values.deep_view()[i])[0]
                == record@ && crate::auth_results::says_dkim_passed(
                values.deep_view()[i],
                domain,
            ))),
        info_follows(before, InfoReply::Candidates { config: None }, after) ==> (after.step
            matches InfoStep::UpdatePeerstate { dkim_passed, .. } && dkim_passed),
{
    assert(values.deep_view().len() == values@.len());
    crate::auth_results::law_sole_candidate_decides(
        values.deep_view(),
        domain,
        results,
        record@,
        seq![],
        seq![],
    );
}

/// Begins the collection for a mail with this From address and these values of
/// Authentication-Results headers.
pub fn collect_decryption_info(
    from: String,
    auth_values: Result<Vec<String>, MailError>,
    message_time: i64,
) -> (r: InfoCollection)
    ensures
        r == (InfoCollection {
            from,
            auth_values,
            message_time,
            autocrypt_header: None,
            step: InfoStep::ReadAutocryptHeader,
        }),
{
    InfoCollection {
        from,
        auth_values,
        message_time,
        autocrypt_header: None,
        step: InfoStep::ReadAutocryptHeader,
    }
}

/// Whether a collection is at its first step, for a mail with these bytes and this time.
pub open spec fn info_begins(raw: Seq<u8>, message_time: i64, r: InfoCollection) -> bool {
    &&& r.from@ == match crate::mail::single_addr(raw, "From"@) {
        Some(addr) => addr,
        None => seq![],
    }
    &&& match crate::mail::header_values(raw, "Authentication-Results"@) {
        Some(values) => r.auth_values matches Ok(v) && v.deep_view() == values,
        None => r.auth_values == Err::<Vec<String>, MailError>(MailError::Malformed),
    }
    &&& r.message_time == message_time
    &&& r.autocrypt_header is None
    &&& r.step is ReadAutocryptHeader
}

/// A collection begins with the sole From address of the mail, or an empty one, and with all
/// of its Authentication-Results headers.
pub proof fn law_collection_begins_with_the_headers(
    raw: Seq<u8>,
    message_time: i64,
    r: InfoCollection,
    addr: Seq<char>,
    values: Seq<Seq<char>>,
)
    ensures
        info_begins(raw, message_time, r) ==> r.step is ReadAutocryptHeader && r.message_time
            == message_time,
        info_begins(raw, message_time, r) && crate::mail::single_addr(raw, "From"@) == Some(addr)
            ==> r.from@ == addr,
        info_begins(raw, message_time, r) && crate::mail::single_addr(raw, "From"@) is None
            ==> r.from@.len() == 0,
        info_begins(raw, message_time, r) && crate::mail::header_values(
            raw,
            "Authentication-Results"@,
        ) == Some(values) ==> (r.auth_values matches Ok(v) && v.deep_view() == values),
{
}

/// Each step can go on with what it asks for.
pub proof fn law_each_step_can_go_on(
    step: InfoStep,
    header: Option<Aheader>,
    domain: String,
    config: Option<String>,
    peerstate: Option<Peerstate>,
)
    ensures
        step is ReadAutocryptHeader ==> answers(InfoReply::AutocryptHeader { header }, step),
        step is ReadSenderDomain ==> answers(InfoReply::SenderDomain { domain }, step),
        step is LoadCandidates ==> answers(InfoReply::Candidates { config }, step),
        step is StoreCandidates ==> answers(InfoReply::Stored, step),
        step is UpdatePeerstate ==> answers(InfoReply::Peerstate { peerstate }, step),
{
}

/// Begins to collect what is known of a mail before it is decrypted.
pub fn create_decryption_info(mail: &MimePart, message_time: i64) -> (r: InfoCollection)
    ensures
        info_begins(mail.raw_bytes@, message_time, r),
{
    let from = from_addr(mail);
    let auth_values = get_all_values(mail, "Authentication-Results");
    collect_decryption_info(from, auth_values, message_time)
}

fn read_results(auth_values: &Result<Vec<String>, MailError>, domain: &str) -> (r: InfoStep)
    ensures
        goes_on_with_results(*auth_values, domain@, r),
        steps_left(r) < 5,
{
    match auth_values {
        Ok(values) => match group_authentication_results(values, domain) {
            Ok(results) => if results.is_empty() {
                InfoStep::ReloadCandidates { results }
            } else {
                InfoStep::LoadCandidates { results }
            },
            Err(e) => InfoStep::Finished { result: Err(InfoError::AuthResults(e)) },
        },
        Err(e) => InfoStep::Finished {
            result: Err(InfoError::AuthResults(AuthResultsError::Mail(*e))),
        },
    }
}

fn next_record(results: &AuthResults, stored: &Option<String>) -> (r: String)
    requires
        results.ids().len() > 0,
    ensures
        r@ == crate::text::join(
            crate::auth_results::next_candidates(results.ids(), crate::text::string_view(*stored)),
            ' ',
        ),
{
    match update_authservid_candidates(results, as_str(stored)) {
        Some(config) => config,
        None => String::new(),
    }
}

impl InfoCollection {
    /// Whether the collection can hold its results: there is something to update only
    /// where a server wrote a header.
    pub open spec fn wf(self) -> bool {
        self.step matches InfoStep::LoadCandidates { results } ==> results.ids().len() > 0
    }

    /// Begins to bring the state of the peer up to date, where that is the step to take.
    pub fn update_peerstate<'a>(&'a self) -> (r: Option<PeerstateLookup<'a>>)
        ensures
            match self.step {
                InfoStep::UpdatePeerstate { allow_change, .. } => r matches Some(lookup)
                    && crate::peerstate::lookup_begins(
                    lookup,
                    self.from@,
                    self.autocrypt_header,
                    self.message_time,
                    allow_change,
                ),
                _ => r is None,
            },
    {
        match &self.step {
            InfoStep::UpdatePeerstate { allow_change, .. } => {
                let header = match &self.autocrypt_header {
                    Some(header) => Some(header),
                    None => None,
                };
                Some(
                    get_autocrypt_peerstate(
                        self.from.as_str(),
                        header,
                        self.message_time,
                        *allow_change,
                    ),
                )
            },
            _ => None,
        }
    }

    /// Goes on with what came of the step.
    ///
    /// An Autocrypt header that cannot be read counts as none. Key changes are always
    /// allowed, whether DKIM passed or not.
    pub fn resume(self, reply: InfoReply) -> (r: InfoCollection)
        requires
            self.wf(),
            answers(reply, self.step),
        ensures
            r.wf(),
            steps_left(r.step) < steps_left(self.step),
            info_follows(self, reply, r),
    {
        let InfoCollection { from, auth_values, message_time, autocrypt_header, step } = self;
        match (step, reply) {
            (InfoStep::ReadAutocryptHeader, InfoReply::AutocryptHeader { header }) => {
                InfoCollection {
                    from,
                    auth_values,
                    message_time,
                    autocrypt_header: header,
                    step: InfoStep::ReadSenderDomain,
                }
            },
            (InfoStep::ReadAutocryptHeader, _) => InfoCollection {
                from,
                auth_values,
                message_time,
                autocrypt_header: None,
                step: InfoStep::ReadSenderDomain,
            },
            (InfoStep::ReadSenderDomain, InfoReply::SenderDomain { domain }) => {
                let step = read_results(&auth_values, domain.as_str());
                InfoCollection { from, auth_values, message_time, autocrypt_header, step }
            },
            (InfoStep::LoadCandidates { results }, InfoReply::Candidates { config: stored }) => {
                let config = next_record(&results, &stored);
                let step = InfoStep::StoreCandidates { results, config };
                InfoCollection { from, auth_values, message_time, autocrypt_header, step }
            },
            (InfoStep::StoreCandidates { results, .. }, InfoReply::Stored) => {
                let step = InfoStep::ReloadCandidates { results };
                InfoCollection { from, auth_values, message_time, autocrypt_header, step }
            },
            (InfoStep::ReloadCandidates { results }, InfoReply::Candidates { config }) => {
                let step = InfoStep::UpdatePeerstate {
                    dkim_passed: dkim_passed(&results, as_str(&config)),
                    allow_change: true,
                };
                InfoCollection { from, auth_values, message_time, autocrypt_header, step }
            },
            (InfoStep::UpdatePeerstate { .. }, InfoReply::Peerstate { peerstate }) => {
                let info = DecryptionInfo { from, autocrypt_header, peerstate, message_time };
                InfoCollection {
                    from: String::new(),
                    auth_values,
                    message_time,
                    autocrypt_header: None,
                    step: InfoStep::Finished { result: Ok(info) },
                }
            },
            _ => {
                let step = InfoStep::Finished { result: Err(InfoError::Outside) };
                InfoCollection { from, auth_values, message_time, autocrypt_header, step }
            },
        }
    }
}

} // verus!
