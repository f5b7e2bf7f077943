//! What the Authentication-Results headers of a mail say about DKIM, and which of the
//! servers that write such headers may be the user's own.
use crate::mail::{get_all_values, MailError};
use crate::mime::MimePart;
use crate::text::{before, join_with_spaces, split, split_once, split_whitespace, str_eq};
use vstd::prelude::*;

verus! {

/// What one server's headers say about a mail.
#[derive(Clone, Copy, Debug, PartialEq, Eq, Structural)]
pub struct AuthenticationResults {
    pub dkim_passed: bool,
}

/// Why the Authentication-Results headers cannot be read.
#[derive(Clone, Copy, Debug, PartialEq, Eq, Structural)]
pub enum AuthResultsError {
    /// A header names no server.
    EmptyHeader,
    /// The headers of the mail cannot be read.
    Mail(MailError),
}

/// Whether a header says that DKIM passed for the domain.
pub open spec fn says_dkim_passed(value: Seq<char>, domain: Seq<char>) -> bool {
    match crate::text::after_first(value, "dkim="@) {
        Some(rest) => {
            let found = crate::text::words(crate::text::until(rest, ';'));
            &&& found.len() > 0
            &&& found[0] == "pass"@
            &&& found.contains("header.d="@ + domain) || found.contains("header.i=@"@ + domain)
        },
        None => false,
    }
}

/// Whether one of the headers says that DKIM passed for the domain.
pub open spec fn one_says_dkim_passed(values: Seq<Seq<char>>, domain: Seq<char>) -> bool {
    exists|i: int| 0 <= i < values.len() && says_dkim_passed(#[trigger] values[i], domain)
}

fn contains_str(list: &Vec<&str>, item: &str) -> (r: bool)
    ensures
        r == list.deep_view().contains(item@),
{
    let mut i: usize = 0;
    while i < list.len()
        invariant
            i <= list.len(),
            forall|j: int| 0 <= j < i ==> list.deep_view()[j] != item@,
        decreases list.len() - i,
    {
        assert(list.deep_view()[i as int] == list@[i as int]@);
        if str_eq(list[i], item) {
            return true;
        }
        i = i + 1;
    }
    assert(!list.deep_view().contains(item@)) by {
        assert(list.deep_view().len() == list.len());
    }
    false
}

/// Whether one header says that DKIM passed for the domain.
fn header_dkim_passed(value: &str, sender_domain: &str) -> (r: bool)
    ensures
        r == says_dkim_passed(value@, sender_domain@),
{
    match split_once(value, "dkim=") {
        Some(dkim_to_end) => {
            let dkim_part = before(dkim_to_end, ';');
            let dkim_parts = split_whitespace(dkim_part);
            assert(dkim_parts.deep_view().len() == dkim_parts.len());
            if dkim_parts.len() == 0 {
                return false;
            }
            assert(dkim_parts.deep_view()[0] == dkim_parts@[0]@);
            if !str_eq(dkim_parts[0], "pass") {
                return false;
            }
            let mut header_d = "header.d=".to_owned();
            header_d.append(sender_domain);
            let mut header_i = "header.i=@".to_owned();
            header_i.append(sender_domain);
            contains_str(&dkim_parts, header_d.as_str()) || contains_str(
                &dkim_parts,
                header_i.as_str(),
            )
        },
        None => false,
    }
}

/// Whether the Authentication-Results headers of one server say that DKIM passed for the
/// sender's domain. One header that says so is enough, whatever the others say.
pub fn authresults_dkim_passed(headers: &[String], sender_domain: &str) -> (r: Result<
    bool,
    AuthResultsError,
>)
    ensures
        r == Ok::<bool, AuthResultsError>(
            one_says_dkim_passed(headers.deep_view(), sender_domain@),
        ),
{
    let mut i: usize = 0;
    while i < headers.len()
        invariant
            i <= headers.len(),
            forall|j: int|
                0 <= j < i ==> !says_dkim_passed(
                    #[trigger] headers.deep_view()[j],
                    sender_domain@,
                ),
        decreases headers.len() - i,
    {
        assert(headers.deep_view()[i as int] == headers@[i as int]@);
        if header_dkim_passed(headers[i].as_str(), sender_domain) {
            return Ok(true);
        }
        i = i + 1;
    }
    assert(headers.deep_view().len() == headers.len());
    Ok(false)
}

/// More headers never take back that DKIM passed, and their order does not matter: the
/// headers of two lists say it if and only if those of one of the lists do.
pub proof fn law_dkim_passed_by_any_header(
    first: Seq<Seq<char>>,
    second: Seq<Seq<char>>,
    domain: Seq<char>,
)
    ensures
        one_says_dkim_passed(first + second, domain) == (one_says_dkim_passed(first, domain)
            || one_says_dkim_passed(second, domain)),
        first.len() == 0 ==> !one_says_dkim_passed(first, domain),
        first.len() == 1 ==> one_says_dkim_passed(first, domain) == says_dkim_passed(
            first[0],
            domain,
        ),
{
    let both = first + second;
    if one_says_dkim_passed(first, domain) {
        let i = choose|i: int|
            0 <= i < first.len() && says_dkim_passed(#[trigger] first[i], domain);
        assert(both[i] == first[i]);
    }
    if one_says_dkim_passed(second, domain) {
        let i = choose|i: int|
            0 <= i < second.len() && says_dkim_passed(#[trigger] second[i], domain);
        assert(both[first.len() + i] == second[i]);
    }
    if one_says_dkim_passed(both, domain) {
        let i = choose|i: int|
            0 <= i < both.len() && says_dkim_passed(#[trigger] both[i], domain);
        if i < first.len() {
            assert(both[i] == first[i]);
        } else {
            assert(both[i] == second[i - first.len()]);
        }
    }
}

/// The server that wrote a header: its first word.
pub open spec fn writer(value: Seq<char>) -> Seq<char> {
    crate::text::words(value)[0]
}

/// Whether a header names the server that wrote it.
pub open spec fn has_writer(value: Seq<char>) -> bool {
    crate::text::words(value).len() > 0
}

/// The servers that wrote the headers, each once, in the order in which they first occur.
pub open spec fn writers(values: Seq<Seq<char>>) -> Seq<Seq<char>>
    decreases values.len(),
{
    if values.len() == 0 {
        seq![]
    } else {
        let earlier = writers(values.drop_last());
        let last = writer(values.last());
        if earlier.contains(last) {
            earlier
        } else {
            earlier.push(last)
        }
    }
}

/// Whether a header of the server `id` says that DKIM passed for the domain.
pub open spec fn verdict_of(values: Seq<Seq<char>>, domain: Seq<char>, id: Seq<char>) -> bool {
    exists|i: int|
        0 <= i < values.len() && writer(#[trigger] values[i]) == id && says_dkim_passed(
            values[i],
            domain,
        )
}

proof fn lemma_writers(values: Seq<Seq<char>>)
    ensures
        writers(values).no_duplicates(),
        forall|id: Seq<char>| #[trigger]
            writers(values).contains(id) <==> exists|i: int|
                0 <= i < values.len() && writer(#[trigger] values[i]) == id,
    decreases values.len(),
{
    if values.len() > 0 {
        let init = values.drop_last();
        let earlier = writers(init);
        let last = writer(values.last());
        lemma_writers(init);
        assert forall|id: Seq<char>| #[trigger] writers(values).contains(id) <==> exists|i: int|
            0 <= i < values.len() && writer(#[trigger] values[i]) == id by {
            if writers(values).contains(id) {
                if earlier.contains(id) {
                    let i = choose|i: int| 0 <= i < init.len() && writer(#[trigger] init[i]) == id;
                    assert(values[i] == init[i]);
                } else {
                    assert(id == last);
                    assert(writer(values[values.len() - 1]) == id);
                }
            }
            if exists|i: int| 0 <= i < values.len() && writer(#[trigger] values[i]) == id {
                let i = choose|i: int|
                    0 <= i < values.len() && writer(#[trigger] values[i]) == id;
                if i < init.len() {
                    assert(init[i] == values[i]);
                    assert(earlier.contains(id));
                    let k = choose|k: int| 0 <= k < earlier.len() && earlier[k] == id;
                    assert(writers(values)[k] == id);
                } else {
                    assert(id == last);
                    if !earlier.contains(last) {
                        assert(writers(values)[earlier.len() as int] == id);
                    }
                }
            }
        }
    }
}

/// Whether `ids` can be the servers of [`AuthResults`]: each once, and each a word.
pub open spec fn are_server_ids(ids: Seq<Seq<char>>) -> bool {
    &&& ids.no_duplicates()
    &&& forall|i: int| 0 <= i < ids.len() ==> crate::text::is_word(#[trigger] ids[i])
}

/// What the Authentication-Results headers of a mail say, by the server that wrote them.
#[derive(Debug)]
pub struct AuthResults {
    ids: Vec<String>,
    verdicts: Vec<AuthenticationResults>,
}

impl AuthResults {
    #[verifier::type_invariant]
    spec fn inv(self) -> bool {
        &&& are_server_ids(self.ids.deep_view())
        &&& self.verdicts@.len() == self.ids@.len()
    }

    /// The servers, each once, in the order of the mail.
    pub closed spec fn ids(self) -> Seq<Seq<char>> {
        self.ids.deep_view()
    }

    pub closed spec fn verdict_at(self, i: int) -> AuthenticationResults {
        self.verdicts@[i]
    }

    /// What is said, by server.
    pub open spec fn view(self) -> Map<Seq<char>, AuthenticationResults> {
        Map::new(
            |id: Seq<char>| self.ids().contains(id),
            |id: Seq<char>| self.verdict_at(self.ids().index_of(id)),
        )
    }

    /// Whether no server said anything.
    pub fn is_empty(&self) -> (r: bool)
        ensures
            r == (self.ids().len() == 0),
    {
        self.ids.len() == 0
    }

    /// The servers, each once, in the order of the mail. The name of a server is not
    /// empty and holds no white space.
    pub fn keys(&self) -> (r: &Vec<String>)
        ensures
            r.deep_view() == self.ids(),
            are_server_ids(r.deep_view()),
    {
        proof {
            use_type_invariant(self);
        }
        &self.ids
    }

    /// What the server `id` said, if it said anything.
    pub fn get(&self, id: &str) -> (r: Option<AuthenticationResults>)
        ensures
            match r {
                Some(v) => self@.contains_key(id@) && self@[id@] == v,
                None => !self@.contains_key(id@),
            },
    {
        proof {
            use_type_invariant(self);
        }
        let mut i: usize = 0;
        while i < self.ids.len()
            invariant
                i <= self.ids.len(),
                self.verdicts@.len() == self.ids@.len(),
                self.ids.deep_view().no_duplicates(),
                forall|j: int| 0 <= j < i ==> self.ids.deep_view()[j] != id@,
            decreases self.ids.len() - i,
        {
            assert(self.ids.deep_view()[i as int] == self.ids@[i as int]@);
            if str_eq(self.ids[i].as_str(), id) {
                proof {
                    assert(self.ids().contains(id@));
                    assert(self.ids()[self.ids().index_of(id@)] == id@);
                }
                return Some(self.verdicts[i]);
            }
            i = i + 1;
        }
        assert(self.ids.deep_view().len() == self.ids.len());
        None
    }
}

fn contains_string(list: &Vec<String>, item: &str) -> (r: bool)
    ensures
        r == list.deep_view().contains(item@),
{
    let mut i: usize = 0;
    while i < list.len()
        invariant
            i <= list.len(),
            forall|j: int| 0 <= j < i ==> list.deep_view()[j] != item@,
        decreases list.len() - i,
    {
        assert(list.deep_view()[i as int] == list@[i as int]@);
        if str_eq(list[i].as_str(), item) {
            return true;
        }
        i = i + 1;
    }
    assert(list.deep_view().len() == list.len());
    false
}

/// Whether `value` is one of the first `n` headers, and the server `id` wrote it.
spec fn is_header_of(values: Seq<Seq<char>>, n: int, id: Seq<char>, value: Seq<char>) -> bool {
    exists|i: int| 0 <= i < n && #[trigger] values[i] == value && writer(value) == id
}

/// The headers that the server `id` wrote.
fn headers_of(values: &Vec<String>, id: &str) -> (r: Vec<String>)
    requires
        forall|i: int| 0 <= i < values@.len() ==> has_writer(#[trigger] values.deep_view()[i]),
    ensures
        forall|k: int|
            0 <= k < r@.len() ==> is_header_of(
                values.deep_view(),
                values@.len() as int,
                id@,
                #[trigger] r.deep_view()[k],
            ),
        forall|i: int|
            0 <= i < values@.len() && writer(#[trigger] values.deep_view()[i]) == id@
                ==> r.deep_view().contains(values.deep_view()[i]),
{
    let ghost v = values.deep_view();
    let mut r: Vec<String> = Vec::new();
    let mut i: usize = 0;
    while i < values.len()
        invariant
            i <= values.len(),
            v == values.deep_view(),
            v.len() == values@.len(),
            forall|j: int| 0 <= j < v.len() ==> has_writer(#[trigger] v[j]),
            forall|k: int|
                0 <= k < r@.len() ==> is_header_of(v, i as int, id@, #[trigger] r.deep_view()[k]),
            forall|j: int|
                0 <= j < i && writer(#[trigger] v[j]) == id@ ==> r.deep_view().contains(v[j]),
        decreases values.len() - i,
    {
        let ghost prior = r.deep_view();
        assert(v[i as int] == values@[i as int]@);
        let found = split_whitespace(values[i].as_str());
        assert(has_writer(v[i as int]));
        assert(found.deep_view()[0] == found@[0]@);
        if str_eq(found[0], id) {
            r.push(values[i].clone());
            proof {
                assert(r.deep_view() =~= prior.push(v[i as int]));
                assert(r.deep_view()[prior.len() as int] == v[i as int]);
                assert forall|j: int| 0 <= j < i + 1 && writer(#[trigger] v[j])
                    == id@ implies r.deep_view().contains(v[j]) by {
                    if j < i {
                        let k = choose|k: int| 0 <= k < prior.len() && prior[k] == v[j];
                        assert(r.deep_view()[k] == v[j]);
                    }
                }
            }
        }
        proof {
            assert forall|k: int| 0 <= k < r@.len() implies is_header_of(
                v,
                i + 1,
                id@,
                #[trigger] r.deep_view()[k],
            ) by {
                if k < prior.len() {
                    assert(prior[k] == r.deep_view()[k]);
                    let j = choose|j: int|
                        0 <= j < i && #[trigger] v[j] == prior[k] && writer(prior[k]) == id@;
                    assert(v[j] == r.deep_view()[k]);
                } else {
                    assert(v[i as int] == r.deep_view()[k]);
                }
            }
        }
        i = i + 1;
    }
    r
}

/// Whether `r` is what the headers say: each server that wrote one, with whether one of
/// its own headers says that DKIM passed; or an error where a header names no server.
pub open spec fn reads_as(
    values: Seq<Seq<char>>,
    domain: Seq<char>,
    r: Result<AuthResults, AuthResultsError>,
) -> bool {
    match r {
        Ok(results) => {
            &&& forall|i: int| 0 <= i < values.len() ==> has_writer(#[trigger] values[i])
            &&& results.ids() == writers(values)
            &&& forall|id: Seq<char>|
                results@.contains_key(id) ==> (#[trigger] results@[id]).dkim_passed == verdict_of(
                    values,
                    domain,
                    id,
                )
        },
        Err(e) => {
            &&& e == AuthResultsError::EmptyHeader
            &&& exists|i: int| 0 <= i < values.len() && !has_writer(#[trigger] values[i])
        },
    }
}

/// Reads what Authentication-Results headers say, given the values of those headers and
/// the domain of the sender.
pub fn group_authentication_results(values: &Vec<String>, sender_domain: &str) -> (r: Result<
    AuthResults,
    AuthResultsError,
>)
    ensures
        reads_as(values.deep_view(), sender_domain@, r),
{
    let ghost v = values.deep_view();
    let mut ids: Vec<String> = Vec::new();
    let mut i: usize = 0;
    assert(ids.deep_view() =~= writers(v.take(0)));
    while i < values.len()
        invariant
            i <= values.len(),
            v == values.deep_view(),
            v.len() == values@.len(),
            forall|j: int| 0 <= j < i ==> has_writer(#[trigger] v[j]),
            ids.deep_view() == writers(v.take(i as int)),
            forall|j: int|
                0 <= j < ids@.len() ==> crate::text::is_word(#[trigger] ids.deep_view()[j]),
        decreases values.len() - i,
    {
        assert(v[i as int] == values@[i as int]@);
        let found = split_whitespace(values[i].as_str());
        assert(found.deep_view().len() == found.len());
        if found.len() == 0 {
            assert(!has_writer(v[i as int]));
            return Err(AuthResultsError::EmptyHeader);
        }
        assert(found.deep_view()[0] == found@[0]@);
        let ghost prior = ids.deep_view();
        proof {
            crate::text::lemma_words(v[i as int]);
            assert(v.take(i + 1).drop_last() =~= v.take(i as int));
            assert(v.take(i + 1).last() == v[i as int]);
        }
        if !contains_string(&ids, found[0]) {
            ids.push(found[0].to_owned());
            assert(ids.deep_view() =~= prior.push(writer(v[i as int])));
        }
        i = i + 1;
    }
    assert(v.take(i as int) =~= v);
    let mut verdicts: Vec<AuthenticationResults> = Vec::new();
    let mut k: usize = 0;
    while k < ids.len()
        invariant
            k <= ids.len(),
            v == values.deep_view(),
            v.len() == values@.len(),
            forall|j: int| 0 <= j < v.len() ==> has_writer(#[trigger] v[j]),
            verdicts@.len() == k,
            forall|j: int|
                0 <= j < k ==> (#[trigger] verdicts@[j]).dkim_passed == verdict_of(
                    v,
                    sender_domain@,
                    ids.deep_view()[j],
                ),
        decreases ids.len() - k,
    {
        let headers = headers_of(values, ids[k].as_str());
        let ghost id = ids@[k as int]@;
        assert(ids.deep_view()[k as int] == id);
        let slice = headers.as_slice();
        let dkim_passed = match authresults_dkim_passed(slice, sender_domain) {
            Ok(dkim_passed) => dkim_passed,
            Err(e) => {
                return Err(e);
            },
        };
        proof {
            let h = headers.deep_view();
            assert(slice.deep_view() =~= h);
            if dkim_passed {
                let n = choose|n: int|
                    0 <= n < h.len() && says_dkim_passed(#[trigger] h[n], sender_domain@);
                assert(is_header_of(v, v.len() as int, id, h[n]));
                let j = choose|j: int|
                    0 <= j < v.len() && #[trigger] v[j] == h[n] && writer(h[n]) == id;
                assert(writer(v[j]) == id && says_dkim_passed(v[j], sender_domain@));
            }
            if verdict_of(v, sender_domain@, id) {
                let j = choose|j: int|
                    0 <= j < v.len() && writer(#[trigger] v[j]) == id && says_dkim_passed(
                        v[j],
                        sender_domain@,
                    );
                let n = choose|n: int| 0 <= n < h.len() && h[n] == v[j];
                assert(says_dkim_passed(h[n], sender_domain@));
            }
        }
        verdicts.push(AuthenticationResults { dkim_passed });
        k = k + 1;
    }
    proof {
        lemma_writers(v);
    }
    let results = AuthResults { ids, verdicts };
    proof {
        assert forall|id: Seq<char>| results@.contains_key(id) implies (
        #[trigger] results@[id]).dkim_passed == verdict_of(v, sender_domain@, id) by {
            let n = results.ids().index_of(id);
            assert(results.ids()[n] == id);
            assert(results.verdicts@[n].dkim_passed == verdict_of(v, sender_domain@, id));
        }
    }
    Ok(results)
}

/// Reads what the Authentication-Results headers of a mail say, given the domain of its
/// sender.
pub fn parse_authentication_results(mail: &MimePart, sender_domain: &str) -> (r: Result<
    AuthResults,
    AuthResultsError,
>)
    ensures
        match crate::mail::header_values(mail.raw_bytes@, "Authentication-Results"@) {
            Some(values) => reads_as(values, sender_domain@, r),
            None => r == Err::<AuthResults, AuthResultsError>(
                AuthResultsError::Mail(MailError::Malformed),
            ),
        },
{
    match get_all_values(mail, "Authentication-Results") {
        Ok(values) => group_authentication_results(&values, sender_domain),
        Err(e) => Err(AuthResultsError::Mail(e)),
    }
}

/// The servers that may be the user's own, once a mail with headers of the servers `ids`
/// came in: those that were candidates before and wrote a header now; where there is no
/// record of candidates, all that wrote one.
pub open spec fn next_candidates(ids: Seq<Seq<char>>, stored: Option<Seq<char>>) -> Seq<Seq<char>> {
    match stored {
        Some(config) => {
            let old_ids = crate::text::split_on(config, ' ');
            ids.filter(|id: Seq<char>| old_ids.contains(id))
        },
        None => ids,
    }
}

/// The candidates to store after a mail came in: the names of the servers, with a space
/// between two of them. `None` where no server wrote a header: the candidates then stay
/// as they are.
pub fn update_authservid_candidates(results: &AuthResults, stored: Option<&str>) -> (r: Option<
    String,
>)
    ensures
        match r {
            Some(config) => {
                &&& results.ids().len() > 0
                &&& config@ == crate::text::join(
                    next_candidates(results.ids(), crate::text::str_view(stored)),
                    ' ',
                )
            },
            None => results.ids().len() == 0,
        },
{
    let new_ids = results.keys();
    assert(new_ids.deep_view().len() == new_ids.len());
    if new_ids.len() == 0 {
        return None;
    }
    match stored {
        Some(config) => {
            let old_ids = split(config, ' ');
            let ghost old = old_ids.deep_view();
            let ghost ids = results.ids();
            let ghost is_old = |id: Seq<char>| old.contains(id);
            let mut kept: Vec<String> = Vec::new();
            let mut i: usize = 0;
            proof {
                reveal(Seq::filter);
                assert(kept.deep_view() =~= ids.take(0).filter(is_old));
            }
            while i < new_ids.len()
                invariant
                    i <= new_ids.len(),
                    ids == new_ids.deep_view(),
                    ids.len() == new_ids.len(),
                    old == old_ids.deep_view(),
                    is_old == (|id: Seq<char>| old.contains(id)),
                    kept.deep_view() == ids.take(i as int).filter(is_old),
                decreases new_ids.len() - i,
            {
                let ghost prior = kept.deep_view();
                proof {
                    reveal(Seq::filter);
                    assert(ids[i as int] == new_ids@[i as int]@);
                    assert(ids.take(i + 1).drop_last() =~= ids.take(i as int));
                    assert(ids.take(i + 1).last() == ids[i as int]);
                }
                if contains_str(&old_ids, new_ids[i].as_str()) {
                    kept.push(new_ids[i].clone());
                    assert(kept.deep_view() =~= prior.push(ids[i as int]));
                }
                i = i + 1;
            }
            assert(ids.take(i as int) =~= ids);
            assert(next_candidates(ids, Some(config@)) == ids.filter(is_old));
            Some(join_with_spaces(&kept))
        },
        None => Some(join_with_spaces(new_ids)),
    }
}

/// The only candidate in a record of candidates, where there is exactly one.
pub open spec fn sole_candidate(stored: Option<Seq<char>>) -> Option<Seq<char>> {
    match stored {
        Some(config) => {
            let ids = crate::text::split_on(config, ' ');
            if forall|i: int| 0 <= i < ids.len() ==> #[trigger] ids[i] == ids[0] {
                Some(ids[0])
            } else {
                None
            }
        },
        None => None,
    }
}

/// Whether the mail has a header of the only candidate, where there is exactly one.
pub open spec fn verdict_known(
    results: Map<Seq<char>, AuthenticationResults>,
    stored: Option<Seq<char>>,
) -> bool {
    sole_candidate(stored) matches Some(id) ==> results.contains_key(id)
}

/// Whether DKIM counts as passed: as the only candidate says, and else yes.
pub open spec fn counts_as_passed(
    results: Map<Seq<char>, AuthenticationResults>,
    stored: Option<Seq<char>>,
) -> bool {
    match sole_candidate(stored) {
        Some(id) => results[id].dkim_passed,
        None => true,
    }
}

fn single_candidate<'a>(stored: Option<&'a str>) -> (r: Option<&'a str>)
    ensures
        crate::text::str_view(r) == sole_candidate(crate::text::str_view(stored)),
{
    match stored {
        Some(config) => {
            let ids = split(config, ' ');
            let ghost v = ids.deep_view();
            proof {
                assert(v.len() == ids.len());
                assert(crate::text::split_on(config@, ' ').len() > 0);
                assert(v[0] == ids@[0]@);
            }
            let mut i: usize = 1;
            while i < ids.len()
                invariant
                    1 <= i <= ids.len(),
                    v == ids.deep_view(),
                    v == crate::text::split_on(config@, ' '),
                    stored == Some(config),
                    forall|j: int| 0 <= j < i ==> #[trigger] v[j] == v[0],
                decreases ids.len() - i,
            {
                assert(v[0] == ids@[0]@);
                assert(v[i as int] == ids@[i as int]@);
                if !str_eq(ids[i], ids[0]) {
                    assert(v[i as int] != v[0]);
                    return None;
                }
                i = i + 1;
            }
            Some(ids[0])
        },
        None => None,
    }
}

/// Whether the mail has a header of the only candidate, where there is exactly one.
pub fn is_verdict_known(results: &AuthResults, stored: Option<&str>) -> (r: bool)
    ensures
        r == verdict_known(results@, crate::text::str_view(stored)),
{
    match single_candidate(stored) {
        Some(id) => results.get(id).is_some(),
        None => true,
    }
}

/// Whether DKIM counts as passed: as the only candidate says, and else yes.
pub fn dkim_passed(results: &AuthResults, stored: Option<&str>) -> (r: bool)
    requires
        verdict_known(results@, crate::text::str_view(stored)),
    ensures
        r == counts_as_passed(results@, crate::text::str_view(stored)),
{
    match single_candidate(stored) {
        Some(id) => match results.get(id) {
            Some(verdict) => verdict.dkim_passed,
            None => true,
        },
        None => true,
    }
}

proof fn lemma_same_filter(
    ids: Seq<Seq<char>>,
    p: spec_fn(Seq<char>) -> bool,
    q: spec_fn(Seq<char>) -> bool,
)
    requires
        forall|i: int| 0 <= i < ids.len() ==> p(#[trigger] ids[i]) == q(ids[i]),
    ensures
        ids.filter(p) == ids.filter(q),
    decreases ids.len(),
{
    reveal(Seq::filter);
    if ids.len() > 0 {
        let init = ids.drop_last();
        assert forall|i: int| 0 <= i < init.len() implies p(#[trigger] init[i]) == q(init[i]) by {
            assert(init[i] == ids[i]);
        }
        lemma_same_filter(init, p, q);
        assert(p(ids[ids.len() - 1]) == q(ids[ids.len() - 1]));
    }
}

proof fn lemma_filter_none_out(ids: Seq<Seq<char>>, p: spec_fn(Seq<char>) -> bool)
    requires
        forall|i: int| 0 <= i < ids.len() ==> p(#[trigger] ids[i]),
    ensures
        ids.filter(p) == ids,
    decreases ids.len(),
{
    reveal(Seq::filter);
    if ids.len() > 0 {
        let init = ids.drop_last();
        assert forall|i: int| 0 <= i < init.len() implies p(#[trigger] init[i]) by {
            assert(init[i] == ids[i]);
        }
        lemma_filter_none_out(init, p);
        assert(p(ids[ids.len() - 1]));
        assert(init.push(ids.last()) =~= ids);
    } else {
        assert(ids.filter(p) =~= ids);
    }
}

proof fn lemma_filter_no_duplicates(ids: Seq<Seq<char>>, p: spec_fn(Seq<char>) -> bool)
    requires
        ids.no_duplicates(),
    ensures
        ids.filter(p).no_duplicates(),
    decreases ids.len(),
{
    reveal(Seq::filter);
    if ids.len() > 0 {
        let init = ids.drop_last();
        lemma_filter_no_duplicates(init, p);
        let kept = init.filter(p);
        if p(ids.last()) {
            assert forall|i: int| 0 <= i < kept.len() implies #[trigger] kept[i] != ids.last() by {
                assert(kept.contains(kept[i]));
                init.lemma_filter_contains_rev(p, kept[i]);
                let j = choose|j: int| 0 <= j < init.len() && init[j] == kept[i];
                assert(ids[j] == kept[i]);
            }
        }
    }
}

/// A server is a candidate after a mail if and only if it wrote a header of the mail and,
/// where there was a record of candidates, was one before.
pub proof fn law_candidates_narrow_down(
    ids: Seq<Seq<char>>,
    stored: Option<Seq<char>>,
    id: Seq<char>,
)
    ensures
        next_candidates(ids, stored).contains(id) <==> ids.contains(id) && (
        stored matches Some(config) ==> crate::text::split_on(config, ' ').contains(id)),
{
    match stored {
        Some(config) => {
            let old_ids = crate::text::split_on(config, ' ');
            let p = |id: Seq<char>| old_ids.contains(id);
            if ids.filter(p).contains(id) {
                ids.lemma_filter_contains_rev(p, id);
                let i = choose|i: int| 0 <= i < ids.filter(p).len() && ids.filter(p)[i] == id;
                ids.lemma_filter_pred(p, i);
            }
            if ids.contains(id) && old_ids.contains(id) {
                let i = choose|i: int| 0 <= i < ids.len() && ids[i] == id;
                ids.lemma_filter_contains(p, i);
            }
        },
        None => {},
    }
}

/// The candidates are again names of servers, each once.
pub proof fn lemma_candidates_are_server_ids(ids: Seq<Seq<char>>, stored: Option<Seq<char>>)
    requires
        are_server_ids(ids),
    ensures
        are_server_ids(next_candidates(ids, stored)),
{
    let next = next_candidates(ids, stored);
    match stored {
        Some(config) => {
            let old_ids = crate::text::split_on(config, ' ');
            lemma_filter_no_duplicates(ids, |id: Seq<char>| old_ids.contains(id));
        },
        None => {},
    }
    assert forall|i: int| 0 <= i < next.len() implies crate::text::is_word(#[trigger] next[i]) by {
        assert(next.contains(next[i]));
        law_candidates_narrow_down(ids, stored, next[i]);
        let j = choose|j: int| 0 <= j < ids.len() && ids[j] == next[i];
        assert(crate::text::is_word(ids[j]));
    }
}

/// Reading the record of candidates gives back the candidates that were written, where
/// there are any.
pub proof fn law_candidates_are_read_back(ids: Seq<Seq<char>>, stored: Option<Seq<char>>)
    requires
        are_server_ids(ids),
        next_candidates(ids, stored).len() > 0,
    ensures
        crate::text::split_on(crate::text::join(next_candidates(ids, stored), ' '), ' ')
            == next_candidates(ids, stored),
{
    let next = next_candidates(ids, stored);
    lemma_candidates_are_server_ids(ids, stored);
    assert forall|i: int| 0 <= i < next.len() implies !(#[trigger] next[i]).contains(' ') by {
        assert(crate::text::is_word(next[i]));
        if next[i].contains(' ') {
            let j = choose|j: int| 0 <= j < next[i].len() && next[i][j] == ' ';
            assert(!crate::text::is_white_space(next[i][j]));
        }
    }
    crate::text::lemma_split_join(next, ' ');
}

/// An empty record of candidates names no server.
proof fn lemma_empty_record_names_no_server(ids: Seq<Seq<char>>)
    requires
        are_server_ids(ids),
    ensures
        crate::text::split_on(seq![], ' ') == seq![Seq::<char>::empty()],
        next_candidates(ids, Some(seq![])) == Seq::<Seq<char>>::empty(),
{
    let pieces = crate::text::split_on(seq![], ' ');
    assert(pieces =~= seq![Seq::<char>::empty()]);
    let next = next_candidates(ids, Some(seq![]));
    if next.len() > 0 {
        law_candidates_narrow_down(ids, Some(seq![]), next[0]);
        lemma_candidates_are_server_ids(ids, Some(seq![]));
        assert(next.contains(next[0]));
        assert(pieces.contains(next[0]));
        assert(next[0].len() == 0);
        assert(crate::text::is_word(next[0]));
    }
    assert(next =~= seq![]);
}

/// A second mail with headers of the same servers leaves the candidates as they are.
pub proof fn law_same_servers_change_nothing(ids: Seq<Seq<char>>, stored: Option<Seq<char>>)
    requires
        are_server_ids(ids),
    ensures
        next_candidates(
            ids,
            Some(crate::text::join(next_candidates(ids, stored), ' ')),
        ) == next_candidates(ids, stored),
{
    let next = next_candidates(ids, stored);
    let record = crate::text::join(next, ' ');
    if next.len() == 0 {
        assert(record =~= seq![]);
        lemma_empty_record_names_no_server(ids);
        assert(next =~= seq![]);
    } else {
        law_candidates_are_read_back(ids, stored);
        let q = |id: Seq<char>| crate::text::split_on(record, ' ').contains(id);
        assert forall|i: int| 0 <= i < ids.len() implies q(#[trigger] ids[i]) == next.contains(
            ids[i],
        ) by {}
        match stored {
            Some(config) => {
                let old_ids = crate::text::split_on(config, ' ');
                let p = |id: Seq<char>| old_ids.contains(id);
                assert forall|i: int| 0 <= i < ids.len() implies p(#[trigger] ids[i]) == q(
                    ids[i],
                ) by {
                    assert(ids.contains(ids[i]));
                    law_candidates_narrow_down(ids, stored, ids[i]);
                }
                lemma_same_filter(ids, p, q);
            },
            None => {
                assert forall|i: int| 0 <= i < ids.len() implies q(#[trigger] ids[i]) by {
                    assert(ids.contains(ids[i]));
                }
                lemma_filter_none_out(ids, q);
            },
        }
        assert(next_candidates(ids, Some(record)) == ids.filter(q));
    }
}

/// Once no candidate is left, no later mail brings one back.
pub proof fn law_no_candidate_comes_back(
    ids: Seq<Seq<char>>,
    stored: Option<Seq<char>>,
    later_ids: Seq<Seq<char>>,
)
    requires
        are_server_ids(later_ids),
        next_candidates(ids, stored).len() == 0,
    ensures
        next_candidates(
            later_ids,
            Some(crate::text::join(next_candidates(ids, stored), ' ')),
        ).len() == 0,
{
    assert(crate::text::join(next_candidates(ids, stored), ' ') =~= seq![]);
    lemma_empty_record_names_no_server(later_ids);
}

/// After the candidates were updated with the servers of a mail, the mail has a header of
/// the only candidate, where there is exactly one, if and only if a candidate is left.
pub proof fn law_verdict_is_known_while_candidates_last(
    results: AuthResults,
    stored: Option<Seq<char>>,
)
    requires
        are_server_ids(results.ids()),
    ensures
        verdict_known(
            results@,
            Some(crate::text::join(next_candidates(results.ids(), stored), ' ')),
        ) == (next_candidates(results.ids(), stored).len() > 0),
{
    let ids = results.ids();
    let next = next_candidates(ids, stored);
    let record = crate::text::join(next, ' ');
    if next.len() > 0 {
        law_candidates_are_read_back(ids, stored);
        assert(next.contains(next[0]));
        law_candidates_narrow_down(ids, stored, next[0]);
    } else {
        assert(record =~= seq![]);
        lemma_empty_record_names_no_server(ids);
        assert(sole_candidate(Some(record)) == Some(Seq::<char>::empty()));
        if ids.contains(seq![]) {
            let i = choose|i: int| 0 <= i < ids.len() && ids[i] == Seq::<char>::empty();
            assert(crate::text::is_word(ids[i]));
        }
    }
}

/// Whether DKIM passed is read behind the first `dkim=` of a header, up to a semicolon: the
/// first word there is `pass`, and one of the words names the domain.
pub proof fn law_dkim_is_read_behind_its_first_mark(
    head: Seq<char>,
    dkim: Seq<char>,
    tail: Seq<char>,
    domain: Seq<char>,
)
    requires
        forall|k: int|
            0 <= k < head.len() ==> !"dkim="@.is_prefix_of(
                #[trigger] (head + "dkim="@ + dkim + tail).skip(k),
            ),
        !dkim.contains(';'),
        tail.len() == 0 || tail[0] == ';',
    ensures
        says_dkim_passed(head + "dkim="@ + dkim + tail, domain) <==> {
            &&& crate::text::words(dkim).len() > 0
            &&& crate::text::words(dkim)[0] == "pass"@
            &&& crate::text::words(dkim).contains("header.d="@ + domain) || crate::text::words(
                dkim,
            ).contains("header.i=@"@ + domain)
        },
{
    let mark = "dkim="@;
    let value = head + mark + dkim + tail;
    let n = head.len() as int;
    assert(mark =~= value.skip(n).take(mark.len() as int));
    crate::text::law_first_occurrence_counts(value, mark, n);
    assert(value.skip(n + mark.len()) =~= dkim + tail);
    if tail.len() == 0 {
        assert(dkim + tail =~= dkim);
        crate::text::law_until_stops_at_the_first_separator(dkim, ';', seq![]);
    } else {
        assert(dkim + tail =~= dkim + seq![';'] + tail.skip(1));
        crate::text::law_until_stops_at_the_first_separator(dkim, ';', tail.skip(1));
    }
}

/// A header without `dkim=` never says that DKIM passed.
pub proof fn law_no_mark_no_pass(value: Seq<char>, domain: Seq<char>)
    requires
        forall|k: int|
            0 <= k <= value.len() ==> !"dkim="@.is_prefix_of(#[trigger] value.skip(k)),
    ensures
        !says_dkim_passed(value, domain),
{
    crate::text::law_first_occurrence_counts(value, "dkim="@, value.len() as int);
}

/// A header that says that DKIM passed for one domain says so for this domain and for no
/// other.
pub proof fn law_dkim_passes_for_the_named_domain(
    head: Seq<char>,
    named: Seq<char>,
    tail: Seq<char>,
    domain: Seq<char>,
)
    requires
        crate::text::is_word(named),
        !named.contains(';'),
        tail.len() == 0 || tail[0] == ';',
        forall|k: int|
            0 <= k < head.len() ==> !"dkim="@.is_prefix_of(
                #[trigger] (head + "dkim="@ + ("pass"@ + seq![' '] + ("header.d="@ + named))
                    + tail).skip(k),
            ),
    ensures
        says_dkim_passed(
            head + "dkim="@ + ("pass"@ + seq![' '] + ("header.d="@ + named)) + tail,
            domain,
        ) <==> domain == named,
{
    reveal_strlit("pass");
    reveal_strlit("header.d=");
    reveal_strlit("header.i=@");
    let pass = "pass"@;
    let w = "header.d="@ + named;
    let dkim = pass + seq![' '] + w;
    assert(!dkim.contains(';')) by {
        if dkim.contains(';') {
            let i = choose|i: int| 0 <= i < dkim.len() && dkim[i] == ';';
            assert(i >= 14);
            assert(named[i - 14] == ';');
        }
    }
    law_dkim_is_read_behind_its_first_mark(head, dkim, tail, domain);
    assert forall|i: int| 0 <= i < w.len() implies !crate::text::is_white_space(
        #[trigger] w[i],
    ) by {
        if i >= 9 {
            assert(w[i] == named[i - 9]);
        }
    }
    crate::text::law_white_space_parts_words(pass, ' ', w);
    crate::text::law_white_space_parts_words(w, ' ', seq![]);
    let found = crate::text::words(dkim);
    assert(found =~= seq![pass, w]);
    assert(found[1] == w);
    if found.contains("header.d="@ + domain) {
        let d = "header.d="@ + domain;
        assert(d.len() >= 9);
        assert(d == w);
        assert(d.skip(9) =~= domain);
        assert(w.skip(9) =~= named);
    }
    if found.contains("header.i=@"@ + domain) {
        let d = "header.i=@"@ + domain;
        assert(d.len() >= 10);
        assert(d == w);
        assert(d[7] == 'i' && w[7] == 'd');
    }
}

/// Each server that wrote a header counts, and no other, with whether one of its own headers
/// says that DKIM passed. Headers cannot be read if and only if one of them has no words.
pub proof fn law_results_are_those_of_the_headers(
    values: Seq<Seq<char>>,
    domain: Seq<char>,
    r: Result<AuthResults, AuthResultsError>,
    id: Seq<char>,
)
    ensures
        reads_as(values, domain, r) ==> (r is Err <==> exists|i: int|
            0 <= i < values.len() && crate::text::words(#[trigger] values[i]).len() == 0),
        reads_as(values, domain, r) ==> (r matches Err(e) ==> e == AuthResultsError::EmptyHeader),
        reads_as(values, domain, r) ==> (r matches Ok(results) ==> {
            &&& results.ids().no_duplicates()
            &&& results.ids().contains(id) <==> exists|i: int|
                0 <= i < values.len() && crate::text::words(#[trigger] values[i])[0] == id
            &&& results@.contains_key(id) <==> results.ids().contains(id)
            &&& results@.contains_key(id) ==> (results@[id].dkim_passed <==> exists|i: int|
                0 <= i < values.len() && crate::text::words(#[trigger] values[i])[0] == id
                    && says_dkim_passed(values[i], domain))
            &&& results.ids().len() == 0 <==> values.len() == 0
        }),
{
    lemma_writers(values);
    if reads_as(values, domain, r) {
        match r {
            Ok(results) => {
                if values.len() > 0 {
                    assert(writer(values[0]) == crate::text::words(values[0])[0]);
                    assert(results.ids().contains(writer(values[0])));
                }
                if results.ids().len() > 0 {
                    assert(results.ids().contains(results.ids()[0]));
                }
                assert(writers(values).contains(id) <==> exists|i: int|
                    0 <= i < values.len() && writer(#[trigger] values[i]) == id);
                assert forall|i: int| 0 <= i < values.len() implies writer(#[trigger] values[i])
                    == crate::text::words(values[i])[0] by {}
            },
            Err(_) => {},
        }
    }
}

/// A record has a sole candidate if and only if it names no two different servers, and that
/// candidate is the one that it names.
pub proof fn law_sole_candidate_is_the_only_name(config: Seq<char>, i: int, j: int, id: Seq<char>)
    ensures
        ({
            let names = crate::text::split_on(config, ' ');
            &&& 0 <= i < names.len() && 0 <= j < names.len() && names[i] != names[j]
                ==> sole_candidate(Some(config)) is None
            &&& (forall|k: int| 0 <= k < names.len() ==> #[trigger] names[k] == id)
                ==> sole_candidate(Some(config)) == Some(id)
        }),
        sole_candidate(None) is None,
{
}

/// Where the record names one server, the mail is judged by the headers of that server
/// alone; where it names several, or there is none, DKIM counts as passed.
pub proof fn law_sole_candidate_decides(
    values: Seq<Seq<char>>,
    domain: Seq<char>,
    results: AuthResults,
    id: Seq<char>,
    other: Seq<char>,
    more: Seq<char>,
)
    requires
        !id.contains(' '),
        !other.contains(' '),
    ensures
        reads_as(values, domain, Ok(results)) ==> (verdict_known(results@, Some(id)) <==> exists|
            i: int,
        |
            0 <= i < values.len() && crate::text::words(#[trigger] values[i])[0] == id),
        reads_as(values, domain, Ok(results)) && verdict_known(results@, Some(id)) ==> (
        counts_as_passed(results@, Some(id)) <==> exists|i: int|
            0 <= i < values.len() && crate::text::words(#[trigger] values[i])[0] == id
                && says_dkim_passed(values[i], domain)),
        verdict_known(results@, None) && counts_as_passed(results@, None),
        id != other ==> verdict_known(results@, Some(id + seq![' '] + other)) && counts_as_passed(
            results@,
            Some(id + seq![' '] + other),
        ),
        id != other ==> counts_as_passed(
            results@,
            Some(id + seq![' '] + (other + seq![' '] + more)),
        ),
{
    law_results_are_those_of_the_headers(
        values,
        domain,
        Ok::<AuthResults, AuthResultsError>(results),
        id,
    );
    crate::text::law_text_is_split_at_separators(id, ' ', other);
    crate::text::law_text_is_split_at_separators(other, ' ', more);
    crate::text::law_text_is_split_at_separators(id, ' ', other + seq![' '] + more);
    assert(sole_candidate(Some(id)) == Some(id)) by {
        let ids = crate::text::split_on(id, ' ');
        assert(ids == seq![id]);
    }
    if id != other {
        let two = crate::text::split_on(id + seq![' '] + other, ' ');
        assert(two[0] == id && two[1] == other);
        let many = crate::text::split_on(id + seq![' '] + (other + seq![' '] + more), ' ');
        assert(many[0] == id && many[1] == other);
    }
}

} // verus!
