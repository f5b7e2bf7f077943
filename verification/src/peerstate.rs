//! Bringing the state of a peer up to date with the Autocrypt header of a mail.
//!
//! The database, and the merging of a header into a state, are outside of this module. A
//! [`PeerstateLookup`] says what is to be done there next, and goes on with what came of
//! it.
use crate::keys::{Aheader, Fingerprint, Peerstate};
use vstd::prelude::*;

verus! {

/// What is to be done next.
#[derive(Debug)]
pub enum PeerstateStep {
    /// Load the state of the peer whose key with this fingerprint is verified, or else
    /// the state of the peer with the From address.
    LoadByVerifiedFingerprintOrAddr { fingerprint: Fingerprint },
    /// Load the state of the peer with the From address.
    LoadByAddr,
    /// Apply the header to the state.
    ApplyHeader { peerstate: Peerstate },
    /// Make a new state from the header.
    MakeFromHeader,
    /// Save the state to the database, as a new one if `create`.
    Save { peerstate: Peerstate, create: bool },
    /// Nothing: this is the result. An error where something outside failed.
    Finished { result: Result<Option<Peerstate>, ()> },
}

/// What came of a step.
#[derive(Debug)]
pub enum PeerstateReply {
    /// What was loaded, and whether its address is the From address.
    Loaded { found: Option<Peerstate>, same_addr: bool },
    /// The state as it is with the header.
    Updated { peerstate: Peerstate },
    Saved,
    Failed,
}

/// A lookup under way.
#[derive(Debug)]
pub struct PeerstateLookup<'a> {
    /// The From address of the mail.
    pub from: &'a str,
    pub autocrypt_header: Option<&'a Aheader>,
    pub message_time: i64,
    /// Whether the header may change what is known of the peer.
    pub allow_change: bool,
    pub step: PeerstateStep,
}

/// Whether `reply` can come of `step`.
pub open spec fn answers(reply: PeerstateReply, step: PeerstateStep) -> bool {
    match step {
        PeerstateStep::LoadByVerifiedFingerprintOrAddr { .. } => reply is Loaded
            || reply is Failed,
        PeerstateStep::LoadByAddr => reply is Loaded || reply is Failed,
        PeerstateStep::ApplyHeader { .. } => reply is Updated || reply is Failed,
        PeerstateStep::MakeFromHeader => reply is Updated || reply is Failed,
        PeerstateStep::Save { .. } => reply is Saved || reply is Failed,
        PeerstateStep::Finished { .. } => false,
    }
}

/// How many steps can follow.
pub open spec fn steps_left(step: PeerstateStep) -> nat {
    match step {
        PeerstateStep::LoadByVerifiedFingerprintOrAddr { .. } => 3,
        PeerstateStep::LoadByAddr => 1,
        PeerstateStep::ApplyHeader { .. } => 2,
        PeerstateStep::MakeFromHeader => 2,
        PeerstateStep::Save { .. } => 1,
        PeerstateStep::Finished { .. } => 0,
    }
}

/// The step that follows a step and its reply.
pub open spec fn next_step(
    step: PeerstateStep,
    reply: PeerstateReply,
    allow_change: bool,
) -> PeerstateStep {
    match (step, reply) {
        (
            PeerstateStep::LoadByVerifiedFingerprintOrAddr { .. },
            PeerstateReply::Loaded { found: Some(peerstate), same_addr },
        ) => if same_addr && allow_change {
            PeerstateStep::ApplyHeader { peerstate }
        } else {
            PeerstateStep::Finished { result: Ok(Some(peerstate)) }
        },
        (
            PeerstateStep::LoadByVerifiedFingerprintOrAddr { .. },
            PeerstateReply::Loaded { found: None, .. },
        ) => PeerstateStep::MakeFromHeader,
        (
            PeerstateStep::ApplyHeader { .. },
            PeerstateReply::Updated { peerstate },
        ) => PeerstateStep::Save { peerstate, create: false },
        (
            PeerstateStep::MakeFromHeader,
            PeerstateReply::Updated { peerstate },
        ) => PeerstateStep::Save { peerstate, create: true },
        (
            PeerstateStep::Save { peerstate, .. },
            PeerstateReply::Saved,
        ) => PeerstateStep::Finished { result: Ok(Some(peerstate)) },
        (
            PeerstateStep::LoadByAddr,
            PeerstateReply::Loaded { found, .. },
        ) => PeerstateStep::Finished { result: Ok(found) },
        _ => PeerstateStep::Finished { result: Err(()) },
    }
}

/// Whether a lookup is at its first step, for a mail with this From address, this Autocrypt
/// header and this time.
pub open spec fn lookup_begins(
    lookup: PeerstateLookup,
    from: Seq<char>,
    autocrypt_header: Option<Aheader>,
    message_time: i64,
    allow_change: bool,
) -> bool {
    &&& lookup.from@ == from
    &&& lookup.message_time == message_time
    &&& lookup.allow_change == allow_change
    &&& match autocrypt_header {
        Some(header) => {
            &&& lookup.autocrypt_header == Some(&header)
            &&& lookup.step matches PeerstateStep::LoadByVerifiedFingerprintOrAddr { fingerprint }
                && fingerprint@ == header.public_key@.fingerprint
        },
        None => lookup.autocrypt_header is None && lookup.step is LoadByAddr,
    }
}

/// Begins to apply the Autocrypt header of a mail to the state of the peer who sent it,
/// and to save that state.
///
/// If the verified fingerprint belongs to a peer with another address, the result is the
/// state of that peer, unchanged, and nothing is saved.
pub fn get_autocrypt_peerstate<'a>(
    from: &'a str,
    autocrypt_header: Option<&'a Aheader>,
    message_time: i64,
    allow_change: bool,
) -> (r: PeerstateLookup<'a>)
    ensures
        lookup_begins(
            r,
            from@,
            match autocrypt_header {
                Some(header) => Some(*header),
                None => None,
            },
            message_time,
            allow_change,
        ),
{
    let step = match autocrypt_header {
        Some(header) => PeerstateStep::LoadByVerifiedFingerprintOrAddr {
            fingerprint: header.public_key.fingerprint.clone(),
        },
        None => PeerstateStep::LoadByAddr,
    };
    PeerstateLookup { from, autocrypt_header, message_time, allow_change, step }
}

impl<'a> PeerstateLookup<'a> {
    /// Goes on with what came of the step.
    pub fn resume(self, reply: PeerstateReply) -> (r: PeerstateLookup<'a>)
        requires
            answers(reply, self.step),
        ensures
            r.step == next_step(self.step, reply, self.allow_change),
            r == (PeerstateLookup { step: r.step, ..self }),
            steps_left(r.step) < steps_left(self.step),
    {
        let step = match (self.step, reply) {
            (
                PeerstateStep::LoadByVerifiedFingerprintOrAddr { .. },
                PeerstateReply::Loaded { found, same_addr },
            ) => match found {
                Some(peerstate) => if same_addr && self.allow_change {
                    PeerstateStep::ApplyHeader { peerstate }
                } else {
                    PeerstateStep::Finished { result: Ok(Some(peerstate)) }
                },
                None => PeerstateStep::MakeFromHeader,
            },
            (
                PeerstateStep::ApplyHeader { .. },
                PeerstateReply::Updated { peerstate },
            ) => PeerstateStep::Save { peerstate, create: false },
            (
                PeerstateStep::MakeFromHeader,
                PeerstateReply::Updated { peerstate },
            ) => PeerstateStep::Save { peerstate, create: true },
            (
                PeerstateStep::Save { peerstate, .. },
                PeerstateReply::Saved,
            ) => PeerstateStep::Finished { result: Ok(Some(peerstate)) },
            (
                PeerstateStep::LoadByAddr,
                PeerstateReply::Loaded { found, .. },
            ) => PeerstateStep::Finished { result: Ok(found) },
            _ => PeerstateStep::Finished { result: Err(()) },
        };
        PeerstateLookup {
            from: self.from,
            autocrypt_header: self.autocrypt_header,
            message_time: self.message_time,
            allow_change: self.allow_change,
            step,
        }
    }
}

/// The step that is reached by some replies, one after the other.
pub open spec fn run(
    step: PeerstateStep,
    replies: Seq<PeerstateReply>,
    allow_change: bool,
) -> PeerstateStep
    decreases replies.len(),
{
    if replies.len() == 0 {
        step
    } else {
        run(next_step(step, replies[0], allow_change), replies.skip(1), allow_change)
    }
}

/// Whether each of the replies can come of the step that it is given to.
pub open spec fn all_answer(
    step: PeerstateStep,
    replies: Seq<PeerstateReply>,
    allow_change: bool,
) -> bool
    decreases replies.len(),
{
    replies.len() == 0 || answers(replies[0], step) && all_answer(
        next_step(step, replies[0], allow_change),
        replies.skip(1),
        allow_change,
    )
}

/// A state that is stored under another address, or that must not change, comes back as
/// it was loaded, and nothing is ever saved.
pub proof fn law_foreign_state_is_not_saved(
    fingerprint: Fingerprint,
    loaded: Peerstate,
    same_addr: bool,
    allow_change: bool,
    replies: Seq<PeerstateReply>,
)
    requires
        !same_addr || !allow_change,
        all_answer(
            PeerstateStep::LoadByVerifiedFingerprintOrAddr { fingerprint },
            seq![PeerstateReply::Loaded { found: Some(loaded), same_addr }] + replies,
            allow_change,
        ),
    ensures
        replies.len() == 0,
        run(
            PeerstateStep::LoadByVerifiedFingerprintOrAddr { fingerprint },
            seq![PeerstateReply::Loaded { found: Some(loaded), same_addr }],
            allow_change,
        ) == (PeerstateStep::Finished { result: Ok(Some(loaded)) }),
{
    reveal_with_fuel(run, 2);
    reveal_with_fuel(all_answer, 3);
    let first = PeerstateReply::Loaded { found: Some(loaded), same_addr };
    let all = seq![first] + replies;
    assert(all[0] == first);
    assert(all.skip(1) =~= replies);
    assert(seq![first].skip(1).len() == 0);
}

/// Without an Autocrypt header, the state is what is stored under the address, and
/// nothing is ever saved.
pub proof fn law_no_header_changes_nothing(
    loaded: Option<Peerstate>,
    same_addr: bool,
    allow_change: bool,
    replies: Seq<PeerstateReply>,
)
    requires
        all_answer(
            PeerstateStep::LoadByAddr,
            seq![PeerstateReply::Loaded { found: loaded, same_addr }] + replies,
            allow_change,
        ),
    ensures
        replies.len() == 0,
        run(
            PeerstateStep::LoadByAddr,
            seq![PeerstateReply::Loaded { found: loaded, same_addr }],
            allow_change,
        ) == (PeerstateStep::Finished { result: Ok(loaded) }),
{
    reveal_with_fuel(run, 2);
    reveal_with_fuel(all_answer, 3);
    let first = PeerstateReply::Loaded { found: loaded, same_addr };
    let all = seq![first] + replies;
    assert(all[0] == first);
    assert(all.skip(1) =~= replies);
    assert(seq![first].skip(1).len() == 0);
}

/// A peer that nothing is known of is learned from the header: a state is made of it, saved
/// as a new one, and comes back, whether what is known may change or not.
pub proof fn law_new_peer_is_learned(
    fingerprint: Fingerprint,
    same_addr: bool,
    made: Peerstate,
    allow_change: bool,
)
    ensures
        ({
            let load = PeerstateStep::LoadByVerifiedFingerprintOrAddr { fingerprint };
            let loaded = PeerstateReply::Loaded { found: None, same_addr };
            let updated = PeerstateReply::Updated { peerstate: made };
            let all = seq![loaded, updated, PeerstateReply::Saved];
            &&& all_answer(load, all, allow_change)
            &&& run(load, seq![loaded], allow_change) is MakeFromHeader
            &&& run(load, seq![loaded, updated], allow_change) == (PeerstateStep::Save {
                peerstate: made,
                create: true,
            })
            &&& run(load, all, allow_change) == (PeerstateStep::Finished { result: Ok(Some(made)) })
        }),
{
    let load = PeerstateStep::LoadByVerifiedFingerprintOrAddr { fingerprint };
    let loaded = PeerstateReply::Loaded { found: None, same_addr };
    let updated = PeerstateReply::Updated { peerstate: made };
    lemma_run_of_three(load, loaded, updated, PeerstateReply::Saved, allow_change);
}

/// A state that is stored under the From address, and that may change, has the header
/// applied to it. The outcome is saved in place of it and comes back.
pub proof fn law_known_peer_is_updated(
    fingerprint: Fingerprint,
    stored: Peerstate,
    made: Peerstate,
)
    ensures
        ({
            let load = PeerstateStep::LoadByVerifiedFingerprintOrAddr { fingerprint };
            let loaded = PeerstateReply::Loaded { found: Some(stored), same_addr: true };
            let updated = PeerstateReply::Updated { peerstate: made };
            let all = seq![loaded, updated, PeerstateReply::Saved];
            &&& all_answer(load, all, true)
            &&& run(load, seq![loaded], true) == (PeerstateStep::ApplyHeader { peerstate: stored })
            &&& run(load, seq![loaded, updated], true) == (PeerstateStep::Save {
                peerstate: made,
                create: false,
            })
            &&& run(load, all, true) == (PeerstateStep::Finished { result: Ok(Some(made)) })
        }),
{
    let load = PeerstateStep::LoadByVerifiedFingerprintOrAddr { fingerprint };
    let loaded = PeerstateReply::Loaded { found: Some(stored), same_addr: true };
    let updated = PeerstateReply::Updated { peerstate: made };
    lemma_run_of_three(load, loaded, updated, PeerstateReply::Saved, true);
}

proof fn lemma_run_of_three(
    step: PeerstateStep,
    a: PeerstateReply,
    b: PeerstateReply,
    c: PeerstateReply,
    allow_change: bool,
)
    ensures
        run(step, seq![a], allow_change) == next_step(step, a, allow_change),
        run(step, seq![a, b], allow_change) == next_step(
            next_step(step, a, allow_change),
            b,
            allow_change,
        ),
        run(step, seq![a, b, c], allow_change) == next_step(
            next_step(next_step(step, a, allow_change), b, allow_change),
            c,
            allow_change,
        ),
        all_answer(step, seq![a, b, c], allow_change) == (answers(a, step) && answers(
            b,
            next_step(step, a, allow_change),
        ) && answers(c, next_step(next_step(step, a, allow_change), b, allow_change))),
{
    reveal_with_fuel(run, 4);
    reveal_with_fuel(all_answer, 4);
    assert(seq![a].skip(1) =~= seq![]);
    assert(seq![a, b].skip(1) =~= seq![b]);
    assert(seq![b].skip(1) =~= seq![]);
    assert(seq![a, b, c].skip(1) =~= seq![b, c]);
    assert(seq![b, c].skip(1) =~= seq![c]);
    assert(seq![c].skip(1) =~= seq![]);
}

/// A failure of any step is reported. Each step can go on with one, and a lookup with
/// whatever was found.
pub proof fn law_failure_is_reported(step: PeerstateStep, allow_change: bool)
    ensures
        next_step(step, PeerstateReply::Failed, allow_change) == (PeerstateStep::Finished {
            result: Err(()),
        }),
        !(step is Finished) ==> answers(PeerstateReply::Failed, step),
        step is LoadByAddr || step is LoadByVerifiedFingerprintOrAddr ==> forall|
            found: Option<Peerstate>,
            same_addr: bool,
        | #[trigger] answers(PeerstateReply::Loaded { found, same_addr }, step),
{
}

/// A lookup begins with the fingerprint of the announced key where there is a header, and
/// with the address where there is none; it carries all that it was begun with.
pub proof fn law_lookup_begins_with_the_header(
    lookup: PeerstateLookup,
    from: Seq<char>,
    header: Aheader,
    message_time: i64,
    allow_change: bool,
)
    ensures
        lookup_begins(lookup, from, Some(header), message_time, allow_change) ==> {
            &&& lookup.step matches PeerstateStep::LoadByVerifiedFingerprintOrAddr { fingerprint }
                && fingerprint.bytes@ == header.public_key.fingerprint.bytes@
            &&& lookup.autocrypt_header == Some(&header)
        },
        lookup_begins(lookup, from, None, message_time, allow_change) ==> lookup.step
            is LoadByAddr && lookup.autocrypt_header is None,
        lookup_begins(lookup, from, Some(header), message_time, allow_change) || lookup_begins(
            lookup,
            from,
            None,
            message_time,
            allow_change,
        ) ==> lookup.from@ == from && lookup.message_time == message_time && lookup.allow_change
            == allow_change,
{
}

/// The state that comes back is the one that was saved last, wherever one was saved.
pub proof fn law_saved_state_comes_back(peerstate: Peerstate, create: bool, allow_change: bool)
    ensures
        next_step(
            PeerstateStep::Save { peerstate, create },
            PeerstateReply::Saved,
            allow_change,
        ) == (PeerstateStep::Finished { result: Ok(Some(peerstate)) }),
{
}

} // verus!
