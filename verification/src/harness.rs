//! The replay harness: turns captured interaction records back into register
//! and login intents, and submits the logins again to see whether a signature
//! that was accepted once is accepted a second time.

use crate::errors::Verdict;
use crate::keys::{
    openssh_public_key, parse_proof, parse_public_key, proof_option_view,
    sshsig_envelope, KeyMaterial, KeyView, Proof, ProofView,
};
use crate::service::{login_verdict, AuthService};
use vstd::prelude::*;

verus! {

/// Status of a captured interaction that succeeded.
pub const STATUS_OK: u16 = 200;

/// One captured request with the response it got.
pub struct InteractionRecord {
    pub args: Vec<String>,
    pub data: String,
    pub status: u16,
    pub message: String,
}

/// What a record's status and arguments say it was.
#[derive(Clone, Copy, Debug, PartialEq, Eq, Structural)]
pub enum RecordKind {
    Register,
    Login,
    Other,
}

/// A captured registration: the user and the key that was bound.
pub struct RegisterIntent {
    pub uid: String,
    pub public_key: KeyMaterial,
}

/// A captured login: the user and the signature that was presented.
pub struct LoginIntent {
    pub uid: String,
    pub sig: Proof,
}

/// What became of one record in a replay.
#[derive(Clone, Copy, Debug, PartialEq, Eq, Structural)]
pub enum ReplayOutcome {
    /// The record is no successful login with a payload that parses.
    NotReplayable,
    /// The login was submitted again, with this verdict. `Accepted` means
    /// that the captured signature could be replayed.
    Replayed(Verdict),
}

/// Whether the string is the given word.
pub fn is_word(s: &String, word: &str) -> (same: bool)
    ensures
        same == (s@ == word@),
{
    let owned = word.to_owned();
    *s == owned
}

impl InteractionRecord {
    /// A record counts only if the interaction succeeded and it names an
    /// operation and a user; the first argument then says which operation.
    pub open spec fn spec_kind(&self) -> RecordKind {
        if self.status != STATUS_OK || self.args@.len() < 2 {
            RecordKind::Other
        } else if self.args@[0]@ == "register"@ {
            RecordKind::Register
        } else if self.args@[0]@ == "login"@ {
            RecordKind::Login
        } else {
            RecordKind::Other
        }
    }

    /// The user that a register or login record names.
    pub open spec fn spec_user(&self) -> Seq<char>
        recommends
            self.args@.len() >= 2,
    {
        self.args@[1]@
    }

    /// Classifies the record by its status and arguments.
    pub fn kind(&self) -> (kind: RecordKind)
        ensures
            kind == self.spec_kind(),
    {
        if self.status != STATUS_OK || self.args.len() < 2 {
            RecordKind::Other
        } else if is_word(&self.args[0], "register") {
            RecordKind::Register
        } else if is_word(&self.args[0], "login") {
            RecordKind::Login
        } else {
            RecordKind::Other
        }
    }

    /// The login that the record holds, given what its payload parsed to.
    pub fn login_intent_from(&self, parsed: Option<Proof>) -> (intent: Option<LoginIntent>)
        ensures
            intent is Some <==> self.spec_kind() == RecordKind::Login && parsed is Some,
            intent matches Some(login) ==> login.uid@ == self.spec_user() && login.sig@
                == parsed->0@,
    {
        match self.kind() {
            RecordKind::Login => match parsed {
                Some(sig) => Some(LoginIntent { uid: self.args[1].clone(), sig }),
                None => None,
            },
            _ => None,
        }
    }

    /// The registration that the record holds, given what its payload parsed
    /// to.
    pub fn register_intent_from(
        &self,
        parsed: Option<KeyMaterial>,
    ) -> (intent: Option<RegisterIntent>)
        ensures
            intent is Some <==> self.spec_kind() == RecordKind::Register && parsed is Some,
            intent matches Some(registration) ==> registration.uid@ == self.spec_user()
                && registration.public_key@ == parsed->0@,
    {
        match self.kind() {
            RecordKind::Register => match parsed {
                Some(public_key) => Some(RegisterIntent { uid: self.args[1].clone(), public_key }),
                None => None,
            },
            _ => None,
        }
    }

    /// The login that the record holds: a successful `login` whose payload is
    /// a signature envelope that parses. Anything else is `None`.
    pub fn login_intent(&self) -> (intent: Option<LoginIntent>)
        ensures
            intent is Some <==> self.spec_kind() == RecordKind::Login && sshsig_envelope(
                self.data@,
            ) is Some,
            intent matches Some(login) ==> login.uid@ == self.spec_user() && Some(login.sig@)
                == sshsig_envelope(self.data@),
    {
        match self.kind() {
            RecordKind::Login => self.login_intent_from(parse_proof(self.data.as_str())),
            _ => None,
        }
    }

    /// The registration that the record holds: a successful `register` whose
    /// payload is a public key that parses. Anything else is `None`.
    pub fn register_intent(&self) -> (intent: Option<RegisterIntent>)
        ensures
            intent is Some <==> self.spec_kind() == RecordKind::Register && openssh_public_key(
                self.data@,
            ) is Some,
            intent matches Some(registration) ==> registration.uid@ == self.spec_user() && Some(
                registration.public_key@,
            ) == openssh_public_key(self.data@),
    {
        match self.kind() {
            RecordKind::Register => self.register_intent_from(
                parse_public_key(self.data.as_str()),
            ),
            _ => None,
        }
    }
}

/// What replaying one record gives, where `parsed` is what its payload parsed
/// to as a signature envelope and `seen` the value of the replay guard.
pub open spec fn replay_outcome(
    store: Map<Seq<char>, Option<KeyView>>,
    seen: Set<(Seq<char>, Seq<u8>)>,
    record: InteractionRecord,
    parsed: Option<ProofView>,
) -> ReplayOutcome {
    if record.spec_kind() == RecordKind::Login && parsed is Some {
        ReplayOutcome::Replayed(login_verdict(store, seen, record.spec_user(), parsed))
    } else {
        ReplayOutcome::NotReplayable
    }
}

/// The replay guard after one record was replayed: an accepted login adds its
/// signature, everything else leaves the guard as it was.
pub open spec fn seen_after(
    store: Map<Seq<char>, Option<KeyView>>,
    seen: Set<(Seq<char>, Seq<u8>)>,
    record: InteractionRecord,
    parsed: Option<ProofView>,
) -> Set<(Seq<char>, Seq<u8>)> {
    if replay_outcome(store, seen, record, parsed) == ReplayOutcome::Replayed(Verdict::Accepted) {
        seen.insert((record.spec_user(), parsed->0.signature))
    } else {
        seen
    }
}

/// Outcomes and final guard of replaying a whole log, record by record in
/// order.
pub open spec fn replay_run(
    store: Map<Seq<char>, Option<KeyView>>,
    seen: Set<(Seq<char>, Seq<u8>)>,
    records: Seq<InteractionRecord>,
) -> (Seq<ReplayOutcome>, Set<(Seq<char>, Seq<u8>)>)
    decreases records.len(),
{
    if records.len() == 0 {
        (Seq::empty(), seen)
    } else {
        let (outcomes, before) = replay_run(store, seen, records.drop_last());
        let record = records.last();
        let parsed = sshsig_envelope(record.data@);
        (
            outcomes.push(replay_outcome(store, before, record, parsed)),
            seen_after(store, before, record, parsed),
        )
    }
}

/// Replays one record whose payload was already parsed. Only a login is ever
/// submitted: the identity store is left as it is.
pub fn replay_parsed(
    service: &mut AuthService,
    record: &InteractionRecord,
    parsed: Option<Proof>,
) -> (outcome: ReplayOutcome)
    requires
        old(service).wf(),
    ensures
        final(service).wf(),
        final(service).identities == old(service).identities,
        outcome == replay_outcome(
            old(service).identities@,
            old(service).guard@,
            *record,
            proof_option_view(parsed),
        ),
        final(service).guard@ == seen_after(
            old(service).identities@,
            old(service).guard@,
            *record,
            proof_option_view(parsed),
        ),
{
    match record.login_intent_from(parsed) {
        Some(login) => ReplayOutcome::Replayed(
            service.login_parsed(login.uid.as_str(), Some(login.sig)),
        ),
        None => ReplayOutcome::NotReplayable,
    }
}

/// Replays one record against the service.
pub fn replay_one(service: &mut AuthService, record: &InteractionRecord) -> (outcome: ReplayOutcome)
    requires
        old(service).wf(),
    ensures
        final(service).wf(),
        final(service).identities == old(service).identities,
        outcome == replay_outcome(
            old(service).identities@,
            old(service).guard@,
            *record,
            sshsig_envelope(record.data@),
        ),
        final(service).guard@ == seen_after(
            old(service).identities@,
            old(service).guard@,
            *record,
            sshsig_envelope(record.data@),
        ),
{
    let parsed = parse_proof(record.data.as_str());
    replay_parsed(service, record, parsed)
}

/// Replays a captured log in order and reports, record by record, whether it
/// could be replayed and with what verdict. No registration is ever issued.
pub fn replay(
    service: &mut AuthService,
    records: &Vec<InteractionRecord>,
) -> (outcomes: Vec<ReplayOutcome>)
    requires
        old(service).wf(),
    ensures
        final(service).wf(),
        final(service).identities == old(service).identities,
        outcomes@.len() == records@.len(),
        (outcomes@, final(service).guard@) == replay_run(
            old(service).identities@,
            old(service).guard@,
            records@,
        ),
{
    let mut outcomes: Vec<ReplayOutcome> = Vec::new();
    let ghost store = service.identities@;
    let ghost seen = service.guard@;
    let mut i: usize = 0;
    while i < records.len()
        invariant
            i <= records.len(),
            service.wf(),
            service.identities == old(service).identities,
            store == old(service).identities@,
            seen == old(service).guard@,
            outcomes@.len() == i,
            (outcomes@, service.guard@) == replay_run(store, seen, records@.subrange(0, i as int)),
        decreases records.len() - i,
    {
        let outcome = replay_one(service, &records[i]);
        outcomes.push(outcome);
        proof {
            let next = records@.subrange(0, i + 1);
            assert(next.drop_last() =~= records@.subrange(0, i as int));
            assert(next.last() == records@[i as int]);
        }
        i += 1;
    }
    proof {
        assert(records@.subrange(0, i as int) =~= records@);
    }
    outcomes
}

} // verus!
