//! The authentication service: registration and login over an identity store
//! and a replay guard.

use crate::errors::{verdict_of, Rejected, Verdict, STATUS_REJECTED};
use crate::guard::{verify_in_window, window_accepts, ReplayGuard};
use crate::identity::{register_result, IdentityStore};
use crate::keys::{
    key_option_view, openssh_public_key, parse_proof, parse_public_key, proof_option_view,
    sshsig_envelope, Algorithm, KeyMaterial, KeyView, Proof, ProofView,
};
use vstd::prelude::*;

verus! {

/// Verdict of a registration, given what the key text parsed to.
pub open spec fn register_verdict(
    store: Map<Seq<char>, Option<KeyView>>,
    user: Seq<char>,
    parsed: Option<KeyView>,
) -> Verdict {
    match parsed {
        None => Verdict::Rejected(Rejected::MalformedInput),
        Some(key) => if key is Ed25519 {
            verdict_of(register_result(store, user, key))
        } else {
            Verdict::Rejected(Rejected::UnsupportedAlgorithm)
        },
    }
}

/// The checks that every login passes before a replay policy is asked: the
/// proof parsed, it is Ed25519, the user has a bound key, and the proof's
/// embedded key is that key.
pub open spec fn proof_check(
    store: Map<Seq<char>, Option<KeyView>>,
    user: Seq<char>,
    parsed: Option<ProofView>,
) -> Result<(), Rejected> {
    match parsed {
        None => Err(Rejected::MalformedInput),
        Some(p) => if p.algorithm != Algorithm::Ed25519 {
            Err(Rejected::UnsupportedAlgorithm)
        } else if !store.contains_key(user) {
            Err(Rejected::UnknownUser)
        } else {
            match store[user] {
                None => Err(Rejected::UnregisteredUser),
                Some(bound) => if p.public_key == bound {
                    Ok(())
                } else {
                    Err(Rejected::KeyMismatch)
                },
            }
        },
    }
}

/// Verdict of a login under the dedup-set policy, where `seen` is the value of
/// the replay guard.
pub open spec fn login_verdict(
    store: Map<Seq<char>, Option<KeyView>>,
    seen: Set<(Seq<char>, Seq<u8>)>,
    user: Seq<char>,
    parsed: Option<ProofView>,
) -> Verdict {
    match proof_check(store, user, parsed) {
        Err(reason) => Verdict::Rejected(reason),
        Ok(()) => if seen.contains((user, parsed->0.signature)) {
            Verdict::Rejected(Rejected::StaleOrReplayedSignature)
        } else {
            Verdict::Accepted
        },
    }
}

/// The raw bytes of a key; empty for a key that is not Ed25519.
pub open spec fn key_bytes(key: KeyView) -> Seq<u8> {
    match key {
        KeyView::Ed25519(bytes) => bytes,
        KeyView::Other => Seq::empty(),
    }
}

/// Verdict of a login at second `now` under the time-window policy.
pub open spec fn window_login_verdict(
    store: Map<Seq<char>, Option<KeyView>>,
    user: Seq<char>,
    parsed: Option<ProofView>,
    envelope: Seq<char>,
    now: u64,
) -> Verdict {
    match proof_check(store, user, parsed) {
        Err(reason) => Verdict::Rejected(reason),
        Ok(()) => if window_accepts(key_bytes(store[user]->0), now, envelope) {
            Verdict::Accepted
        } else {
            Verdict::Rejected(Rejected::StaleOrReplayedSignature)
        },
    }
}

/// Verdict of a window login from the outcome of the preliminary checks and of
/// the search through the window.
pub fn window_verdict(checked: Result<(), Rejected>, matched: Option<u64>) -> (verdict: Verdict)
    ensures
        verdict == match checked {
            Err(reason) => Verdict::Rejected(reason),
            Ok(()) => if matched is Some {
                Verdict::Accepted
            } else {
                Verdict::Rejected(Rejected::StaleOrReplayedSignature)
            },
        },
{
    match checked {
        Err(reason) => Verdict::Rejected(reason),
        Ok(()) => match matched {
            Some(_) => Verdict::Accepted,
            None => Verdict::Rejected(Rejected::StaleOrReplayedSignature),
        },
    }
}

/// The anti-replay policy that a login is held to.
#[derive(Clone, Copy, Debug, PartialEq, Eq, Structural)]
pub enum Policy {
    /// A signature is accepted once per user, ever; each one is stored.
    DedupSet,
    /// A signature is accepted while the timestamp it signs lies in the
    /// trailing window; nothing is stored.
    TimeWindow,
}

/// The service state: who is registered, and which signatures were accepted.
pub struct AuthService {
    pub identities: IdentityStore,
    pub guard: ReplayGuard,
}

impl AuthService {
    /// The identity store is well-formed.
    pub open spec fn wf(&self) -> bool {
        self.identities.wf()
    }

    /// A service over the given users, with no key bound and no signature
    /// seen.
    pub fn new(users: Vec<String>) -> (service: AuthService)
        ensures
            service.wf(),
            service.guard@ == Set::<(Seq<char>, Seq<u8>)>::empty(),
            forall|user: Seq<char>|
                service.identities@.contains_key(user) <==> crate::identity::listed(users@, user),
            forall|user: Seq<char>|
                service.identities@.contains_key(user) ==> service.identities@[user] is None,
    {
        AuthService { identities: IdentityStore::new(users), guard: ReplayGuard::new() }
    }

    /// Registers a key that was already parsed; `None` stands for text that
    /// did not parse.
    pub fn register_parsed(
        &mut self,
        user_id: &str,
        parsed: Option<KeyMaterial>,
    ) -> (verdict: Verdict)
        requires
            old(self).wf(),
        ensures
            final(self).wf(),
            verdict == register_verdict(old(self).identities@, user_id@, key_option_view(parsed)),
            final(self).guard == old(self).guard,
            verdict == Verdict::Accepted ==> final(self).identities@ == old(self).identities@.insert(
                user_id@,
                key_option_view(parsed),
            ),
            verdict != Verdict::Accepted ==> final(self).identities@ == old(self).identities@,
    {
        match parsed {
            None => Verdict::Rejected(Rejected::MalformedInput),
            Some(key) => {
                if key.is_ed25519() {
                    Verdict::from_result(self.identities.register(user_id, key))
                } else {
                    Verdict::Rejected(Rejected::UnsupportedAlgorithm)
                }
            },
        }
    }

    /// Registers the key in `body`, given in OpenSSH public-key line format.
    pub fn handle_register(&mut self, user_id: &str, body: &str) -> (verdict: Verdict)
        requires
            old(self).wf(),
        ensures
            final(self).wf(),
            verdict == register_verdict(
                old(self).identities@,
                user_id@,
                openssh_public_key(body@),
            ),
            final(self).guard == old(self).guard,
            verdict == Verdict::Accepted ==> final(self).identities@ == old(self).identities@.insert(
                user_id@,
                openssh_public_key(body@),
            ),
            verdict != Verdict::Accepted ==> final(self).identities@ == old(self).identities@,
    {
        let parsed = parse_public_key(body);
        self.register_parsed(user_id, parsed)
    }

    /// The checks that precede either replay policy.
    pub fn check_proof(
        &self,
        user_id: &str,
        parsed: &Option<Proof>,
    ) -> (checked: Result<(), Rejected>)
        requires
            self.wf(),
        ensures
            checked == proof_check(self.identities@, user_id@, proof_option_view(*parsed)),
    {
        match parsed {
            None => Err(Rejected::MalformedInput),
            Some(p) => {
                match p.algorithm {
                    Algorithm::Other => {
                        return Err(Rejected::UnsupportedAlgorithm);
                    },
                    Algorithm::Ed25519 => {},
                }
                if !self.identities.contains(user_id) {
                    return Err(Rejected::UnknownUser);
                }
                match self.identities.lookup(user_id) {
                    None => Err(Rejected::UnregisteredUser),
                    Some(bound) => {
                        if bound.same_key(&p.public_key) {
                            Ok(())
                        } else {
                            Err(Rejected::KeyMismatch)
                        }
                    },
                }
            },
        }
    }

    /// Login under the dedup-set policy with a proof that was already parsed;
    /// `None` stands for text that did not parse.
    pub fn login_parsed(&mut self, user_id: &str, parsed: Option<Proof>) -> (verdict: Verdict)
        requires
            old(self).wf(),
        ensures
            final(self).wf(),
            verdict == login_verdict(
                old(self).identities@,
                old(self).guard@,
                user_id@,
                proof_option_view(parsed),
            ),
            final(self).identities == old(self).identities,
            verdict == Verdict::Accepted ==> final(self).guard@ == old(self).guard@.insert(
                (user_id@, parsed->0.signature@),
            ),
            verdict != Verdict::Accepted ==> final(self).guard@ == old(self).guard@,
    {
        match self.check_proof(user_id, &parsed) {
            Err(reason) => Verdict::Rejected(reason),
            Ok(()) => {
                match parsed {
                    Some(p) => {
                        if self.guard.check_and_record(user_id, &p.signature) {
                            Verdict::Accepted
                        } else {
                            Verdict::Rejected(Rejected::StaleOrReplayedSignature)
                        }
                    },
                    None => Verdict::Rejected(Rejected::MalformedInput),
                }
            },
        }
    }

    /// Login under the dedup-set policy: `body` is a PEM-armored signature.
    pub fn handle_login(&mut self, user_id: &str, body: &str) -> (verdict: Verdict)
        requires
            old(self).wf(),
        ensures
            final(self).wf(),
            verdict == login_verdict(
                old(self).identities@,
                old(self).guard@,
                user_id@,
                sshsig_envelope(body@),
            ),
            final(self).identities == old(self).identities,
            verdict == Verdict::Accepted ==> final(self).guard@ == old(self).guard@.insert(
                (user_id@, sshsig_envelope(body@)->0.signature),
            ),
            verdict != Verdict::Accepted ==> final(self).guard@ == old(self).guard@,
    {
        let parsed = parse_proof(body);
        self.login_parsed(user_id, parsed)
    }

    /// Login at second `now` under the time-window policy, with the proof
    /// that `envelope` parsed to; `None` stands for text that did not parse.
    /// Nothing is recorded.
    pub fn login_in_window(
        &self,
        user_id: &str,
        parsed: Option<Proof>,
        envelope: &str,
        now: u64,
    ) -> (verdict: Verdict)
        requires
            self.wf(),
        ensures
            verdict == window_login_verdict(
                self.identities@,
                user_id@,
                proof_option_view(parsed),
                envelope@,
                now,
            ),
    {
        let checked = self.check_proof(user_id, &parsed);
        match parsed {
            Some(Proof { public_key: KeyMaterial::Ed25519(key), .. }) => {
                if checked.is_ok() {
                    let matched = verify_in_window(&key, now, envelope);
                    window_verdict(checked, matched)
                } else {
                    window_verdict(checked, None)
                }
            },
            _ => {
                proof {
                    if checked is Ok {
                        self.identities.lemma_bound_keys_are_ed25519(user_id@);
                    }
                }
                window_verdict(checked, None)
            },
        }
    }

    /// Login at second `now` under the time-window policy: `body` is a
    /// PEM-armored signature over one of the window's timestamps.
    pub fn handle_login_at(&self, user_id: &str, body: &str, now: u64) -> (verdict: Verdict)
        requires
            self.wf(),
        ensures
            verdict == window_login_verdict(
                self.identities@,
                user_id@,
                sshsig_envelope(body@),
                body@,
                now,
            ),
    {
        let parsed = parse_proof(body);
        self.login_in_window(user_id, parsed, body, now)
    }
}

impl AuthService {
    /// Login at second `now` under the given policy. The dedup-set policy
    /// takes no account of `now`; the time-window policy changes nothing.
    pub fn handle_login_under(
        &mut self,
        policy: Policy,
        user_id: &str,
        body: &str,
        now: u64,
    ) -> (verdict: Verdict)
        requires
            old(self).wf(),
        ensures
            final(self).wf(),
            final(self).identities == old(self).identities,
            policy == Policy::DedupSet ==> verdict == login_verdict(
                old(self).identities@,
                old(self).guard@,
                user_id@,
                sshsig_envelope(body@),
            ),
            policy == Policy::TimeWindow ==> verdict == window_login_verdict(
                old(self).identities@,
                user_id@,
                sshsig_envelope(body@),
                body@,
                now,
            ),
            policy == Policy::DedupSet && verdict == Verdict::Accepted ==> final(self).guard@ == old(
                self,
            ).guard@.insert((user_id@, sshsig_envelope(body@)->0.signature)),
            policy == Policy::TimeWindow || verdict != Verdict::Accepted ==> final(self).guard@
                == old(self).guard@,
    {
        match policy {
            Policy::DedupSet => self.handle_login(user_id, body),
            Policy::TimeWindow => self.handle_login_at(user_id, body, now),
        }
    }
}

/// The first registration wins: once a key is bound to a user, a second
/// registration for that user is rejected as already registered, whatever key
/// it brings, and the first key stays bound.
pub proof fn lemma_first_registration_wins(
    store: Map<Seq<char>, Option<KeyView>>,
    user: Seq<char>,
    first: KeyView,
    second: KeyView,
)
    requires
        store.contains_key(user),
        store[user] is None,
        first is Ed25519,
    ensures
        register_verdict(store, user, Some(first)) == Verdict::Accepted,
        register_result(store.insert(user, Some(first)), user, second) == Err::<(), Rejected>(
            Rejected::AlreadyRegistered,
        ),
        second is Ed25519 ==> register_verdict(store.insert(user, Some(first)), user, Some(second))
            == Verdict::Rejected(Rejected::AlreadyRegistered),
        register_verdict(store.insert(user, Some(first)), user, Some(second)) != Verdict::Accepted,
        store.insert(user, Some(first))[user] == Some(first),
{
}

/// A user without a bound key cannot log in: whatever the proof, both policies
/// answer with the one rejection status.
pub proof fn lemma_unregistered_login_rejected(
    store: Map<Seq<char>, Option<KeyView>>,
    seen: Set<(Seq<char>, Seq<u8>)>,
    user: Seq<char>,
    parsed: Option<ProofView>,
    envelope: Seq<char>,
    now: u64,
)
    requires
        !store.contains_key(user) || store[user] is None,
    ensures
        login_verdict(store, seen, user, parsed).spec_status() == STATUS_REJECTED,
        window_login_verdict(store, user, parsed, envelope, now).spec_status() == STATUS_REJECTED,
{
}

/// Under the dedup-set policy a signature is accepted at most once: after a
/// login was accepted, the same proof is rejected as replayed, while a proof
/// by the same key whose signature was not seen is still accepted.
pub proof fn lemma_signature_single_use(
    store: Map<Seq<char>, Option<KeyView>>,
    seen: Set<(Seq<char>, Seq<u8>)>,
    user: Seq<char>,
    accepted: ProofView,
    other: ProofView,
)
    requires
        login_verdict(store, seen, user, Some(accepted)) == Verdict::Accepted,
        other.algorithm == Algorithm::Ed25519,
        other.public_key == accepted.public_key,
        other.signature != accepted.signature,
        !seen.contains((user, other.signature)),
    ensures
        login_verdict(store, seen.insert((user, accepted.signature)), user, Some(accepted))
            == Verdict::Rejected(Rejected::StaleOrReplayedSignature),
        login_verdict(store, seen.insert((user, accepted.signature)), user, Some(other))
            == Verdict::Accepted,
{
}

/// A key that is not Ed25519 is never bound: registration rejects it as an
/// unsupported algorithm, for every user and every state of the store.
pub proof fn lemma_other_keys_rejected(
    store: Map<Seq<char>, Option<KeyView>>,
    user: Seq<char>,
    key: KeyView,
)
    requires
        !(key is Ed25519),
    ensures
        register_verdict(store, user, Some(key)) == Verdict::Rejected(
            Rejected::UnsupportedAlgorithm,
        ),
{
}

} // verus!
