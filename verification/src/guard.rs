//! The two anti-replay policies: a set of signatures seen so far, and a
//! trailing window of timestamps that a signature may cover.

use crate::keys::{bytes_equal, sshsig_verifies, verify_signature};
use vstd::prelude::*;

verus! {

/// One accepted signature and the user it was accepted for.
pub struct AcceptedSignature {
    pub user_id: String,
    pub signature: Vec<u8>,
}

/// The dedup-set policy: every signature accepted so far, per user. Its value
/// is the set of (user, signature) pairs. It only grows, without bound.
pub struct ReplayGuard {
    accepted: Vec<AcceptedSignature>,
}

impl View for ReplayGuard {
    type V = Set<(Seq<char>, Seq<u8>)>;

    closed spec fn view(&self) -> Set<(Seq<char>, Seq<u8>)> {
        Set::new(|pair: (Seq<char>, Seq<u8>)| self.holds(pair.0, pair.1))
    }
}

impl ReplayGuard {
    closed spec fn holds(&self, user: Seq<char>, signature: Seq<u8>) -> bool {
        exists|i: int|
            0 <= i < self.accepted.len() && (#[trigger] self.accepted[i]).user_id@ == user
                && self.accepted[i].signature@ == signature
    }

    /// A guard that has seen nothing.
    pub fn new() -> (guard: ReplayGuard)
        ensures
            guard@ == Set::<(Seq<char>, Seq<u8>)>::empty(),
    {
        let guard = ReplayGuard { accepted: Vec::new() };
        assert(guard@ =~= Set::<(Seq<char>, Seq<u8>)>::empty());
        guard
    }

    /// Whether the signature was accepted for the user before.
    pub fn seen(&self, user_id: &str, signature: &Vec<u8>) -> (known: bool)
        ensures
            known == self@.contains((user_id@, signature@)),
    {
        let wanted = user_id.to_owned();
        let mut i: usize = 0;
        while i < self.accepted.len()
            invariant
                i <= self.accepted.len(),
                wanted@ == user_id@,
                forall|k: int|
                    0 <= k < i ==> !((#[trigger] self.accepted[k]).user_id@ == user_id@
                        && self.accepted[k].signature@ == signature@),
            decreases self.accepted.len() - i,
        {
            if self.accepted[i].user_id == wanted && bytes_equal(
                &self.accepted[i].signature,
                signature,
            ) {
                assert(self.holds(user_id@, signature@));
                return true;
            }
            i += 1;
        }
        assert(!self.holds(user_id@, signature@));
        false
    }

    /// Accepts a signature at most once per user: `true` and recorded if it is
    /// fresh, `false` and nothing changed if it was seen before.
    pub fn check_and_record(&mut self, user_id: &str, signature: &Vec<u8>) -> (fresh: bool)
        ensures
            fresh == !old(self)@.contains((user_id@, signature@)),
            final(self)@ == old(self)@.insert((user_id@, signature@)),
            old(self)@.subset_of(final(self)@),
    {
        if self.seen(user_id, signature) {
            return false;
        }
        let ghost before = *self;
        let entry = AcceptedSignature { user_id: user_id.to_owned(), signature: signature.clone() };
        self.accepted.push(entry);
        proof {
            let pair = (user_id@, signature@);
            let target = before@.insert(pair);
            assert forall|p: (Seq<char>, Seq<u8>)| self@.contains(p) == target.contains(p) by {
                if self@.contains(p) {
                    let k = choose|k: int|
                        0 <= k < self.accepted.len() && (#[trigger] self.accepted[k]).user_id@
                            == p.0 && self.accepted[k].signature@ == p.1;
                    if k < before.accepted.len() {
                        assert(before.accepted[k].user_id@ == p.0);
                        assert(before.holds(p.0, p.1));
                    } else {
                        assert(p.0 == pair.0 && p.1 == pair.1);
                        assert(p == pair);
                    }
                }
                if target.contains(p) {
                    if p == pair {
                        assert(self.accepted[before.accepted.len() as int].user_id@ == p.0);
                        assert(self.holds(p.0, p.1));
                    } else {
                        assert(before.holds(p.0, p.1));
                        let k = choose|k: int|
                            0 <= k < before.accepted.len() && (
                            #[trigger] before.accepted[k]).user_id@ == p.0
                                && before.accepted[k].signature@ == p.1;
                        assert(self.accepted[k].user_id@ == p.0);
                        assert(self.holds(p.0, p.1));
                    }
                }
            }
            assert(self@ =~= target);
        }
        true
    }
}

/// Width of the time window, in seconds: a signature over a timestamp is good
/// during that second and the two after it.
pub const WINDOW_WIDTH: u64 = 3;

/// Namespace that every login signature is bound to.
pub const NAMESPACE: &'static str = "s3";

/// The decimal digits of `n` in ASCII, without leading zeros.
pub open spec fn decimal(n: nat) -> Seq<u8>
    decreases n,
{
    if n < 10 {
        seq![(48 + n) as u8]
    } else {
        decimal(n / 10).push((48 + n % 10) as u8)
    }
}

/// Every number has at least one digit, and exactly one if it is below ten.
pub proof fn lemma_decimal_len(n: nat)
    ensures
        decimal(n).len() >= 1,
        decimal(n).len() == 1 <==> n < 10,
    decreases n,
{
    if n >= 10 {
        lemma_decimal_len(n / 10);
    }
}

/// Distinct numbers have distinct digit strings: the timestamps of a window
/// are pairwise different messages.
pub proof fn lemma_decimal_injective(a: nat, b: nat)
    requires
        decimal(a) == decimal(b),
    ensures
        a == b,
    decreases a,
{
    lemma_decimal_len(a);
    lemma_decimal_len(b);
    if a < 10 {
        assert(decimal(a)[0] == (48 + a) as u8);
        assert(decimal(b)[0] == (48 + b) as u8);
    } else {
        let front_a = decimal(a / 10);
        let front_b = decimal(b / 10);
        assert(decimal(a).drop_last() =~= front_a);
        assert(decimal(b).drop_last() =~= front_b);
        assert(decimal(a).last() == (48 + a % 10) as u8);
        assert(decimal(b).last() == (48 + b % 10) as u8);
        lemma_decimal_injective(a / 10, b / 10);
    }
}

/// The message that a login at second `n` signs: `n` in decimal.
pub fn decimal_bytes(n: u64) -> (digits: Vec<u8>)
    ensures
        digits@ == decimal(n as nat),
    decreases n,
{
    if n < 10 {
        let mut digits: Vec<u8> = Vec::new();
        digits.push(48u8 + (n as u8));
        assert(digits@ =~= seq![(48 + n) as u8]);
        digits
    } else {
        let mut digits = decimal_bytes(n / 10);
        digits.push(48u8 + ((n % 10) as u8));
        digits
    }
}

/// First second of the window that ends at `now`.
pub open spec fn window_start(now: u64) -> u64 {
    if now >= WINDOW_WIDTH - 1 {
        (now - (WINDOW_WIDTH - 1)) as u64
    } else {
        0
    }
}

/// Whether the envelope holds a signature by `key` over the timestamp `t`.
pub open spec fn signs_timestamp(key: Seq<u8>, t: u64, envelope: Seq<char>) -> bool {
    sshsig_verifies(key, NAMESPACE@, decimal(t as nat), envelope)
}

/// The earliest timestamp of the window ending at `now` that the envelope
/// signs, if there is one.
pub open spec fn window_match(
    key: Seq<u8>,
    now: u64,
    envelope: Seq<char>,
    matched: Option<u64>,
) -> bool {
    match matched {
        Some(t) => {
            &&& window_start(now) <= t <= now
            &&& signs_timestamp(key, t, envelope)
            &&& forall|earlier: u64|
                window_start(now) <= earlier < t ==> !signs_timestamp(key, earlier, envelope)
        },
        None => forall|t: u64|
            window_start(now) <= t <= now ==> !signs_timestamp(key, t, envelope),
    }
}

/// Whether the time-window policy accepts the envelope at second `now`.
pub open spec fn window_accepts(key: Seq<u8>, now: u64, envelope: Seq<char>) -> bool {
    exists|t: u64| window_start(now) <= t <= now && signs_timestamp(key, t, envelope)
}

/// The time-window policy: tries the timestamps of the trailing window from
/// the earliest to `now` and returns the first that the envelope signs.
pub fn verify_in_window(key: &Vec<u8>, now: u64, envelope: &str) -> (matched: Option<u64>)
    ensures
        window_match(key@, now, envelope@, matched),
        matched is Some <==> window_accepts(key@, now, envelope@),
        matched matches Some(t) ==> now - (WINDOW_WIDTH - 1) <= t <= now,
{
    let start: u64 = if now >= WINDOW_WIDTH - 1 {
        now - (WINDOW_WIDTH - 1)
    } else {
        0
    };
    let span: u64 = now - start;
    let mut k: u64 = 0;
    while k <= span
        invariant
            start == window_start(now),
            span == now - start,
            span < WINDOW_WIDTH,
            k <= span + 1,
            forall|t: u64| start <= t < start + k ==> !signs_timestamp(key@, t, envelope@),
        decreases span + 1 - k,
    {
        let t: u64 = start + k;
        let message = decimal_bytes(t);
        if verify_signature(key, NAMESPACE, &message, envelope) {
            assert(window_start(now) <= t <= now && signs_timestamp(key@, t, envelope@));
            return Some(t);
        }
        k += 1;
    }
    None
}

/// A signature over exactly one timestamp is accepted during that second and
/// the next `WINDOW_WIDTH - 1`, and at no other time: not later, and not
/// before the second it names.
pub proof fn lemma_window_bounds(key: Seq<u8>, envelope: Seq<char>, signed: u64, now: u64)
    requires
        forall|t: u64| signs_timestamp(key, t, envelope) <==> t == signed,
    ensures
        window_accepts(key, now, envelope) <==> signed <= now < signed + WINDOW_WIDTH,
{
    if signed <= now < signed + WINDOW_WIDTH {
        assert(window_start(now) <= signed <= now && signs_timestamp(key, signed, envelope));
    }
}

} // verus!
