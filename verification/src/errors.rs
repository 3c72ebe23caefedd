//! Why a request was turned down, and the verdict a caller sees.

use vstd::prelude::*;

verus! {

/// Internal reason for a rejection. Callers of the service's protocol surface
/// never see it: every reason collapses to one status.
#[derive(Clone, Copy, Debug, PartialEq, Eq, Structural)]
pub enum Rejected {
    /// Key or signature text does not parse.
    MalformedInput,
    /// Key or signature is not Ed25519.
    UnsupportedAlgorithm,
    /// The user id is outside the configured universe.
    UnknownUser,
    /// A key is already bound to the user.
    AlreadyRegistered,
    /// Login for a user with no bound key.
    UnregisteredUser,
    /// The proof's embedded key is not the bound key.
    KeyMismatch,
    /// The signature was seen before, or signs no timestamp in the window.
    StaleOrReplayedSignature,
}

/// Outcome of a registration or a login.
#[derive(Clone, Copy, Debug, PartialEq, Eq, Structural)]
pub enum Verdict {
    Accepted,
    Rejected(Rejected),
}

/// Status reported for an accepted request.
pub const STATUS_ACCEPTED: u16 = 200;

/// The one status reported for every rejected request.
pub const STATUS_REJECTED: u16 = 418;

impl Verdict {
    /// Status shown to the caller: the reason of a rejection is dropped.
    pub open spec fn spec_status(self) -> u16 {
        match self {
            Verdict::Accepted => STATUS_ACCEPTED,
            Verdict::Rejected(_) => STATUS_REJECTED,
        }
    }

    /// Status shown to the caller: the reason of a rejection is dropped.
    pub fn status(&self) -> (code: u16)
        ensures
            code == self.spec_status(),
            (code == STATUS_ACCEPTED) == (*self == Verdict::Accepted),
    {
        match self {
            Verdict::Accepted => STATUS_ACCEPTED,
            Verdict::Rejected(_) => STATUS_REJECTED,
        }
    }

    /// Whether the request was accepted.
    pub fn is_accepted(&self) -> (yes: bool)
        ensures
            yes == (*self == Verdict::Accepted),
    {
        match self {
            Verdict::Accepted => true,
            Verdict::Rejected(_) => false,
        }
    }

    /// The verdict that stands for the result of a store operation.
    pub fn from_result(result: Result<(), Rejected>) -> (verdict: Verdict)
        ensures
            verdict == verdict_of(result),
    {
        match result {
            Ok(()) => Verdict::Accepted,
            Err(reason) => Verdict::Rejected(reason),
        }
    }
}

/// The verdict that stands for the result of a store operation.
pub open spec fn verdict_of(result: Result<(), Rejected>) -> Verdict {
    match result {
        Ok(()) => Verdict::Accepted,
        Err(reason) => Verdict::Rejected(reason),
    }
}

} // verus!
