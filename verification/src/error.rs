//! Why a call was refused.

use vstd::prelude::*;

verus! {

/// The reasons for which the bridge refuses a call. A refused call leaves
/// the bridge as it was.
#[derive(Clone, Copy, Debug, PartialEq, Eq, Structural)]
pub enum Error {
    /// The bridge is halted.
    Halted,
    /// The bridge has not been bootstrapped yet.
    NotInitialized,
    /// The bridge has been bootstrapped already.
    AlreadyInitialized,
    /// The header's number is not above that of the best finalized header.
    InvalidNumber,
    /// The justification was made under another authority set id than the
    /// current one.
    InvalidAuthoritySetId,
    /// An authority list names the same authority twice.
    InvalidAuthoritySet,
    /// The justification finalizes another block than the submitted header.
    InvalidJustificationTarget,
    /// A precommit is signed by somebody outside the current authority set.
    UnknownAuthority,
    /// A precommit's signature does not verify.
    BadSignature,
    /// An authority has signed two precommits.
    DuplicateVote,
    /// A precommit's target is not linked to the finalized header by the
    /// supplied headers, or a supplied header is on no such link.
    InvalidAncestry,
    /// The precommits carry no more than two thirds of the total weight.
    InsufficientWeight,
    /// The justification holds more precommits than the bridge accepts.
    TooManyPrecommits,
    /// The justification holds more ancestry headers than the bridge accepts.
    TooManyAncestries,
}

} // verus!
