//! The error taxonomy of the voting core.
//!
//! Every per-request failure is returned as a typed value; nothing is
//! reported through free-form text.

use vstd::prelude::*;

verus! {

/// Why a vote submission, a candidature lookup or a ledger construction
/// was refused.
#[derive(Clone, Copy, PartialEq, Eq, Structural, Debug)]
pub enum VoteError {
    /// No unique candidature matches the given (code, position, year).
    CandidatureNotFound,
    /// The voter already has a persisted vote for this position and year.
    DuplicateVote,
    /// The entry does not extend the ledger's current tail: its claimed
    /// predecessor is stale, its stamp does not advance the chain, or its
    /// digest does not bind it to the tail.
    ChainConflict,
    /// A position label outside the closed set of offices.
    UnknownPosition,
    /// The ledger was constructed without usable secret material.
    ConfigError,
}

impl VoteError {
    /// A short, stable label for each error, for callers that report text.
    pub fn describe(&self) -> (r: String)
        ensures
            r@ == self.describe_spec(),
    {
        match self {
            VoteError::CandidatureNotFound => "candidature not found".to_owned(),
            VoteError::DuplicateVote => "voter already voted for this position in this year".to_owned(),
            VoteError::ChainConflict => "vote does not extend the current chain".to_owned(),
            VoteError::UnknownPosition => "unknown candidature position".to_owned(),
            VoteError::ConfigError => "missing secret key".to_owned(),
        }
    }

    pub open spec fn describe_spec(self) -> Seq<char> {
        match self {
            VoteError::CandidatureNotFound => "candidature not found"@,
            VoteError::DuplicateVote => "voter already voted for this position in this year"@,
            VoteError::ChainConflict => "vote does not extend the current chain"@,
            VoteError::UnknownPosition => "unknown candidature position"@,
            VoteError::ConfigError => "missing secret key"@,
        }
    }
}

} // verus!
