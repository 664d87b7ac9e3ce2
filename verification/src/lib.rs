//! A minimal tamper-evident voting core: a single global hash chain over
//! all cast votes, a one-vote-per-voter-per-position-per-year guard, and a
//! read-side tally.
//!
//! The ledger is the store: appends go through one serialized write path
//! (`&mut VoteLedger`), so the chain can never fork. Transport, request
//! validation and durable persistence live outside this crate.

pub mod candidates;
pub mod candidatures;
pub mod errors;
pub mod party;
pub mod voters;
pub mod votes;

mod digest;
mod sys;

pub use crate::candidates::Candidate;
pub use crate::candidatures::{Candidature, CandidatureDirectory, CandidatureInfo, CandidaturePosition};
pub use crate::errors::VoteError;
pub use crate::party::Party;
pub use crate::voters::Voter;
pub use crate::votes::{TallyRow, Vote, VoteLedger};
