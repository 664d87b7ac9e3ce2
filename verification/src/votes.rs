//! The vote ledger: one global, append-only hash chain over all cast
//! votes, with a one-vote-per-voter-per-position-per-year guard.
//!
//! Every append runs through `&mut VoteLedger`, so appends are serialized
//! by construction: two submissions can never both extend the same
//! predecessor. A `Vote` built against one ledger state and offered to a
//! later one is refused with `ChainConflict` instead of forking the
//! chain.
//!
//! Genesis is explicit: an empty ledger is a valid start state whose
//! sentinel predecessor has the empty hash and creation stamp `0`.

use vstd::prelude::*;

use crate::candidates::{Candidate, candidate_index, has_candidate, find_candidate, lemma_candidate_index_is};
use crate::candidatures::{
    Candidature, CandidatureDirectory, CandidaturePosition, cand_matches, match_count,
    candidature_index, has_candidature, lemma_candidature_index_is,
};
use crate::digest::{chain_digest, chain_digest_of};
use crate::errors::VoteError;
use crate::party::{Party, party_index, has_party, find_party, lemma_party_index_is};
use crate::sys::{fresh_id, utc_now_micros, utc_year};

verus! {

/// One ledger entry. Created exactly once, at submission time; never
/// updated or deleted afterwards.
#[derive(Debug)]
pub struct Vote {
    pub id: String,
    pub voter_id: String,
    pub candidature_id: String,
    pub candidature_position: CandidaturePosition,
    pub hash: String,
    pub previous_hash: String,
    pub year: i32,
    pub created_at: u64,
}

impl Clone for Vote {
    /// An exact copy, field by field.
    fn clone(&self) -> (r: Self)
        ensures
            r == *self,
    {
        Vote {
            id: self.id.clone(),
            voter_id: self.voter_id.clone(),
            candidature_id: self.candidature_id.clone(),
            candidature_position: self.candidature_position,
            hash: self.hash.clone(),
            previous_hash: self.previous_hash.clone(),
            year: self.year,
            created_at: self.created_at,
        }
    }
}

/// `v` is a vote cast by `voter` for an office `position` in `year`.
pub open spec fn is_vote_by(v: Vote, voter: Seq<char>, position: CandidaturePosition, year: i32) -> bool {
    &&& v.voter_id@ == voter
    &&& v.candidature_position == position
    &&& v.year == year
}

/// Some entry of `votes` was cast by `voter` for `position` in `year`.
pub open spec fn has_vote(votes: Seq<Vote>, voter: Seq<char>, position: CandidaturePosition, year: i32) -> bool {
    exists|i: int| 0 <= i < votes.len() && is_vote_by(votes[i], voter, position, year)
}

/// The hash the next entry must bind to: the last entry's, or the empty
/// sentinel on an empty ledger.
pub open spec fn tail_hash(votes: Seq<Vote>) -> Seq<char> {
    if votes.len() == 0 {
        Seq::<char>::empty()
    } else {
        votes.last().hash@
    }
}

/// The creation stamp the next entry must exceed: the last entry's, or
/// the sentinel `0` on an empty ledger.
pub open spec fn tail_stamp(votes: Seq<Vote>) -> u64 {
    if votes.len() == 0 {
        0
    } else {
        votes.last().created_at
    }
}

/// The predecessor hash entry `i` must record: its neighbour's hash, or
/// the empty sentinel for the genesis entry.
pub open spec fn prev_hash_at(votes: Seq<Vote>, i: int) -> Seq<char> {
    if i == 0 {
        Seq::<char>::empty()
    } else {
        votes[i - 1].hash@
    }
}

/// The predecessor creation stamp bound into entry `i`'s digest: its
/// neighbour's, or the sentinel `0` for the genesis entry.
pub open spec fn prev_stamp_at(votes: Seq<Vote>, i: int) -> u64 {
    if i == 0 {
        0
    } else {
        votes[i - 1].created_at
    }
}

/// Entry `i` is correctly linked: it records its predecessor's hash, its
/// own hash is the keyed digest over {voter, candidature, predecessor
/// hash, predecessor stamp}, and creation stamps strictly advance.
pub open spec fn link_ok(key: Seq<u8>, votes: Seq<Vote>, i: int) -> bool {
    &&& votes[i].previous_hash@ == prev_hash_at(votes, i)
    &&& votes[i].hash@ == chain_digest_of(
        key,
        votes[i].voter_id@,
        votes[i].candidature_id@,
        prev_hash_at(votes, i),
        prev_stamp_at(votes, i),
    )
    &&& votes[i].hash@.len() == 64
    &&& votes[i].created_at > prev_stamp_at(votes, i)
}

/// The whole ledger is one unbroken chain.
pub open spec fn chain_ok(key: Seq<u8>, votes: Seq<Vote>) -> bool {
    forall|i: int| 0 <= i < votes.len() ==> #[trigger] link_ok(key, votes, i)
}

/// No two entries share (voter, position, year).
pub open spec fn unique_ok(votes: Seq<Vote>) -> bool {
    forall|i: int, j: int|
        0 <= i < votes.len() && 0 <= j < votes.len() && i != j ==> !(#[trigger] votes[i].voter_id@
            == #[trigger] votes[j].voter_id@ && votes[i].candidature_position
            == votes[j].candidature_position && votes[i].year == votes[j].year)
}

/// Every entry carries the ledger's election year.
pub open spec fn years_ok(votes: Seq<Vote>, year: i32) -> bool {
    forall|i: int| 0 <= i < votes.len() ==> #[trigger] votes[i].year == year
}

/// `v` is counted when tallying `position` in `year`.
pub open spec fn vote_in_scope(v: Vote, position: CandidaturePosition, year: i32) -> bool {
    v.candidature_position == position && v.year == year
}

/// How many entries of `votes` are for candidature `cand_id` at
/// `position` in `year`.
pub open spec fn count_for(votes: Seq<Vote>, cand_id: Seq<char>, position: CandidaturePosition, year: i32) -> nat
    decreases votes.len(),
{
    if votes.len() == 0 {
        0
    } else {
        count_for(votes.drop_last(), cand_id, position, year) + (if vote_in_scope(
            votes.last(),
            position,
            year,
        ) && votes.last().candidature_id@ == cand_id {
            1nat
        } else {
            0nat
        })
    }
}

/// A positive count names a witness: some in-scope entry for `cand_id`.
pub proof fn lemma_count_for_witness(votes: Seq<Vote>, cand_id: Seq<char>, position: CandidaturePosition, year: i32)
    requires
        count_for(votes, cand_id, position, year) > 0,
    ensures
        exists|j: int|
            0 <= j < votes.len() && vote_in_scope(#[trigger] votes[j], position, year)
                && votes[j].candidature_id@ == cand_id,
    decreases votes.len(),
{
    if votes.len() > 0 {
        if vote_in_scope(votes.last(), position, year) && votes.last().candidature_id@ == cand_id {
            assert(vote_in_scope(votes[votes.len() - 1], position, year));
        } else {
            lemma_count_for_witness(votes.drop_last(), cand_id, position, year);
            let j = choose|j: int|
                0 <= j < votes.drop_last().len() && vote_in_scope(
                    #[trigger] votes.drop_last()[j],
                    position,
                    year,
                ) && votes.drop_last()[j].candidature_id@ == cand_id;
            assert(vote_in_scope(votes[j], position, year));
        }
    }
}

/// One tally row: a candidature that received votes, joined with its
/// candidate's and party's display attributes, and its vote count.
#[derive(Debug)]
pub struct TallyRow {
    pub candidate_first_name: String,
    pub candidate_last_name: String,
    pub candidate_id: String,
    pub candidature_id: String,
    pub candidature_code: String,
    pub candidature_position: CandidaturePosition,
    pub party_name: String,
    pub party_acronym: String,
    pub party_id: String,
    pub votes: u64,
}

impl Clone for TallyRow {
    /// An exact copy, field by field.
    fn clone(&self) -> (r: Self)
        ensures
            r == *self,
    {
        TallyRow {
            candidate_first_name: self.candidate_first_name.clone(),
            candidate_last_name: self.candidate_last_name.clone(),
            candidate_id: self.candidate_id.clone(),
            candidature_id: self.candidature_id.clone(),
            candidature_code: self.candidature_code.clone(),
            candidature_position: self.candidature_position,
            party_name: self.party_name.clone(),
            party_acronym: self.party_acronym.clone(),
            party_id: self.party_id.clone(),
            votes: self.votes,
        }
    }
}

/// A candidature id can be joined to a directory entry and to that
/// entry's candidate and party records.
pub open spec fn tally_joinable(cand_id: Seq<char>, dir: Seq<Candidature>, cs: Seq<Candidate>, ps: Seq<Party>) -> bool {
    &&& has_candidature(dir, cand_id)
    &&& has_candidate(cs, dir[candidature_index(dir, cand_id)].candidate_id@)
    &&& has_party(ps, dir[candidature_index(dir, cand_id)].party_id@)
}

/// The display fields of `row` are correctly joined: they come from the
/// first directory entry carrying the row's candidature id, and from the
/// first candidate and party records carrying that entry's identifiers.
pub open spec fn row_joined(row: TallyRow, dir: Seq<Candidature>, cs: Seq<Candidate>, ps: Seq<Party>) -> bool {
    &&& tally_joinable(row.candidature_id@, dir, cs, ps)
    &&& ({
        let c = dir[candidature_index(dir, row.candidature_id@)];
        let ca = cs[candidate_index(cs, c.candidate_id@)];
        let p = ps[party_index(ps, c.party_id@)];
        &&& row.candidate_first_name@ == ca.first_name@
        &&& row.candidate_last_name@ == ca.last_name@
        &&& row.candidate_id@ == ca.id@
        &&& row.candidature_code@ == c.code@
        &&& row.candidature_position == c.position
        &&& row.party_name@ == p.name@
        &&& row.party_acronym@ == p.acronym@
        &&& row.party_id@ == p.id@
    })
}

/// Finds a row for candidature `id`, if one exists.
fn find_row(rows: &Vec<TallyRow>, id: &String) -> (r: Option<usize>)
    ensures
        match r {
            Some(k) => k < rows@.len() && rows@[k as int].candidature_id@ == id@,
            None => forall|k: int| 0 <= k < rows@.len() ==> rows@[k].candidature_id@ != id@,
        },
{
    let mut k: usize = 0;
    while k < rows.len()
        invariant
            k <= rows@.len(),
            forall|j: int| 0 <= j < k ==> rows@[j].candidature_id@ != id@,
        decreases rows@.len() - k,
    {
        if rows[k].candidature_id == *id {
            return Some(k);
        }
        k = k + 1;
    }
    None
}

/// The single-writer, append-only vote ledger for one election year,
/// holding the keyed-digest secret handed to it at construction.
#[derive(Debug)]
pub struct VoteLedger {
    secret: Vec<u8>,
    year: i32,
    votes: Vec<Vote>,
}

impl View for VoteLedger {
    type V = Seq<Vote>;

    closed spec fn view(&self) -> Seq<Vote> {
        self.votes@
    }
}

impl VoteLedger {
    /// The secret material the chain digest is keyed with.
    pub closed spec fn key(self) -> Seq<u8> {
        self.secret@
    }

    /// The election year this ledger records.
    pub closed spec fn year_spec(self) -> i32 {
        self.year
    }

    /// The ledger's invariant: configured secret material, one unbroken
    /// chain, no duplicate (voter, position, year), and every entry in
    /// this ledger's year.
    pub open spec fn wf(self) -> bool {
        &&& self.key().len() > 0
        &&& chain_ok(self.key(), self@)
        &&& unique_ok(self@)
        &&& years_ok(self@, self.year_spec())
    }

    /// Opens an empty ledger for `year`, keyed with `secret`. Missing
    /// secret material is a fatal configuration error.
    pub fn new(secret: Vec<u8>, year: i32) -> (r: Result<VoteLedger, VoteError>)
        ensures
            (r matches Ok(l)) <==> secret@.len() > 0,
            r matches Ok(l) ==> l.wf() && l@ == Seq::<Vote>::empty() && l.key() == secret@
                && l.year_spec() == year,
            r matches Err(e) ==> e == VoteError::ConfigError,
    {
        if secret.len() == 0 {
            Err(VoteError::ConfigError)
        } else {
            let l = VoteLedger { secret, year, votes: Vec::new() };
            proof {
                assert(l@ =~= Seq::<Vote>::empty());
            }
            Ok(l)
        }
    }

    /// Opens an empty ledger for the current UTC calendar year.
    pub fn for_current_year(secret: Vec<u8>) -> (r: Result<VoteLedger, VoteError>)
        ensures
            (r matches Ok(l)) <==> secret@.len() > 0,
            r matches Ok(l) ==> l.wf() && l@ == Seq::<Vote>::empty() && l.key() == secret@,
            r matches Err(e) ==> e == VoteError::ConfigError,
    {
        let year = utc_year();
        VoteLedger::new(secret, year)
    }

    /// The election year this ledger records.
    pub fn election_year(&self) -> (y: i32)
        ensures
            y == self.year_spec(),
    {
        self.year
    }

    /// The persisted entries, in creation order.
    pub fn entries(&self) -> (r: &Vec<Vote>)
        ensures
            r@ == self@,
    {
        &self.votes
    }

    /// Whether `voter` already has a persisted vote for `position` in
    /// this ledger's year.
    pub fn has_voted(&self, voter_id: &String, position: CandidaturePosition) -> (b: bool)
        ensures
            b == has_vote(self@, voter_id@, position, self.year_spec()),
    {
        let mut i: usize = 0;
        while i < self.votes.len()
            invariant
                i <= self@.len(),
                self@ == self.votes@,
                forall|j: int| 0 <= j < i ==> !is_vote_by(self@[j], voter_id@, position, self.year_spec()),
            decreases self@.len() - i,
        {
            let v = &self.votes[i];
            if v.voter_id == *voter_id && v.candidature_position == position && v.year == self.year {
                proof {
                    assert(is_vote_by(self@[i as int], voter_id@, position, self.year_spec()));
                }
                return true;
            }
            i = i + 1;
        }
        false
    }
}

impl Vote {
    /// Builds the candidate next ledger entry for a submission, without
    /// touching the ledger: resolves the ballot, refuses duplicate votes,
    /// reads the current tail and derives the new chain link. The entry
    /// is persisted only by `create`.
    pub fn build(
        ledger: &VoteLedger,
        directory: &CandidatureDirectory,
        voter_id: String,
        code: String,
        candidature_position: CandidaturePosition,
    ) -> (r: Result<Vote, VoteError>)
        requires
            ledger.wf(),
        ensures
            (r matches Ok(v)) <==> (match_count(directory@, code@, candidature_position, ledger.year_spec()) == 1
                && !has_vote(ledger@, voter_id@, candidature_position, ledger.year_spec())
                && tail_stamp(ledger@) < u64::MAX),
            r matches Ok(v) ==> ({
                &&& v.voter_id@ == voter_id@
                &&& exists|i: int|
                    0 <= i < directory@.len() && #[trigger] cand_matches(
                        directory@[i],
                        code@,
                        candidature_position,
                        ledger.year_spec(),
                    ) && v.candidature_id@ == directory@[i].id@
                &&& v.candidature_position == candidature_position
                &&& v.year == ledger.year_spec()
                &&& v.previous_hash@ == tail_hash(ledger@)
                &&& v.created_at > tail_stamp(ledger@)
                &&& v.hash@ == chain_digest_of(
                    ledger.key(),
                    voter_id@,
                    v.candidature_id@,
                    tail_hash(ledger@),
                    tail_stamp(ledger@),
                )
                &&& v.hash@.len() == 64
                &&& v.id@.len() == 36
            }),
            r matches Err(e) ==> e == (if match_count(directory@, code@, candidature_position, ledger.year_spec())
                != 1 {
                VoteError::CandidatureNotFound
            } else if has_vote(ledger@, voter_id@, candidature_position, ledger.year_spec()) {
                VoteError::DuplicateVote
            } else {
                VoteError::ChainConflict
            }),
    {
        let candidature = match directory.resolve(&code, candidature_position, ledger.election_year()) {
            Ok(c) => c,
            Err(e) => {
                return Err(e);
            },
        };
        if ledger.has_voted(&voter_id, candidature_position) {
            return Err(VoteError::DuplicateVote);
        }
        let n = ledger.entries().len();
        let previous_hash: String = if n == 0 {
            String::new()
        } else {
            ledger.entries()[n - 1].hash.clone()
        };
        let previous_stamp: u64 = if n == 0 {
            0
        } else {
            ledger.entries()[n - 1].created_at
        };
        if previous_stamp == u64::MAX {
            return Err(VoteError::ChainConflict);
        }
        let now_raw: i64 = utc_now_micros();
        let now: u64 = if now_raw < 0 {
            0
        } else {
            now_raw as u64
        };
        let created_at: u64 = if now > previous_stamp {
            now
        } else {
            previous_stamp + 1
        };
        let hash = chain_digest(
            ledger.secret_bytes(),
            voter_id.as_str(),
            candidature.id.as_str(),
            previous_hash.as_str(),
            previous_stamp,
        );
        let vote = Vote {
            id: fresh_id(),
            voter_id,
            candidature_id: candidature.id,
            candidature_position: candidature.position,
            hash,
            previous_hash,
            year: ledger.election_year(),
            created_at,
        };
        Ok(vote)
    }

    /// Persists this entry by conditional append. The ledger admits it
    /// only if it extends the current tail: a fresh (voter, position,
    /// year), this ledger's year, the tail's hash as predecessor, a
    /// creation stamp past the tail's, and a digest that binds exactly
    /// those fields. Anything stale is refused — `DuplicateVote` for a
    /// repeated voter, `ChainConflict` otherwise — and the ledger is left
    /// untouched, so the chain can never fork.
    pub fn create(&self, ledger: &mut VoteLedger) -> (r: Result<(), VoteError>)
        requires
            old(ledger).wf(),
        ensures
            final(ledger).wf(),
            final(ledger).key() == old(ledger).key(),
            final(ledger).year_spec() == old(ledger).year_spec(),
            (r is Ok) <==> (!has_vote(
                old(ledger)@,
                self.voter_id@,
                self.candidature_position,
                old(ledger).year_spec(),
            ) && self.year == old(ledger).year_spec() && self.previous_hash@ == tail_hash(old(ledger)@)
                && self.created_at > tail_stamp(old(ledger)@) && self.hash@ == chain_digest_of(
                old(ledger).key(),
                self.voter_id@,
                self.candidature_id@,
                tail_hash(old(ledger)@),
                tail_stamp(old(ledger)@),
            )),
            r is Ok ==> final(ledger)@ == old(ledger)@.push(*self),
            r is Err ==> final(ledger)@ == old(ledger)@,
            r matches Err(e) ==> e == (if has_vote(
                old(ledger)@,
                self.voter_id@,
                self.candidature_position,
                old(ledger).year_spec(),
            ) {
                VoteError::DuplicateVote
            } else {
                VoteError::ChainConflict
            }),
    {
        let ghost s = old(ledger)@;
        let ghost key = old(ledger).key();
        if ledger.has_voted(&self.voter_id, self.candidature_position) {
            return Err(VoteError::DuplicateVote);
        }
        if self.year != ledger.election_year() {
            return Err(VoteError::ChainConflict);
        }
        let n = ledger.entries().len();
        let tail_h: String = if n == 0 {
            String::new()
        } else {
            ledger.entries()[n - 1].hash.clone()
        };
        let tail_s: u64 = if n == 0 {
            0
        } else {
            ledger.entries()[n - 1].created_at
        };
        if !(self.created_at > tail_s) {
            return Err(VoteError::ChainConflict);
        }
        if !(self.previous_hash == tail_h) {
            return Err(VoteError::ChainConflict);
        }
        let expected = chain_digest(
            ledger.secret_bytes(),
            self.voter_id.as_str(),
            self.candidature_id.as_str(),
            tail_h.as_str(),
            tail_s,
        );
        if !(self.hash == expected) {
            return Err(VoteError::ChainConflict);
        }
        ledger.votes.push(self.clone());
        proof {
            let s2 = ledger@;
            assert(s2 == s.push(*self));
            assert forall|i: int| 0 <= i < s2.len() implies #[trigger] link_ok(key, s2, i) by {
                if i < s.len() {
                    assert(link_ok(key, s, i));
                    assert(s2[i] == s[i]);
                } else {
                    assert(s2[i] == *self);
                }
            }
            assert forall|i: int, j: int|
                0 <= i < s2.len() && 0 <= j < s2.len() && i != j implies !(#[trigger] s2[i].voter_id@
                == #[trigger] s2[j].voter_id@ && s2[i].candidature_position
                == s2[j].candidature_position && s2[i].year == s2[j].year) by {
                if i < s.len() && j < s.len() {
                    assert(unique_ok(s));
                } else {
                    let k = if i < j { i } else { j };
                    assert(k < s.len());
                    if s2[i].voter_id@ == s2[j].voter_id@ && s2[i].candidature_position
                        == s2[j].candidature_position && s2[i].year == s2[j].year {
                        assert(s[k].year == old(ledger).year_spec());
                        assert(is_vote_by(
                            s[k],
                            self.voter_id@,
                            self.candidature_position,
                            old(ledger).year_spec(),
                        ));
                    }
                }
            }
        }
        Ok(())
    }

    /// Tallies the ledger for `position` in the ledger's election year:
    /// one row per candidature that received votes and whose display
    /// records can all be joined, counting exactly the persisted votes
    /// that reference it.
    pub fn list(
        ledger: &VoteLedger,
        directory: &CandidatureDirectory,
        candidates: &Vec<Candidate>,
        parties: &Vec<Party>,
        position: CandidaturePosition,
    ) -> (r: Vec<TallyRow>)
        ensures
            forall|k1: int, k2: int|
                #![trigger r@[k1], r@[k2]]
                0 <= k1 < r@.len() && 0 <= k2 < r@.len() && k1 != k2 ==> r@[k1].candidature_id@
                    != r@[k2].candidature_id@,
            forall|k: int|
                #![trigger r@[k]]
                0 <= k < r@.len() ==> r@[k].votes as nat == count_for(
                    ledger@,
                    r@[k].candidature_id@,
                    position,
                    ledger.year_spec(),
                ) && r@[k].votes > 0,
            forall|k: int|
                #![trigger r@[k]]
                0 <= k < r@.len() ==> row_joined(r@[k], directory@, candidates@, parties@),
            forall|i: int|
                #![trigger ledger@[i]]
                0 <= i < ledger@.len() && vote_in_scope(ledger@[i], position, ledger.year_spec())
                    && tally_joinable(ledger@[i].candidature_id@, directory@, candidates@, parties@)
                    ==> exists|k: int|
                    0 <= k < r@.len() && #[trigger] r@[k].candidature_id@ == ledger@[i].candidature_id@,
    {
        let votes = ledger.entries();
        let year = ledger.election_year();
        let mut rows: Vec<TallyRow> = Vec::new();
        let n = votes.len();
        let mut i: usize = 0;
        while i < n
            invariant
                votes@ == ledger@,
                year == ledger.year_spec(),
                n == ledger@.len(),
                i <= n,
                forall|k1: int, k2: int|
                    #![trigger rows@[k1], rows@[k2]]
                    0 <= k1 < rows@.len() && 0 <= k2 < rows@.len() && k1 != k2 ==> rows@[k1].candidature_id@
                        != rows@[k2].candidature_id@,
                forall|k: int|
                    #![trigger rows@[k]]
                    0 <= k < rows@.len() ==> rows@[k].votes as nat == count_for(
                        ledger@.take(i as int),
                        rows@[k].candidature_id@,
                        position,
                        year,
                    ) && rows@[k].votes > 0,
                forall|k: int|
                    #![trigger rows@[k]]
                    0 <= k < rows@.len() ==> row_joined(rows@[k], directory@, candidates@, parties@),
                forall|j: int|
                    #![trigger ledger@[j]]
                    0 <= j < i && vote_in_scope(ledger@[j], position, year) && tally_joinable(
                        ledger@[j].candidature_id@,
                        directory@,
                        candidates@,
                        parties@,
                    ) ==> exists|k: int|
                        0 <= k < rows@.len() && #[trigger] rows@[k].candidature_id@ == ledger@[j].candidature_id@,
                forall|k: int| #![trigger rows@[k]] 0 <= k < rows@.len() ==> rows@[k].votes <= i,
            decreases n - i,
        {
            let v = &votes[i];
            proof {
                assert(ledger@.take(i + 1).drop_last() =~= ledger@.take(i as int));
                assert(ledger@.take(i + 1).last() == ledger@[i as int]);
            }
            if v.candidature_position == position && v.year == year {
                match find_row(&rows, &v.candidature_id) {
                    Some(k) => {
                        let ghost old_rows = rows@;
                        let mut row = rows[k].clone();
                        proof {
                            assert(rows@[k as int].votes <= i);
                        }
                        row.votes = row.votes + 1;
                        rows.set(k, row);
                        proof {
                            assert forall|k2: int|
                                #![trigger rows@[k2]]
                                0 <= k2 < rows@.len() implies rows@[k2].votes as nat == count_for(
                                ledger@.take(i + 1),
                                rows@[k2].candidature_id@,
                                position,
                                year,
                            ) && rows@[k2].votes > 0 by {
                                if k2 == k as int {
                                    assert(old_rows[k2].candidature_id@ == ledger@[i as int].candidature_id@);
                                } else {
                                    assert(old_rows[k2].candidature_id@ != old_rows[k as int].candidature_id@);
                                }
                            }
                            assert forall|j: int|
                                #![trigger ledger@[j]]
                                0 <= j < i + 1 && vote_in_scope(ledger@[j], position, year)
                                    && tally_joinable(
                                    ledger@[j].candidature_id@,
                                    directory@,
                                    candidates@,
                                    parties@,
                                ) implies exists|k2: int|
                                0 <= k2 < rows@.len() && #[trigger] rows@[k2].candidature_id@
                                    == ledger@[j].candidature_id@ by {
                                if j < i {
                                    let k3 = choose|k3: int|
                                        0 <= k3 < old_rows.len() && #[trigger] old_rows[k3].candidature_id@
                                            == ledger@[j].candidature_id@;
                                    assert(rows@[k3].candidature_id@ == ledger@[j].candidature_id@);
                                } else {
                                    assert(rows@[k as int].candidature_id@ == ledger@[i as int].candidature_id@);
                                }
                            }
                        }
                    },
                    None => {
                        match directory.find_by_id(&v.candidature_id) {
                            Some(di) => {
                                let c = directory.get(di);
                                proof {
                                    lemma_candidature_index_is(directory@, v.candidature_id@, di as int);
                                }
                                match (find_candidate(candidates, &c.candidate_id), find_party(
                                    parties,
                                    &c.party_id,
                                )) {
                                    (Some(ci), Some(pi)) => {
                                        proof {
                                            lemma_candidate_index_is(candidates@, c.candidate_id@, ci as int);
                                            lemma_party_index_is(parties@, c.party_id@, pi as int);
                                            assert(tally_joinable(
                                                v.candidature_id@,
                                                directory@,
                                                candidates@,
                                                parties@,
                                            ));
                                            if count_for(ledger@.take(i as int), v.candidature_id@, position, year)
                                                > 0 {
                                                lemma_count_for_witness(
                                                    ledger@.take(i as int),
                                                    v.candidature_id@,
                                                    position,
                                                    year,
                                                );
                                                let j = choose|j: int|
                                                    0 <= j < ledger@.take(i as int).len() && vote_in_scope(
                                                        #[trigger] ledger@.take(i as int)[j],
                                                        position,
                                                        year,
                                                    ) && ledger@.take(i as int)[j].candidature_id@
                                                        == v.candidature_id@;
                                                assert(vote_in_scope(ledger@[j], position, year));
                                                assert(false);
                                            }
                                        }
                                        let ghost old_rows = rows@;
                                        let row = TallyRow {
                                            candidate_first_name: candidates[ci].first_name.clone(),
                                            candidate_last_name: candidates[ci].last_name.clone(),
                                            candidate_id: candidates[ci].id.clone(),
                                            candidature_id: v.candidature_id.clone(),
                                            candidature_code: c.code.clone(),
                                            candidature_position: c.position,
                                            party_name: parties[pi].name.clone(),
                                            party_acronym: parties[pi].acronym.clone(),
                                            party_id: parties[pi].id.clone(),
                                            votes: 1,
                                        };
                                        rows.push(row);
                                        proof {
                                            assert forall|j: int|
                                                #![trigger ledger@[j]]
                                                0 <= j < i + 1 && vote_in_scope(ledger@[j], position, year)
                                                    && tally_joinable(
                                                    ledger@[j].candidature_id@,
                                                    directory@,
                                                    candidates@,
                                                    parties@,
                                                ) implies exists|k2: int|
                                                0 <= k2 < rows@.len() && #[trigger] rows@[k2].candidature_id@
                                                    == ledger@[j].candidature_id@ by {
                                                if j < i {
                                                    let k3 = choose|k3: int|
                                                        0 <= k3 < old_rows.len()
                                                            && #[trigger] old_rows[k3].candidature_id@
                                                            == ledger@[j].candidature_id@;
                                                    assert(rows@[k3].candidature_id@ == ledger@[j].candidature_id@);
                                                } else {
                                                    assert(rows@[old_rows.len() as int].candidature_id@
                                                        == ledger@[i as int].candidature_id@);
                                                }
                                            }
                                        }
                                    },
                                    _ => {
                                        proof {
                                            assert(!tally_joinable(
                                                v.candidature_id@,
                                                directory@,
                                                candidates@,
                                                parties@,
                                            ));
                                            assert forall|k: int|
                                                #![trigger rows@[k]]
                                                0 <= k < rows@.len() implies rows@[k].candidature_id@
                                                != v.candidature_id@ by {
                                                assert(row_joined(rows@[k], directory@, candidates@, parties@));
                                            }
                                        }
                                    },
                                }
                            },
                            None => {
                                proof {
                                    assert(!tally_joinable(
                                        v.candidature_id@,
                                        directory@,
                                        candidates@,
                                        parties@,
                                    ));
                                    assert forall|k: int|
                                        #![trigger rows@[k]]
                                        0 <= k < rows@.len() implies rows@[k].candidature_id@
                                        != v.candidature_id@ by {
                                        assert(row_joined(rows@[k], directory@, candidates@, parties@));
                                    }
                                }
                            },
                        }
                    },
                }
            }
            i = i + 1;
        }
        proof {
            assert(ledger@.take(n as int) =~= ledger@);
        }
        rows
    }
}

/// Chain integrity: every persisted vote other than the first ever
/// appended records its predecessor's hash and recomputes to the keyed
/// digest over {its voter, its candidature, its predecessor's hash, its
/// predecessor's creation stamp}; the genesis entry binds to the
/// sentinel predecessor (empty hash, stamp 0).
pub proof fn lemma_chain_integrity(l: VoteLedger)
    requires
        l.wf(),
    ensures
        forall|i: int|
            1 <= i < l@.len() ==> #[trigger] l@[i].hash@ == chain_digest_of(
                l.key(),
                l@[i].voter_id@,
                l@[i].candidature_id@,
                l@[i - 1].hash@,
                l@[i - 1].created_at,
            ) && l@[i].previous_hash@ == l@[i - 1].hash@,
        l@.len() > 0 ==> l@[0].hash@ == chain_digest_of(
            l.key(),
            l@[0].voter_id@,
            l@[0].candidature_id@,
            Seq::<char>::empty(),
            0,
        ) && l@[0].previous_hash@ == Seq::<char>::empty(),
{
    assert forall|i: int|
        1 <= i < l@.len() implies #[trigger] l@[i].hash@ == chain_digest_of(
        l.key(),
        l@[i].voter_id@,
        l@[i].candidature_id@,
        l@[i - 1].hash@,
        l@[i - 1].created_at,
    ) && l@[i].previous_hash@ == l@[i - 1].hash@ by {
        assert(link_ok(l.key(), l@, i));
    }
    if l@.len() > 0 {
        assert(link_ok(l.key(), l@, 0));
    }
}

/// No forks: as long as the keyed digest is collision-free over the
/// persisted entries — no two entries share a hash — no two distinct
/// entries claim the same predecessor, and only the genesis entry
/// carries the sentinel. (A digest collision is the one input this
/// statement must leave out: the digest is named, not computed, so
/// nothing rules a collision out.)
pub proof fn lemma_no_forks(l: VoteLedger)
    requires
        l.wf(),
        forall|i: int, j: int|
            0 <= i < l@.len() && 0 <= j < l@.len() && i != j ==> #[trigger] l@[i].hash@
                != #[trigger] l@[j].hash@,
    ensures
        forall|i: int, j: int|
            0 <= i < l@.len() && 0 <= j < l@.len() && i != j ==> #[trigger] l@[i].previous_hash@
                != #[trigger] l@[j].previous_hash@,
{
    assert forall|i: int, j: int|
        0 <= i < l@.len() && 0 <= j < l@.len() && i != j implies #[trigger] l@[i].previous_hash@
        != #[trigger] l@[j].previous_hash@ by {
        assert(link_ok(l.key(), l@, i));
        assert(link_ok(l.key(), l@, j));
        if i == 0 {
            assert(link_ok(l.key(), l@, j - 1));
        } else if j == 0 {
            assert(link_ok(l.key(), l@, i - 1));
        } else {
            assert(l@[i - 1].hash@ != l@[j - 1].hash@);
        }
    }
}

/// Uniqueness: for each (voter, position, year) at most one vote is ever
/// persisted — no two distinct entries share the triple.
pub proof fn lemma_unique_vote(l: VoteLedger)
    requires
        l.wf(),
    ensures
        forall|i: int, j: int|
            0 <= i < l@.len() && 0 <= j < l@.len() && i != j ==> !(#[trigger] l@[i].voter_id@
                == #[trigger] l@[j].voter_id@ && l@[i].candidature_position == l@[j].candidature_position
                && l@[i].year == l@[j].year),
{
}

/// Idempotent rejection: appending a vote by `voter` for `position` in
/// `year` to a ledger that held no such vote leaves exactly one — the
/// new entry. With `submit`'s contract, which refuses with
/// `DuplicateVote` and leaves the ledger unchanged exactly when such an
/// entry exists, a repeated submission changes nothing.
pub proof fn lemma_idempotent_rejection(
    votes: Seq<Vote>,
    v: Vote,
    voter: Seq<char>,
    position: CandidaturePosition,
    year: i32,
)
    requires
        !has_vote(votes, voter, position, year),
        is_vote_by(v, voter, position, year),
    ensures
        has_vote(votes.push(v), voter, position, year),
        forall|k: int|
            0 <= k < votes.push(v).len() && is_vote_by(#[trigger] votes.push(v)[k], voter, position, year)
                ==> k == votes.len(),
{
    assert(is_vote_by(votes.push(v)[votes.len() as int], voter, position, year));
    assert forall|k: int|
        0 <= k < votes.push(v).len() && is_vote_by(#[trigger] votes.push(v)[k], voter, position, year)
        implies k == votes.len() by {
        if k < votes.len() {
            assert(is_vote_by(votes[k], voter, position, year));
        }
    }
}

impl VoteLedger {
    /// The keyed-digest secret, for deriving chain links.
    fn secret_bytes(&self) -> (r: &Vec<u8>)
        ensures
            r@ == self.key(),
    {
        &self.secret
    }

    /// Submits a vote: resolves the ballot, enforces the double-vote
    /// guard, derives the next chain link and appends it, all against one
    /// ledger state — the exclusive borrow serializes appends, so no two
    /// submissions can extend the same predecessor.
    pub fn submit(
        &mut self,
        directory: &CandidatureDirectory,
        voter_id: String,
        code: String,
        candidature_position: CandidaturePosition,
    ) -> (r: Result<Vote, VoteError>)
        requires
            old(self).wf(),
        ensures
            final(self).wf(),
            final(self).key() == old(self).key(),
            final(self).year_spec() == old(self).year_spec(),
            (r is Ok) <==> (match_count(directory@, code@, candidature_position, old(self).year_spec()) == 1
                && !has_vote(old(self)@, voter_id@, candidature_position, old(self).year_spec())
                && tail_stamp(old(self)@) < u64::MAX),
            r matches Ok(v) ==> ({
                &&& final(self)@ == old(self)@.push(v)
                &&& v.voter_id@ == voter_id@
                &&& exists|i: int|
                    0 <= i < directory@.len() && #[trigger] cand_matches(
                        directory@[i],
                        code@,
                        candidature_position,
                        old(self).year_spec(),
                    ) && v.candidature_id@ == directory@[i].id@
                &&& v.candidature_position == candidature_position
                &&& v.year == old(self).year_spec()
                &&& v.previous_hash@ == tail_hash(old(self)@)
                &&& v.created_at > tail_stamp(old(self)@)
                &&& v.hash@ == chain_digest_of(
                    old(self).key(),
                    voter_id@,
                    v.candidature_id@,
                    tail_hash(old(self)@),
                    tail_stamp(old(self)@),
                )
                &&& v.hash@.len() == 64
            }),
            r is Err ==> final(self)@ == old(self)@,
            r matches Err(e) ==> e == (if match_count(directory@, code@, candidature_position, old(self).year_spec())
                != 1 {
                VoteError::CandidatureNotFound
            } else if has_vote(old(self)@, voter_id@, candidature_position, old(self).year_spec()) {
                VoteError::DuplicateVote
            } else {
                VoteError::ChainConflict
            }),
    {
        let vote = match Vote::build(self, directory, voter_id, code, candidature_position) {
            Ok(v) => v,
            Err(e) => {
                return Err(e);
            },
        };
        match vote.create(self) {
            Ok(()) => Ok(vote),
            Err(e) => Err(e),
        }
    }
}

} // verus!
