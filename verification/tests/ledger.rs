use bbox::{Candidature, CandidatureDirectory, CandidaturePosition, Vote, VoteError, VoteLedger};
use hmac::Mac;

const YEAR: i32 = 2026;

fn candidature(id: &str, code: &str, position: CandidaturePosition) -> Candidature {
    Candidature {
        id: id.to_string(),
        party_id: "party-1".to_string(),
        candidate_id: "cand-1".to_string(),
        image_url: "https://example.org/image.png".to_string(),
        code: code.to_string(),
        year: YEAR,
        position,
    }
}

fn directory() -> CandidatureDirectory {
    CandidatureDirectory::new(vec![
        candidature("ca-president", "AB12CD34", CandidaturePosition::President),
        candidature("ca-senator", "SE55TT66", CandidaturePosition::Senator),
        candidature("ca-mayor", "MA77YY88", CandidaturePosition::Mayor),
    ])
}

fn ledger() -> VoteLedger {
    VoteLedger::new(b"test-secret".to_vec(), YEAR).expect("secret is non-empty")
}

fn expected_digest(key: &[u8], voter: &str, cand: &str, prev_hash: &str, prev_stamp: u64) -> String {
    let mut mac = hmac::Hmac::<sha2::Sha256>::new_from_slice(key).unwrap();
    mac.update(voter.as_bytes());
    mac.update(cand.as_bytes());
    mac.update(prev_hash.as_bytes());
    mac.update(prev_stamp.to_string().as_bytes());
    hex::encode(mac.finalize().into_bytes())
}

#[test]
fn genesis_submission_uses_sentinel_predecessor() {
    let dir = directory();
    let mut l = ledger();
    let vote = l
        .submit(&dir, "V1".to_string(), "AB12CD34".to_string(), CandidaturePosition::President)
        .expect("genesis submission succeeds");
    assert_eq!(vote.previous_hash, "");
    assert_eq!(vote.hash.len(), 64);
    assert_eq!(vote.candidature_id, "ca-president");
    assert_eq!(vote.voter_id, "V1");
    assert_eq!(vote.year, YEAR);
    assert!(vote.created_at > 0);
    assert_eq!(l.entries().len(), 1);
}

#[test]
fn genesis_hash_recomputes_from_sentinel_inputs() {
    let dir = directory();
    let mut l = ledger();
    let vote = l
        .submit(&dir, "V1".to_string(), "AB12CD34".to_string(), CandidaturePosition::President)
        .unwrap();
    let expected = expected_digest(b"test-secret", "V1", "ca-president", "", 0);
    assert_eq!(vote.hash, expected);
}

#[test]
fn chain_integrity_recomputes_for_every_later_entry() {
    let dir = directory();
    let mut l = ledger();
    l.submit(&dir, "V1".to_string(), "AB12CD34".to_string(), CandidaturePosition::President).unwrap();
    l.submit(&dir, "V2".to_string(), "SE55TT66".to_string(), CandidaturePosition::Senator).unwrap();
    l.submit(&dir, "V3".to_string(), "MA77YY88".to_string(), CandidaturePosition::Mayor).unwrap();
    let entries = l.entries();
    assert_eq!(entries.len(), 3);
    for i in 1..entries.len() {
        let prev = &entries[i - 1];
        let v = &entries[i];
        assert_eq!(v.previous_hash, prev.hash);
        let expected = expected_digest(
            b"test-secret",
            &v.voter_id,
            &v.candidature_id,
            &prev.hash,
            prev.created_at,
        );
        assert_eq!(v.hash, expected);
    }
}

#[test]
fn no_forks_previous_hashes_are_distinct() {
    let dir = directory();
    let mut l = ledger();
    l.submit(&dir, "V1".to_string(), "AB12CD34".to_string(), CandidaturePosition::President).unwrap();
    l.submit(&dir, "V2".to_string(), "SE55TT66".to_string(), CandidaturePosition::Senator).unwrap();
    l.submit(&dir, "V3".to_string(), "MA77YY88".to_string(), CandidaturePosition::Mayor).unwrap();
    let entries = l.entries();
    for i in 0..entries.len() {
        for j in 0..entries.len() {
            if i != j {
                assert_ne!(entries[i].previous_hash, entries[j].previous_hash);
            }
        }
    }
}

#[test]
fn creation_stamps_strictly_increase() {
    let dir = directory();
    let mut l = ledger();
    l.submit(&dir, "V1".to_string(), "AB12CD34".to_string(), CandidaturePosition::President).unwrap();
    l.submit(&dir, "V2".to_string(), "AB12CD34".to_string(), CandidaturePosition::President).unwrap();
    l.submit(&dir, "V3".to_string(), "SE55TT66".to_string(), CandidaturePosition::Senator).unwrap();
    let entries = l.entries();
    for i in 1..entries.len() {
        assert!(entries[i - 1].created_at < entries[i].created_at);
    }
}

#[test]
fn duplicate_vote_is_rejected_and_changes_nothing() {
    let dir = directory();
    let mut l = ledger();
    l.submit(&dir, "V1".to_string(), "AB12CD34".to_string(), CandidaturePosition::President).unwrap();
    let second = l.submit(&dir, "V1".to_string(), "AB12CD34".to_string(), CandidaturePosition::President);
    assert_eq!(second.unwrap_err(), VoteError::DuplicateVote);
    assert_eq!(l.entries().len(), 1);
    let count = l
        .entries()
        .iter()
        .filter(|v| v.voter_id == "V1" && v.candidature_position == CandidaturePosition::President)
        .count();
    assert_eq!(count, 1);
}

#[test]
fn same_voter_may_vote_for_another_position() {
    let dir = directory();
    let mut l = ledger();
    l.submit(&dir, "V1".to_string(), "AB12CD34".to_string(), CandidaturePosition::President).unwrap();
    let senator = l.submit(&dir, "V1".to_string(), "SE55TT66".to_string(), CandidaturePosition::Senator);
    assert!(senator.is_ok());
    assert_eq!(l.entries().len(), 2);
}

#[test]
fn unknown_code_is_candidature_not_found() {
    let dir = directory();
    let mut l = ledger();
    let r = l.submit(&dir, "V1".to_string(), "ZZ99ZZ99".to_string(), CandidaturePosition::President);
    assert_eq!(r.unwrap_err(), VoteError::CandidatureNotFound);
    assert_eq!(l.entries().len(), 0);
}

#[test]
fn code_under_wrong_position_is_candidature_not_found() {
    let dir = directory();
    let mut l = ledger();
    let r = l.submit(&dir, "V1".to_string(), "AB12CD34".to_string(), CandidaturePosition::Senator);
    assert_eq!(r.unwrap_err(), VoteError::CandidatureNotFound);
}

#[test]
fn ambiguous_code_is_candidature_not_found() {
    let dir = CandidatureDirectory::new(vec![
        candidature("ca-1", "AB12CD34", CandidaturePosition::President),
        candidature("ca-2", "AB12CD34", CandidaturePosition::President),
    ]);
    let mut l = ledger();
    let r = l.submit(&dir, "V1".to_string(), "AB12CD34".to_string(), CandidaturePosition::President);
    assert_eq!(r.unwrap_err(), VoteError::CandidatureNotFound);
}

#[test]
fn wrong_year_candidature_is_not_resolved() {
    let mut old = candidature("ca-old", "AB12CD34", CandidaturePosition::President);
    old.year = YEAR - 1;
    let dir = CandidatureDirectory::new(vec![old]);
    let mut l = ledger();
    let r = l.submit(&dir, "V1".to_string(), "AB12CD34".to_string(), CandidaturePosition::President);
    assert_eq!(r.unwrap_err(), VoteError::CandidatureNotFound);
}

#[test]
fn empty_secret_is_a_config_error() {
    let r = VoteLedger::new(Vec::new(), YEAR);
    assert_eq!(r.unwrap_err(), VoteError::ConfigError);
}

#[test]
fn stale_entry_is_a_chain_conflict() {
    let dir = directory();
    let mut l = ledger();
    let stale = Vote::build(&l, &dir, "V1".to_string(), "AB12CD34".to_string(), CandidaturePosition::President)
        .expect("buildable against the empty ledger");
    l.submit(&dir, "V2".to_string(), "SE55TT66".to_string(), CandidaturePosition::Senator).unwrap();
    let r = stale.create(&mut l);
    assert_eq!(r.unwrap_err(), VoteError::ChainConflict);
    assert_eq!(l.entries().len(), 1);
}

#[test]
fn build_then_create_appends_the_built_entry() {
    let dir = directory();
    let mut l = ledger();
    let vote = Vote::build(&l, &dir, "V1".to_string(), "AB12CD34".to_string(), CandidaturePosition::President)
        .unwrap();
    vote.create(&mut l).expect("fresh entry extends the chain");
    assert_eq!(l.entries().len(), 1);
    assert_eq!(l.entries()[0].hash, vote.hash);
    assert_eq!(l.entries()[0].id, vote.id);
}

#[test]
fn tampered_hash_is_a_chain_conflict() {
    let dir = directory();
    let mut l = ledger();
    let mut vote = Vote::build(&l, &dir, "V1".to_string(), "AB12CD34".to_string(), CandidaturePosition::President)
        .unwrap();
    vote.hash = "0000000000000000000000000000000000000000000000000000000000000000".to_string();
    let r = vote.create(&mut l);
    assert_eq!(r.unwrap_err(), VoteError::ChainConflict);
    assert_eq!(l.entries().len(), 0);
}

#[test]
fn election_year_is_kept() {
    let l = ledger();
    assert_eq!(l.election_year(), YEAR);
}

#[test]
fn vote_ids_are_uuid_shaped_and_distinct() {
    let dir = directory();
    let mut l = ledger();
    let a = l.submit(&dir, "V1".to_string(), "AB12CD34".to_string(), CandidaturePosition::President).unwrap();
    let b = l.submit(&dir, "V2".to_string(), "AB12CD34".to_string(), CandidaturePosition::President).unwrap();
    assert_eq!(a.id.len(), 36);
    assert_eq!(b.id.len(), 36);
    assert_ne!(a.id, b.id);
}
