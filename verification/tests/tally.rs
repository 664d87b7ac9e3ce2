use bbox::{
    Candidate, Candidature, CandidatureDirectory, CandidatureInfo, CandidaturePosition, Party, Vote,
    VoteLedger,
};

const YEAR: i32 = 2026;

fn candidature(id: &str, code: &str, position: CandidaturePosition, party_id: &str, candidate_id: &str) -> Candidature {
    Candidature {
        id: id.to_string(),
        party_id: party_id.to_string(),
        candidate_id: candidate_id.to_string(),
        image_url: "https://example.org/image.png".to_string(),
        code: code.to_string(),
        year: YEAR,
        position,
    }
}

fn candidate(id: &str, first: &str, last: &str) -> Candidate {
    Candidate { id: id.to_string(), first_name: first.to_string(), last_name: last.to_string() }
}

fn party(id: &str, name: &str, acronym: &str) -> Party {
    Party {
        id: id.to_string(),
        name: name.to_string(),
        description: name.to_string(),
        acronym: acronym.to_string(),
    }
}

fn fixtures() -> (CandidatureDirectory, Vec<Candidate>, Vec<Party>) {
    let dir = CandidatureDirectory::new(vec![
        candidature("ca-1", "AB12CD34", CandidaturePosition::President, "p-1", "c-1"),
        candidature("ca-2", "EF56GH78", CandidaturePosition::President, "p-2", "c-2"),
        candidature("ca-3", "SE55TT66", CandidaturePosition::Senator, "p-1", "c-1"),
    ]);
    let candidates = vec![candidate("c-1", "João", "Silva"), candidate("c-2", "Maria", "Silva")];
    let parties = vec![
        party("p-1", "Partido Social Democrático", "PSD"),
        party("p-2", "Partido Comunista Brasileiro", "PCB"),
    ];
    (dir, candidates, parties)
}

#[test]
fn tally_counts_votes_per_candidature() {
    let (dir, candidates, parties) = fixtures();
    let mut l = VoteLedger::new(b"test-secret".to_vec(), YEAR).unwrap();
    l.submit(&dir, "V1".to_string(), "AB12CD34".to_string(), CandidaturePosition::President).unwrap();
    l.submit(&dir, "V2".to_string(), "AB12CD34".to_string(), CandidaturePosition::President).unwrap();
    l.submit(&dir, "V3".to_string(), "EF56GH78".to_string(), CandidaturePosition::President).unwrap();
    l.submit(&dir, "V4".to_string(), "SE55TT66".to_string(), CandidaturePosition::Senator).unwrap();

    let rows = Vote::list(&l, &dir, &candidates, &parties, CandidaturePosition::President);
    assert_eq!(rows.len(), 2);
    let first = rows.iter().find(|r| r.candidature_id == "ca-1").expect("row for ca-1");
    assert_eq!(first.votes, 2);
    assert_eq!(first.candidate_first_name, "João");
    assert_eq!(first.candidate_last_name, "Silva");
    assert_eq!(first.candidate_id, "c-1");
    assert_eq!(first.candidature_code, "AB12CD34");
    assert_eq!(first.party_name, "Partido Social Democrático");
    assert_eq!(first.party_acronym, "PSD");
    assert_eq!(first.party_id, "p-1");
    let second = rows.iter().find(|r| r.candidature_id == "ca-2").expect("row for ca-2");
    assert_eq!(second.votes, 1);
    assert_eq!(second.candidate_first_name, "Maria");
    assert_eq!(second.party_acronym, "PCB");
}

#[test]
fn tally_is_scoped_to_the_position() {
    let (dir, candidates, parties) = fixtures();
    let mut l = VoteLedger::new(b"test-secret".to_vec(), YEAR).unwrap();
    l.submit(&dir, "V1".to_string(), "AB12CD34".to_string(), CandidaturePosition::President).unwrap();
    l.submit(&dir, "V2".to_string(), "SE55TT66".to_string(), CandidaturePosition::Senator).unwrap();

    let rows = Vote::list(&l, &dir, &candidates, &parties, CandidaturePosition::Senator);
    assert_eq!(rows.len(), 1);
    assert_eq!(rows[0].candidature_id, "ca-3");
    assert_eq!(rows[0].votes, 1);
}

#[test]
fn tally_of_an_empty_ledger_is_empty() {
    let (dir, candidates, parties) = fixtures();
    let l = VoteLedger::new(b"test-secret".to_vec(), YEAR).unwrap();
    let rows = Vote::list(&l, &dir, &candidates, &parties, CandidaturePosition::President);
    assert_eq!(rows.len(), 0);
}

#[test]
fn zero_vote_candidatures_get_no_row() {
    let (dir, candidates, parties) = fixtures();
    let mut l = VoteLedger::new(b"test-secret".to_vec(), YEAR).unwrap();
    l.submit(&dir, "V1".to_string(), "AB12CD34".to_string(), CandidaturePosition::President).unwrap();
    let rows = Vote::list(&l, &dir, &candidates, &parties, CandidaturePosition::President);
    assert_eq!(rows.len(), 1);
    assert!(rows.iter().all(|r| r.candidature_id != "ca-2"));
}

#[test]
fn candidature_listing_joins_display_attributes() {
    let (dir, candidates, parties) = fixtures();
    let rows: Vec<CandidatureInfo> =
        Candidature::list(&dir, &candidates, &parties, CandidaturePosition::President, YEAR);
    assert_eq!(rows.len(), 2);
    assert_eq!(rows[0].candidature.id, "ca-1");
    assert_eq!(rows[0].candidate_first_name, "João");
    assert_eq!(rows[0].party_acronym, "PSD");
    assert_eq!(rows[1].candidature.id, "ca-2");
    assert_eq!(rows[1].candidate_first_name, "Maria");
    assert_eq!(rows[1].party_name, "Partido Comunista Brasileiro");
}

#[test]
fn candidature_listing_is_scoped_to_position_and_year() {
    let (dir, candidates, parties) = fixtures();
    let rows = Candidature::list(&dir, &candidates, &parties, CandidaturePosition::Senator, YEAR);
    assert_eq!(rows.len(), 1);
    assert_eq!(rows[0].candidature.id, "ca-3");
    let none = Candidature::list(&dir, &candidates, &parties, CandidaturePosition::President, YEAR - 1);
    assert_eq!(none.len(), 0);
}

#[test]
fn listing_skips_entries_whose_records_are_missing() {
    let dir = CandidatureDirectory::new(vec![
        candidature("ca-1", "AB12CD34", CandidaturePosition::President, "p-1", "c-1"),
        candidature("ca-orphan", "XX00YY11", CandidaturePosition::President, "p-1", "c-missing"),
    ]);
    let candidates = vec![candidate("c-1", "João", "Silva")];
    let parties = vec![party("p-1", "Partido Social Democrático", "PSD")];
    let rows = Candidature::list(&dir, &candidates, &parties, CandidaturePosition::President, YEAR);
    assert_eq!(rows.len(), 1);
    assert_eq!(rows[0].candidature.id, "ca-1");
}

#[test]
fn tally_skips_votes_whose_records_are_missing() {
    let dir = CandidatureDirectory::new(vec![
        candidature("ca-1", "AB12CD34", CandidaturePosition::President, "p-1", "c-1"),
        candidature("ca-orphan", "XX00YY11", CandidaturePosition::President, "p-1", "c-missing"),
    ]);
    let candidates = vec![candidate("c-1", "João", "Silva")];
    let parties = vec![party("p-1", "Partido Social Democrático", "PSD")];
    let mut l = VoteLedger::new(b"test-secret".to_vec(), YEAR).unwrap();
    l.submit(&dir, "V1".to_string(), "AB12CD34".to_string(), CandidaturePosition::President).unwrap();
    l.submit(&dir, "V2".to_string(), "XX00YY11".to_string(), CandidaturePosition::President).unwrap();
    let rows = Vote::list(&l, &dir, &candidates, &parties, CandidaturePosition::President);
    assert_eq!(rows.len(), 1);
    assert_eq!(rows[0].candidature_id, "ca-1");
    assert_eq!(rows[0].votes, 1);
}
