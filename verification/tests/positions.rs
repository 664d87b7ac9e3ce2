use bbox::{Candidate, Candidature, CandidaturePosition, Party, VoteError, Voter};

#[test]
fn labels_round_trip_for_every_office() {
    let all = [
        CandidaturePosition::President,
        CandidaturePosition::VicePresident,
        CandidaturePosition::Governor,
        CandidaturePosition::ViceGovernor,
        CandidaturePosition::Senator,
        CandidaturePosition::FederalDeputy,
        CandidaturePosition::StateDeputy,
        CandidaturePosition::Mayor,
        CandidaturePosition::ViceMayor,
        CandidaturePosition::Councilor,
        CandidaturePosition::Minister,
        CandidaturePosition::Secretary,
    ];
    for p in all {
        let label = p.to_string();
        assert_eq!(CandidaturePosition::from(label).unwrap(), p);
    }
}

#[test]
fn expected_labels() {
    assert_eq!(CandidaturePosition::President.to_string(), "Presidente");
    assert_eq!(CandidaturePosition::FederalDeputy.to_string(), "Deputado Federal");
    assert_eq!(CandidaturePosition::Councilor.to_string(), "Vereador");
}

#[test]
fn unknown_label_fails_loudly() {
    let r = CandidaturePosition::from("Emperor".to_string());
    assert_eq!(r.unwrap_err(), VoteError::UnknownPosition);
    let empty = CandidaturePosition::from(String::new());
    assert_eq!(empty.unwrap_err(), VoteError::UnknownPosition);
}

#[test]
fn error_descriptions_are_stable() {
    assert_eq!(VoteError::CandidatureNotFound.describe(), "candidature not found");
    assert_eq!(VoteError::DuplicateVote.describe(), "voter already voted for this position in this year");
    assert_eq!(VoteError::ChainConflict.describe(), "vote does not extend the current chain");
    assert_eq!(VoteError::UnknownPosition.describe(), "unknown candidature position");
    assert_eq!(VoteError::ConfigError.describe(), "missing secret key");
}

#[test]
fn builders_keep_fields_and_generate_fresh_ids() {
    let a = Candidate::build("João".to_string(), "Silva".to_string());
    let b = Candidate::build("Maria".to_string(), "Silva".to_string());
    assert_eq!(a.first_name, "João");
    assert_eq!(a.last_name, "Silva");
    assert_eq!(a.id.len(), 36);
    assert_ne!(a.id, b.id);

    let p = Party::build("Partido Social Democrático".to_string(), "desc".to_string(), "PSD".to_string());
    assert_eq!(p.name, "Partido Social Democrático");
    assert_eq!(p.acronym, "PSD");
    assert_eq!(p.id.len(), 36);

    let v = Voter::build(
        "Maria".to_string(),
        "Silva".to_string(),
        "Ana".to_string(),
        "José".to_string(),
        "01/01/2000".to_string(),
    );
    assert_eq!(v.mother_name, "Ana");
    assert_eq!(v.id.len(), 36);

    let c = Candidature::build(
        p.id.clone(),
        a.id.clone(),
        "AB12CD34".to_string(),
        CandidaturePosition::President,
        "https://example.org/image.png".to_string(),
    );
    assert_eq!(c.party_id, p.id);
    assert_eq!(c.candidate_id, a.id);
    assert_eq!(c.code, "AB12CD34");
    assert_eq!(c.position, CandidaturePosition::President);
    assert_eq!(c.id.len(), 36);
}
