//! Candidatures: a candidate's registered run for an office in a given
//! election year, identified externally by a ballot code, together with
//! the read-only directory that resolves ballot codes.

use vstd::prelude::*;

use crate::candidates::{
    Candidate, candidate_index, first_candidate_with, has_candidate, find_candidate,
    lemma_candidate_index_is,
};
use crate::errors::VoteError;
use crate::party::{Party, party_index, first_party_with, has_party, find_party, lemma_party_index_is};
use crate::sys::{fresh_id, local_year};

verus! {

/// The closed set of contested offices. An unrecognised label is a hard
/// `UnknownPosition` failure, never a silent default.
#[derive(Clone, Copy, PartialEq, Eq, Structural, Debug, Hash)]
pub enum CandidaturePosition {
    President,
    VicePresident,
    Governor,
    ViceGovernor,
    Senator,
    FederalDeputy,
    StateDeputy,
    Mayor,
    ViceMayor,
    Councilor,
    Minister,
    Secretary,
}

impl CandidaturePosition {
    /// The stable external label of each office.
    pub open spec fn label_spec(self) -> Seq<char> {
        match self {
            CandidaturePosition::President => "Presidente"@,
            CandidaturePosition::VicePresident => "Vice-Presidente"@,
            CandidaturePosition::Governor => "Governador"@,
            CandidaturePosition::ViceGovernor => "Vice-Governador"@,
            CandidaturePosition::Senator => "Senador"@,
            CandidaturePosition::FederalDeputy => "Deputado Federal"@,
            CandidaturePosition::StateDeputy => "Deputado Estadual"@,
            CandidaturePosition::Mayor => "Prefeito"@,
            CandidaturePosition::ViceMayor => "Vice-Prefeito"@,
            CandidaturePosition::Councilor => "Vereador"@,
            CandidaturePosition::Minister => "Ministro"@,
            CandidaturePosition::Secretary => "Secretário"@,
        }
    }

    /// Which office a label names, or `UnknownPosition` if none does.
    pub open spec fn parse_label_spec(s: Seq<char>) -> Result<CandidaturePosition, VoteError> {
        if s == "Presidente"@ {
            Ok(CandidaturePosition::President)
        } else if s == "Vice-Presidente"@ {
            Ok(CandidaturePosition::VicePresident)
        } else if s == "Governador"@ {
            Ok(CandidaturePosition::Governor)
        } else if s == "Vice-Governador"@ {
            Ok(CandidaturePosition::ViceGovernor)
        } else if s == "Senador"@ {
            Ok(CandidaturePosition::Senator)
        } else if s == "Deputado Federal"@ {
            Ok(CandidaturePosition::FederalDeputy)
        } else if s == "Deputado Estadual"@ {
            Ok(CandidaturePosition::StateDeputy)
        } else if s == "Prefeito"@ {
            Ok(CandidaturePosition::Mayor)
        } else if s == "Vice-Prefeito"@ {
            Ok(CandidaturePosition::ViceMayor)
        } else if s == "Vereador"@ {
            Ok(CandidaturePosition::Councilor)
        } else if s == "Ministro"@ {
            Ok(CandidaturePosition::Minister)
        } else if s == "Secretário"@ {
            Ok(CandidaturePosition::Secretary)
        } else {
            Err(VoteError::UnknownPosition)
        }
    }

    /// The office's external label.
    pub fn to_string(&self) -> (r: String)
        ensures
            r@ == self.label_spec(),
    {
        match self {
            CandidaturePosition::President => "Presidente".to_owned(),
            CandidaturePosition::VicePresident => "Vice-Presidente".to_owned(),
            CandidaturePosition::Governor => "Governador".to_owned(),
            CandidaturePosition::ViceGovernor => "Vice-Governador".to_owned(),
            CandidaturePosition::Senator => "Senador".to_owned(),
            CandidaturePosition::FederalDeputy => "Deputado Federal".to_owned(),
            CandidaturePosition::StateDeputy => "Deputado Estadual".to_owned(),
            CandidaturePosition::Mayor => "Prefeito".to_owned(),
            CandidaturePosition::ViceMayor => "Vice-Prefeito".to_owned(),
            CandidaturePosition::Councilor => "Vereador".to_owned(),
            CandidaturePosition::Minister => "Ministro".to_owned(),
            CandidaturePosition::Secretary => "Secretário".to_owned(),
        }
    }

    /// Parses an external label, failing loudly on anything outside the
    /// closed set of offices.
    pub fn from(label: String) -> (r: Result<CandidaturePosition, VoteError>)
        ensures
            r == Self::parse_label_spec(label@),
    {
        if label == "Presidente".to_owned() {
            Ok(CandidaturePosition::President)
        } else if label == "Vice-Presidente".to_owned() {
            Ok(CandidaturePosition::VicePresident)
        } else if label == "Governador".to_owned() {
            Ok(CandidaturePosition::Governor)
        } else if label == "Vice-Governador".to_owned() {
            Ok(CandidaturePosition::ViceGovernor)
        } else if label == "Senador".to_owned() {
            Ok(CandidaturePosition::Senator)
        } else if label == "Deputado Federal".to_owned() {
            Ok(CandidaturePosition::FederalDeputy)
        } else if label == "Deputado Estadual".to_owned() {
            Ok(CandidaturePosition::StateDeputy)
        } else if label == "Prefeito".to_owned() {
            Ok(CandidaturePosition::Mayor)
        } else if label == "Vice-Prefeito".to_owned() {
            Ok(CandidaturePosition::ViceMayor)
        } else if label == "Vereador".to_owned() {
            Ok(CandidaturePosition::Councilor)
        } else if label == "Ministro".to_owned() {
            Ok(CandidaturePosition::Minister)
        } else if label == "Secretário".to_owned() {
            Ok(CandidaturePosition::Secretary)
        } else {
            Err(VoteError::UnknownPosition)
        }
    }
}

/// The label mapping is bidirectional: parsing any office's own label
/// yields exactly that office.
pub proof fn lemma_label_round_trip(p: CandidaturePosition)
    ensures
        CandidaturePosition::parse_label_spec(p.label_spec()) == Ok::<CandidaturePosition, VoteError>(p),
{
    reveal_strlit("Presidente");
    reveal_strlit("Vice-Presidente");
    reveal_strlit("Governador");
    reveal_strlit("Vice-Governador");
    reveal_strlit("Senador");
    reveal_strlit("Deputado Federal");
    reveal_strlit("Deputado Estadual");
    reveal_strlit("Prefeito");
    reveal_strlit("Vice-Prefeito");
    reveal_strlit("Vereador");
    reveal_strlit("Ministro");
    reveal_strlit("Secretário");
    assert("Presidente"@.len() == 10 && "Vice-Presidente"@.len() == 15 && "Governador"@.len() == 10);
    assert("Vice-Governador"@.len() == 15 && "Senador"@.len() == 7 && "Deputado Federal"@.len() == 16);
    assert("Deputado Estadual"@.len() == 17 && "Prefeito"@.len() == 8 && "Vice-Prefeito"@.len() == 13);
    assert("Vereador"@.len() == 8 && "Ministro"@.len() == 8 && "Secretário"@.len() == 10);
    assert("Presidente"@[0] == 'P' && "Governador"@[0] == 'G' && "Secretário"@[0] == 'S');
    assert("Vice-Presidente"@[5] == 'P' && "Vice-Governador"@[5] == 'G');
    assert("Prefeito"@[0] == 'P' && "Vereador"@[0] == 'V' && "Ministro"@[0] == 'M');
    assert("Governador"@ != "Presidente"@);
    assert("Secretário"@ != "Presidente"@ && "Secretário"@ != "Governador"@);
    assert("Vice-Governador"@ != "Vice-Presidente"@);
    assert("Vereador"@ != "Prefeito"@);
    assert("Ministro"@ != "Prefeito"@ && "Ministro"@ != "Vereador"@);
    assert(CandidaturePosition::parse_label_spec("Presidente"@) == Ok::<CandidaturePosition, VoteError>(
        CandidaturePosition::President,
    ));
    assert(CandidaturePosition::parse_label_spec("Vice-Presidente"@) == Ok::<CandidaturePosition, VoteError>(
        CandidaturePosition::VicePresident,
    ));
    assert(CandidaturePosition::parse_label_spec("Governador"@) == Ok::<CandidaturePosition, VoteError>(
        CandidaturePosition::Governor,
    ));
    assert(CandidaturePosition::parse_label_spec("Vice-Governador"@) == Ok::<CandidaturePosition, VoteError>(
        CandidaturePosition::ViceGovernor,
    ));
    assert(CandidaturePosition::parse_label_spec("Senador"@) == Ok::<CandidaturePosition, VoteError>(
        CandidaturePosition::Senator,
    ));
    assert(CandidaturePosition::parse_label_spec("Deputado Federal"@) == Ok::<CandidaturePosition, VoteError>(
        CandidaturePosition::FederalDeputy,
    ));
    assert(CandidaturePosition::parse_label_spec("Deputado Estadual"@) == Ok::<CandidaturePosition, VoteError>(
        CandidaturePosition::StateDeputy,
    ));
    assert(CandidaturePosition::parse_label_spec("Prefeito"@) == Ok::<CandidaturePosition, VoteError>(
        CandidaturePosition::Mayor,
    ));
    assert(CandidaturePosition::parse_label_spec("Vice-Prefeito"@) == Ok::<CandidaturePosition, VoteError>(
        CandidaturePosition::ViceMayor,
    ));
    assert(CandidaturePosition::parse_label_spec("Vereador"@) == Ok::<CandidaturePosition, VoteError>(
        CandidaturePosition::Councilor,
    ));
    assert(CandidaturePosition::parse_label_spec("Ministro"@) == Ok::<CandidaturePosition, VoteError>(
        CandidaturePosition::Minister,
    ));
    assert(CandidaturePosition::parse_label_spec("Secretário"@) == Ok::<CandidaturePosition, VoteError>(
        CandidaturePosition::Secretary,
    ));
}

/// A ballot entry: one candidate's run for one office in one year.
#[derive(Debug)]
pub struct Candidature {
    pub id: String,
    pub party_id: String,
    pub candidate_id: String,
    pub image_url: String,
    pub code: String,
    pub year: i32,
    pub position: CandidaturePosition,
}

impl Clone for Candidature {
    /// An exact copy, field by field.
    fn clone(&self) -> (r: Self)
        ensures
            r == *self,
    {
        Candidature {
            id: self.id.clone(),
            party_id: self.party_id.clone(),
            candidate_id: self.candidate_id.clone(),
            image_url: self.image_url.clone(),
            code: self.code.clone(),
            year: self.year,
            position: self.position,
        }
    }
}

/// `c` is the candidature a ballot for `(code, position, year)` names.
pub open spec fn cand_matches(c: Candidature, code: Seq<char>, position: CandidaturePosition, year: i32) -> bool {
    &&& c.code@ == code
    &&& c.position == position
    &&& c.year == year
}

/// How many candidatures in `items` match `(code, position, year)`.
pub open spec fn match_count(items: Seq<Candidature>, code: Seq<char>, position: CandidaturePosition, year: i32) -> nat
    decreases items.len(),
{
    if items.len() == 0 {
        0
    } else {
        match_count(items.drop_last(), code, position, year)
            + (if cand_matches(items.last(), code, position, year) { 1nat } else { 0nat })
    }
}

impl Candidature {
    /// Builds a candidature record for the machine's current calendar
    /// year, under a freshly generated identifier.
    pub fn build(
        party_id: String,
        candidate_id: String,
        code: String,
        position: CandidaturePosition,
        image_url: String,
    ) -> (r: Candidature)
        ensures
            r.party_id@ == party_id@,
            r.candidate_id@ == candidate_id@,
            r.code@ == code@,
            r.position == position,
            r.image_url@ == image_url@,
            r.id@.len() == 36,
    {
        let current_year = local_year();
        Candidature {
            id: fresh_id(),
            party_id,
            candidate_id,
            code,
            position,
            image_url,
            year: current_year,
        }
    }

    /// Lists the candidatures registered for `position` in `year`, each
    /// joined with its party's and candidate's display attributes.
    pub fn list(
        directory: &CandidatureDirectory,
        candidates: &Vec<Candidate>,
        parties: &Vec<Party>,
        position: CandidaturePosition,
        year: i32,
    ) -> (r: Vec<CandidatureInfo>)
        ensures
            r@ == listed(directory@, candidates@, parties@, position, year),
    {
        let mut out: Vec<CandidatureInfo> = Vec::new();
        let n = directory.len();
        let mut i: usize = 0;
        while i < n
            invariant
                n == directory@.len(),
                i <= n,
                out@ == listed(directory@.take(i as int), candidates@, parties@, position, year),
            decreases n - i,
        {
            let c = directory.get(i);
            proof {
                assert(directory@.take(i + 1).drop_last() =~= directory@.take(i as int));
                assert(directory@.take(i + 1).last() == directory@[i as int]);
            }
            if c.position == position && c.year == year {
                let ci = find_candidate(candidates, &c.candidate_id);
                let pi = find_party(parties, &c.party_id);
                match (ci, pi) {
                    (Some(ck), Some(pk)) => {
                        proof {
                            lemma_candidate_index_is(candidates@, c.candidate_id@, ck as int);
                            lemma_party_index_is(parties@, c.party_id@, pk as int);
                        }
                        let row = CandidatureInfo {
                            candidature: c.clone(),
                            party_name: parties[pk].name.clone(),
                            party_acronym: parties[pk].acronym.clone(),
                            candidate_first_name: candidates[ck].first_name.clone(),
                            candidate_last_name: candidates[ck].last_name.clone(),
                        };
                        out.push(row);
                    },
                    _ => {},
                }
            }
            i = i + 1;
        }
        proof {
            assert(directory@.take(n as int) =~= directory@);
        }
        out
    }
}

/// `i` is the position of the first candidature in `items` carrying `id`.
pub open spec fn first_candidature_with(items: Seq<Candidature>, id: Seq<char>, i: int) -> bool {
    &&& 0 <= i < items.len()
    &&& items[i].id@ == id
    &&& forall|j: int| 0 <= j < i ==> items[j].id@ != id
}

/// Some candidature in `items` carries `id`.
pub open spec fn has_candidature(items: Seq<Candidature>, id: Seq<char>) -> bool {
    exists|i: int| 0 <= i < items.len() && items[i].id@ == id
}

/// The position of the first candidature carrying `id`; meaningful only
/// when `has_candidature` holds.
pub open spec fn candidature_index(items: Seq<Candidature>, id: Seq<char>) -> int {
    choose|i: int| first_candidature_with(items, id, i)
}

/// A position satisfying `first_candidature_with` is unique, so it is
/// the one `candidature_index` denotes.
pub proof fn lemma_candidature_index_is(items: Seq<Candidature>, id: Seq<char>, i: int)
    requires
        first_candidature_with(items, id, i),
    ensures
        candidature_index(items, id) == i,
{
    assert(first_candidature_with(items, id, candidature_index(items, id)));
    let k = candidature_index(items, id);
    if k < i {
        assert(items[k].id@ != id);
    }
    if i < k {
        assert(items[i].id@ != id);
    }
}

/// One row of the candidature listing: a ballot entry joined with its
/// party's and candidate's display attributes.
#[derive(Debug)]
pub struct CandidatureInfo {
    pub candidature: Candidature,
    pub party_name: String,
    pub party_acronym: String,
    pub candidate_first_name: String,
    pub candidate_last_name: String,
}

/// Whether the listing can join `c` to a candidate and a party record.
pub open spec fn joinable(c: Candidature, cs: Seq<Candidate>, ps: Seq<Party>) -> bool {
    has_candidate(cs, c.candidate_id@) && has_party(ps, c.party_id@)
}

/// The listing row for `c`, joined at the first candidate and party
/// records carrying its identifiers.
pub open spec fn info_of(c: Candidature, cs: Seq<Candidate>, ps: Seq<Party>) -> CandidatureInfo {
    let ca = cs[candidate_index(cs, c.candidate_id@)];
    let p = ps[party_index(ps, c.party_id@)];
    CandidatureInfo {
        candidature: c,
        party_name: p.name,
        party_acronym: p.acronym,
        candidate_first_name: ca.first_name,
        candidate_last_name: ca.last_name,
    }
}

/// The rows the listing yields from `items`: the entries registered for
/// `(position, year)`, in registration order, each joined to its first
/// matching candidate and party records, and skipped when either record
/// is missing.
pub open spec fn listed(
    items: Seq<Candidature>,
    cs: Seq<Candidate>,
    ps: Seq<Party>,
    position: CandidaturePosition,
    year: i32,
) -> Seq<CandidatureInfo>
    decreases items.len(),
{
    if items.len() == 0 {
        Seq::empty()
    } else {
        let rest = listed(items.drop_last(), cs, ps, position, year);
        let c = items.last();
        if c.position == position && c.year == year && joinable(c, cs, ps) {
            rest.push(info_of(c, cs, ps))
        } else {
            rest
        }
    }
}

/// The read-only directory of registered candidatures. Populated once by
/// registration; resolution never mutates it.
#[derive(Debug)]
pub struct CandidatureDirectory {
    items: Vec<Candidature>,
}

impl View for CandidatureDirectory {
    type V = Seq<Candidature>;

    closed spec fn view(&self) -> Seq<Candidature> {
        self.items@
    }
}

impl CandidatureDirectory {
    /// Wraps the registered candidatures, in registration order.
    pub fn new(items: Vec<Candidature>) -> (r: CandidatureDirectory)
        ensures
            r@ == items@,
    {
        CandidatureDirectory { items }
    }

    /// How many candidatures are registered.
    pub fn len(&self) -> (n: usize)
        ensures
            n == self@.len(),
    {
        self.items.len()
    }

    /// The candidature at position `i`, in registration order.
    pub fn get(&self, i: usize) -> (r: &Candidature)
        requires
            i < self@.len(),
        ensures
            *r == self@[i as int],
    {
        &self.items[i]
    }

    /// Finds the first registered candidature carrying `id`, if any.
    pub fn find_by_id(&self, id: &String) -> (r: Option<usize>)
        ensures
            match r {
                Some(i) => first_candidature_with(self@, id@, i as int),
                None => !has_candidature(self@, id@),
            },
    {
        let mut i: usize = 0;
        while i < self.items.len()
            invariant
                i <= self@.len(),
                self@ == self.items@,
                forall|j: int| 0 <= j < i ==> self@[j].id@ != id@,
            decreases self@.len() - i,
        {
            if self.items[i].id == *id {
                return Some(i);
            }
            i = i + 1;
        }
        None
    }

    /// Resolves a ballot: returns the candidature matching
    /// `(code, position, year)` exactly when there is one and only one
    /// match; a missing or ambiguous ballot is `CandidatureNotFound`.
    pub fn resolve(&self, code: &String, position: CandidaturePosition, year: i32) -> (r: Result<Candidature, VoteError>)
        ensures
            (r matches Ok(c)) <==> match_count(self@, code@, position, year) == 1,
            r matches Ok(c) ==> cand_matches(c, code@, position, year)
                && (exists|i: int| 0 <= i < self@.len() && self@[i] == c),
            r matches Err(e) ==> e == VoteError::CandidatureNotFound,
    {
        let ghost full = self.items@;
        let mut found: Option<usize> = None;
        let mut count: usize = 0;
        let mut i: usize = 0;
        while i < self.items.len()
            invariant
                i <= full.len(),
                full == self.items@,
                count == match_count(full.take(i as int), code@, position, year),
                count <= i,
                match found {
                    Some(k) => k < i && cand_matches(full[k as int], code@, position, year) && count >= 1,
                    None => count == 0,
                },
            decreases full.len() - i,
        {
            let c = &self.items[i];
            let is_match = c.code == *code && c.position == position && c.year == year;
            proof {
                assert(full.take(i + 1).drop_last() =~= full.take(i as int));
                assert(full.take(i + 1).last() == full[i as int]);
            }
            if is_match {
                if found.is_none() {
                    found = Some(i);
                }
                count = count + 1;
            }
            i = i + 1;
        }
        proof {
            assert(full.take(full.len() as int) =~= full);
        }
        if count == 1 {
            match found {
                Some(k) => {
                    let c = self.items[k].clone();
                    proof {
                        assert(cand_matches(c, code@, position, year));
                        assert(0 <= k < self@.len() && self@[k as int] == c);
                    }
                    Ok(c)
                },
                None => Err(VoteError::CandidatureNotFound),
            }
        } else {
            Err(VoteError::CandidatureNotFound)
        }
    }
}

} // verus!
