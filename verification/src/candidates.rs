//! Candidate records: the people whose names appear in listings and
//! tallies.

use vstd::prelude::*;

use crate::sys::fresh_id;

verus! {

/// A registered candidate.
#[derive(Debug)]
pub struct Candidate {
    pub id: String,
    pub first_name: String,
    pub last_name: String,
}

impl Clone for Candidate {
    /// An exact copy, field by field.
    fn clone(&self) -> (r: Self)
        ensures
            r == *self,
    {
        Candidate {
            id: self.id.clone(),
            first_name: self.first_name.clone(),
            last_name: self.last_name.clone(),
        }
    }
}

impl Candidate {
    /// Builds a candidate record under a freshly generated identifier.
    pub fn build(first_name: String, last_name: String) -> (r: Candidate)
        ensures
            r.first_name@ == first_name@,
            r.last_name@ == last_name@,
            r.id@.len() == 36,
    {
        Candidate { id: fresh_id(), first_name, last_name }
    }
}

/// `i` is the position of the first candidate in `cs` carrying `id`.
pub open spec fn first_candidate_with(cs: Seq<Candidate>, id: Seq<char>, i: int) -> bool {
    &&& 0 <= i < cs.len()
    &&& cs[i].id@ == id
    &&& forall|j: int| 0 <= j < i ==> cs[j].id@ != id
}

/// Some candidate in `cs` carries `id`.
pub open spec fn has_candidate(cs: Seq<Candidate>, id: Seq<char>) -> bool {
    exists|i: int| 0 <= i < cs.len() && cs[i].id@ == id
}

/// The position of the first candidate carrying `id`; meaningful only
/// when `has_candidate` holds.
pub open spec fn candidate_index(cs: Seq<Candidate>, id: Seq<char>) -> int {
    choose|i: int| first_candidate_with(cs, id, i)
}

/// A position satisfying `first_candidate_with` is unique, so it is the
/// one `candidate_index` denotes.
pub proof fn lemma_candidate_index_is(cs: Seq<Candidate>, id: Seq<char>, i: int)
    requires
        first_candidate_with(cs, id, i),
    ensures
        candidate_index(cs, id) == i,
{
    assert(first_candidate_with(cs, id, candidate_index(cs, id)));
    let k = candidate_index(cs, id);
    if k < i {
        assert(cs[k].id@ != id);
    }
    if i < k {
        assert(cs[i].id@ != id);
    }
}

/// Finds the first candidate carrying `id`, if any.
pub fn find_candidate(cs: &Vec<Candidate>, id: &String) -> (r: Option<usize>)
    ensures
        match r {
            Some(i) => first_candidate_with(cs@, id@, i as int),
            None => !has_candidate(cs@, id@),
        },
{
    let mut i: usize = 0;
    while i < cs.len()
        invariant
            i <= cs@.len(),
            forall|j: int| 0 <= j < i ==> cs@[j].id@ != id@,
        decreases cs@.len() - i,
    {
        if cs[i].id == *id {
            return Some(i);
        }
        i = i + 1;
    }
    None
}

} // verus!
