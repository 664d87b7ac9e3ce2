//! Party records: the organisations candidatures run under.

use vstd::prelude::*;

use crate::sys::fresh_id;

verus! {

/// A registered party.
#[derive(Debug)]
pub struct Party {
    pub id: String,
    pub name: String,
    pub description: String,
    pub acronym: String,
}

impl Clone for Party {
    /// An exact copy, field by field.
    fn clone(&self) -> (r: Self)
        ensures
            r == *self,
    {
        Party {
            id: self.id.clone(),
            name: self.name.clone(),
            description: self.description.clone(),
            acronym: self.acronym.clone(),
        }
    }
}

impl Party {
    /// Builds a party record under a freshly generated identifier.
    pub fn build(name: String, description: String, acronym: String) -> (r: Party)
        ensures
            r.name@ == name@,
            r.description@ == description@,
            r.acronym@ == acronym@,
            r.id@.len() == 36,
    {
        Party { id: fresh_id(), name, description, acronym }
    }
}

/// `i` is the position of the first party in `ps` carrying `id`.
pub open spec fn first_party_with(ps: Seq<Party>, id: Seq<char>, i: int) -> bool {
    &&& 0 <= i < ps.len()
    &&& ps[i].id@ == id
    &&& forall|j: int| 0 <= j < i ==> ps[j].id@ != id
}

/// Some party in `ps` carries `id`.
pub open spec fn has_party(ps: Seq<Party>, id: Seq<char>) -> bool {
    exists|i: int| 0 <= i < ps.len() && ps[i].id@ == id
}

/// The position of the first party carrying `id`; meaningful only when
/// `has_party` holds.
pub open spec fn party_index(ps: Seq<Party>, id: Seq<char>) -> int {
    choose|i: int| first_party_with(ps, id, i)
}

/// A position satisfying `first_party_with` is unique, so it is the one
/// `party_index` denotes.
pub proof fn lemma_party_index_is(ps: Seq<Party>, id: Seq<char>, i: int)
    requires
        first_party_with(ps, id, i),
    ensures
        party_index(ps, id) == i,
{
    assert(first_party_with(ps, id, party_index(ps, id)));
    let k = party_index(ps, id);
    if k < i {
        assert(ps[k].id@ != id);
    }
    if i < k {
        assert(ps[i].id@ != id);
    }
}

/// Finds the first party carrying `id`, if any.
pub fn find_party(ps: &Vec<Party>, id: &String) -> (r: Option<usize>)
    ensures
        match r {
            Some(i) => first_party_with(ps@, id@, i as int),
            None => !has_party(ps@, id@),
        },
{
    let mut i: usize = 0;
    while i < ps.len()
        invariant
            i <= ps@.len(),
            forall|j: int| 0 <= j < i ==> ps@[j].id@ != id@,
        decreases ps@.len() - i,
    {
        if ps[i].id == *id {
            return Some(i);
        }
        i = i + 1;
    }
    None
}

} // verus!
