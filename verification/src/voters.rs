//! Voter records. The ledger refers to voters only by their identifier;
//! the record itself carries registration data.

use vstd::prelude::*;

use crate::sys::fresh_id;

verus! {

/// A registered voter.
#[derive(Debug)]
pub struct Voter {
    pub id: String,
    pub first_name: String,
    pub last_name: String,
    pub mother_name: String,
    pub father_name: String,
    pub birth_date: String,
}

impl Voter {
    /// Builds a voter record under a freshly generated identifier.
    pub fn build(
        first_name: String,
        last_name: String,
        mother_name: String,
        father_name: String,
        birth_date: String,
    ) -> (r: Voter)
        ensures
            r.first_name@ == first_name@,
            r.last_name@ == last_name@,
            r.mother_name@ == mother_name@,
            r.father_name@ == father_name@,
            r.birth_date@ == birth_date@,
            r.id@.len() == 36,
    {
        Voter { id: fresh_id(), first_name, last_name, mother_name, father_name, birth_date }
    }
}

} // verus!
