//! The keyed digest that links consecutive ledger entries into one chain.

use vstd::prelude::*;

use hmac::Mac;

verus! {

/// What the keyed chain digest returns for a given key and the four bound
/// fields. HMAC-SHA-256 is far too large to restate here, and nothing
/// would check a restatement; the name records only that the result is a
/// function of the key and the fields alone.
pub uninterp spec fn chain_digest_of(
    key: Seq<u8>,
    voter_id: Seq<char>,
    candidature_id: Seq<char>,
    previous_hash: Seq<char>,
    previous_created_at: u64,
) -> Seq<char>;

/// Relies on hmac::Hmac<sha2::Sha256> and hex::encode. `new_from_slice`
/// accepts keys of any length (long keys are first hashed down), so it
/// never fails; the tag is 32 bytes and hex::encode yields two lowercase
/// digits per byte, hence 64 characters. The digest binds the voter, the
/// chosen candidature and the predecessor's hash and creation stamp (the
/// stamp fed as its decimal rendering), and depends on the key and these
/// fields alone.
#[verifier::external_body]
pub(crate) fn chain_digest(
    key: &Vec<u8>,
    voter_id: &str,
    candidature_id: &str,
    previous_hash: &str,
    previous_created_at: u64,
) -> (r: String)
    ensures
        r@ == chain_digest_of(key@, voter_id@, candidature_id@, previous_hash@, previous_created_at),
        r@.len() == 64,
{
    let mut mac = hmac::Hmac::<sha2::Sha256>::new_from_slice(key).expect("any key length is accepted");
    mac.update(voter_id.as_bytes());
    mac.update(candidature_id.as_bytes());
    mac.update(previous_hash.as_bytes());
    mac.update(previous_created_at.to_string().as_bytes());
    hex::encode(mac.finalize().into_bytes())
}

} // verus!
