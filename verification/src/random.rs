//! Trusted access to the process's randomness: fresh identifiers and
//! uniform shuffles. Nothing is promised about which value comes back,
//! only what holds of every outcome.

use vstd::prelude::*;
use rand::seq::SliceRandom;

verus! {

/// Relies on uuid::Uuid::new_v4 and its hyphenated Display form,
/// which is always 36 characters long.
#[verifier::external_body]
pub fn fresh_id() -> (r: String)
    ensures
        r@.len() == 36,
{
    uuid::Uuid::new_v4().to_string()
}

/// Relies on rand::seq::SliceRandom::shuffle: the slice is permuted in
/// place, so it holds the same elements afterwards.
#[verifier::external_body]
pub fn shuffle_vec<T>(v: &mut Vec<T>)
    ensures
        final(v)@.to_multiset() == old(v)@.to_multiset(),
        final(v)@.len() == old(v)@.len(),
{
    let mut rng = rand::rng();
    v.shuffle(&mut rng);
}

} // verus!
