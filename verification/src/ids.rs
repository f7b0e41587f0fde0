//! Fresh correlation ids for requests.
use vstd::prelude::*;

verus! {

/// A fresh correlation id: `uuid::Uuid::new_v4()` rendered with `to_string()`.
///
/// Trusted: the id is random, so nothing is claimed of its value beyond the
/// length of the hyphenated form the `uuid` crate's `Display` writes (36
/// characters). That two calls give different ids is not stated.
#[verifier::external_body]
pub fn new_cid() -> (r: String)
    ensures
        r@.len() == 36,
{
    uuid::Uuid::new_v4().to_string()
}

} // verus!
