use vstd::prelude::*;

verus! {

/// Relies on uuid::Uuid::new_v4: a freshly drawn random version-4 UUID,
/// carried as its 128-bit value. The draw is random, so nothing is promised
/// of the value; callers state what holds of every outcome.
#[verifier::external_body]
pub(crate) fn mint_id() -> u128 {
    uuid::Uuid::new_v4().as_u128()
}

} // verus!
