//! Random numbers, by the `rand` crate.

use rand::Rng;
use vstd::prelude::*;

verus! {

/// `rand::Rng::gen_range` on the thread's generator: some number below the
/// limit. Which one is left to chance.
#[verifier::external_body]
pub(crate) fn random_below(limit: u64) -> (res: u64)
    requires
        limit > 0,
    ensures
        res < limit,
{
    rand::thread_rng().gen_range(0..limit)
}

/// `rand::Rng::fill` on the thread's generator: sixteen random bytes. Nothing
/// can be said of them.
#[verifier::external_body]
pub(crate) fn random_key() -> (res: [u8; 16]) {
    let mut key = [0u8; 16];
    rand::thread_rng().fill(&mut key);
    key
}

} // verus!
