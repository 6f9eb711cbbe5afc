//! The one source of chance the interpreter uses.

use rand::Rng;
use vstd::prelude::*;

verus! {

/// Relies on `rand::thread_rng` and `Rng::gen_range` over the non-empty range
/// `0..=255`: it returns some byte, any byte, so nothing is promised about it.
#[verifier::external_body]
pub(crate) fn random_byte() -> (r: u8) {
    rand::thread_rng().gen_range(0..=0xFFu8)
}

} // verus!
