//! The calls into the `rand` crate: seeding a generator from the operating
//! system, and drawing an integer from a range.
//!
//! What comes back from either is a matter of chance, so nothing is said of
//! which value it is, only of the range it lies in.

use rand::rngs::OsRng;
use rand::rngs::StdRng;
use rand::Rng;
use rand::SeedableRng;
use vstd::prelude::*;

verus! {

/// `rand::rngs::StdRng`, the generator. Verus sees nothing inside it.
#[verifier::external_type_specification]
#[verifier::external_body]
pub struct ExStdRng(StdRng);

/// `rand::Error`, why seeding failed. It is only ever dropped.
#[verifier::external_type_specification]
#[verifier::external_body]
pub struct ExRandError(rand::Error);

/// `StdRng::from_rng` on `OsRng`: a generator seeded with entropy of the
/// operating system, or the error with which the system refused it.
#[verifier::external_body]
pub(crate) fn seed_from_os() -> Result<StdRng, rand::Error> {
    StdRng::from_rng(OsRng)
}

/// `Rng::gen_range` on the half-open range from `low` to `high`. Assumed: the
/// value lies in the range. That each value of the range is as likely as any
/// other is the crate's promise and no part of this contract.
#[verifier::external_body]
pub(crate) fn draw_in_range(rng: &mut StdRng, low: usize, high: usize) -> (r: usize)
    requires
        low < high,
    ensures
        low <= r < high,
{
    rng.gen_range(low..high)
}

} // verus!
