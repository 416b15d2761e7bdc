//! The random source that identifiers are drawn from.

use rand::rngs::StdRng;
use rand::Rng;
use vstd::prelude::*;

verus! {

/// `rand::rngs::StdRng`, the generator that callers hand to the library. Its
/// state is opaque here.
#[verifier::external_type_specification]
#[verifier::external_body]
pub struct ExStdRng(StdRng);

/// Calls `rand::Rng::gen_range` for a `u64`. The claim: on `low < high` the
/// call returns, and the number it returns lies in the half-open range from
/// `low` up to, but not including, `high`. Nothing is said of which number of
/// the range comes back, nor of the generator's state afterwards.
#[verifier::external_body]
pub(crate) fn sample_u64(rng: &mut StdRng, low: u64, high: u64) -> (sample: u64)
    requires
        low < high,
    ensures
        low <= sample < high,
{
    rng.gen_range(low, high)
}

/// Calls `rand::Rng::gen_range` for a `u128`. The claim: on `low < high` the
/// call returns, and the number it returns lies in the half-open range from
/// `low` up to, but not including, `high`. Nothing is said of which number of
/// the range comes back, nor of the generator's state afterwards.
#[verifier::external_body]
pub(crate) fn sample_u128(rng: &mut StdRng, low: u128, high: u128) -> (sample: u128)
    requires
        low < high,
    ensures
        low <= sample < high,
{
    rng.gen_range(low, high)
}

} // verus!
