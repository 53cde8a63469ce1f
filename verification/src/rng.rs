//! The boundary to the `rand` crate: the walker's only source of randomness.

use vstd::prelude::*;

verus! {

/// Declares `rand`'s standard generator so it can appear in signatures; the
/// generator itself is opaque to the verifier.
#[verifier::external_type_specification]
#[verifier::external_body]
pub struct ExStdRng(rand::rngs::StdRng);

/// Relies on `rand`'s `Rng::gen_range` over a half-open `i64` range: the
/// draw lies in `[lo, hi)`. A non-empty range is required, so the call does
/// not panic. Nothing more is assumed of the draw.
#[verifier::external_body]
pub(crate) fn sample_range(rng: &mut rand::rngs::StdRng, lo: i64, hi: i64) -> (r: i64)
    requires
        lo < hi,
    ensures
        lo <= r < hi,
{
    rand::Rng::gen_range(rng, lo..hi)
}

} // verus!
