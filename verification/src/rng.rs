use vstd::prelude::*;

verus! {

/// Relies on rand::random: draws one machine word from the process-wide
/// generator. Nothing is assumed about the value drawn.
#[verifier::external_body]
fn random_usize() -> (r: usize) {
    rand::random()
}

/// Randomized tie-breaking for the simulation rules: some index below `n`.
/// Verified callers rely only on the bound, never on the distribution.
pub fn pick_index(n: usize) -> (r: usize)
    requires
        n > 0,
    ensures
        r < n,
{
    random_usize() % n
}

} // verus!
