use vstd::prelude::*;
use rand::Rng;

verus! {

/// Relies on rand::Rng::gen_range over a half-open `i64` range: the draw is a
/// value within the given bounds, and the call panics only on an empty range,
/// which the precondition rules out. Nothing more is assumed of the outcome.
#[verifier::external_body]
pub fn random_in_range(low: i64, high: i64) -> (r: i64)
    requires
        low < high,
    ensures
        low <= r < high,
{
    rand::thread_rng().gen_range(low..high)
}

} // verus!
