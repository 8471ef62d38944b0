use rand::rngs::ThreadRng;
use rand::Rng;
use vstd::prelude::*;
use crate::geometry::scalar::Scalar;

verus! {

/// The generator of random numbers that each thread has for itself.
#[verifier::external_type_specification]
#[verifier::external_body]
pub struct ExThreadRng(ThreadRng);

/// `rand::thread_rng`: a handle on the calling thread's generator. Nothing is
/// claimed of it.
#[verifier::external_body]
pub(crate) fn thread_rng() -> ThreadRng {
    rand::thread_rng()
}

/// `Rng::gen_range` on `usize`: a number drawn from `low` up to, but not
/// including, `high`. The call panics unless `low < high`, so that is asked
/// of the caller; which number comes is not told.
#[verifier::external_body]
pub(crate) fn gen_range(rng: &mut ThreadRng, low: usize, high: usize) -> (n: usize)
    requires
        low < high,
    ensures
        low <= n < high,
{
    rng.gen_range(low, high)
}

/// A random index from `min` up to, but not including, `max`.
pub fn random_int(min: usize, max: usize) -> (n: usize)
    requires
        min < max,
    ensures
        min <= n < max,
{
    let mut rng = thread_rng();
    gen_range(&mut rng, min, max)
}

/// What [`clamp`] returns.
pub open spec fn clamped(x: Scalar, min: Scalar, max: Scalar) -> Scalar {
    if x.spec_lt(min) {
        min
    } else if x.spec_gt(max) {
        max
    } else {
        x
    }
}

/// `x` held between `min` and `max`: `min` if `x` is below it, `max` if `x`
/// is above it, else `x` itself, which is also what comes back where `x` is
/// not a number.
pub fn clamp(x: Scalar, min: Scalar, max: Scalar) -> (r: Scalar)
    ensures
        r == clamped(x, min, max),
{
    if x.lt(min) {
        min
    } else if x.gt(max) {
        max
    } else {
        x
    }
}

/// Between two bounds in order, what is clamped lies between them.
pub proof fn lemma_clamped_in_bounds(x: Scalar, min: Scalar, max: Scalar)
    requires
        min.spec_le(max),
        !x.spec_is_nan(),
    ensures
        min.spec_le(clamped(x, min, max)),
        clamped(x, min, max).spec_le(max),
{
}

} // verus!
