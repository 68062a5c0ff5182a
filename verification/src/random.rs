//! The random numbers that place and speed up the snowflakes.
use rand::Rng;
use vstd::prelude::*;

verus! {

/// The handle to the thread-local generator of `rand`, carried through
/// unopened.
#[verifier::external_type_specification]
#[verifier::external_body]
pub struct ExThreadRng(rand::rngs::ThreadRng);

/// Calls `rand::thread_rng`, which hands out the generator of the current
/// thread.  Nothing is claimed of the handle.
#[verifier::external_body]
pub(crate) fn thread_rng() -> rand::rngs::ThreadRng {
    rand::thread_rng()
}

/// Calls `Rng::gen_range` on the half-open range `low..high`.  The claim is
/// what `rand` documents: the value lies in the range; `rand` panics on an
/// empty range, which the precondition rules out.  Which value of the range
/// comes out is left open: it is drawn at random.
#[verifier::external_body]
pub(crate) fn gen_range(rng: &mut rand::rngs::ThreadRng, low: i32, high: i32) -> (r: i32)
    requires
        low < high,
    ensures
        low <= r < high,
{
    rng.gen_range(low..high)
}

} // verus!
