//! Random number generation built-ins.

use vstd::prelude::*;
use rand::Rng;
use crate::error::Result;
use crate::value::Value;

verus! {

#[verifier::external_type_specification]
#[verifier::external_body]
pub struct ExThreadRng(rand::rngs::ThreadRng);

/// `rand::thread_rng`: a handle to the thread-local generator. Nothing is
/// claimed of it.
#[verifier::external_body]
fn thread_rng() -> (r: rand::rngs::ThreadRng) {
    rand::thread_rng()
}

/// `Rng::gen_range` over `lo..hi`: claimed to return a number of the
/// half-open range, which must not be empty (the crate panics on an empty
/// range). Which number comes out is left to chance.
#[verifier::external_body]
fn gen_range_i64(rng: &mut rand::rngs::ThreadRng, lo: i64, hi: i64) -> (r: i64)
    requires
        lo < hi,
    ensures
        lo <= r < hi,
{
    rng.gen_range(lo..hi)
}

/// The rand built-in object for random number generation.
pub struct RandBuiltin;

impl RandBuiltin {
    /// A random integer from `min` (inclusive) to `max` (exclusive); when
    /// `min > max` the bounds are swapped first. The bounds must differ: the
    /// range would be empty.
    pub fn int_range(min: i64, max: i64) -> (r: Result<Value>)
        requires
            min != max,
        ensures
            r matches Ok(Value::Int(x)) && (if min < max {
                min <= x < max
            } else {
                max <= x < min
            }),
    {
        let (lo, hi) = if min < max {
            (min, max)
        } else {
            (max, min)
        };
        let mut rng = thread_rng();
        let random = gen_range_i64(&mut rng, lo, hi);
        Ok(Value::Int(random))
    }
}

} // verus!
