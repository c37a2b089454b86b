//! Arithmetic on single 16-bit samples.

use vstd::prelude::*;

verus! {

/// The nearest 16-bit value to `x`: results that leave the range clip to it.
pub open spec fn clip16(x: int) -> i16 {
    if x > 32767 {
        32767
    } else if x < -32768 {
        -32768i16
    } else {
        x as i16
    }
}

/// Clips a wide intermediate result to a 16-bit sample.
pub fn saturate(x: i32) -> (r: i16)
    ensures
        r == clip16(x as int),
{
    if x > 32767 {
        32767
    } else if x < -32768 {
        -32768
    } else {
        x as i16
    }
}

} // verus!
