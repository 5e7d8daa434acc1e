//! The work that a blocking task of the demonstration does: a long sum
//! that goes up and down again, with every step checked.

use vstd::prelude::*;

verus! {

/// The number of rounds of the sum.
pub const HEAVY_COMPUTATION_ROUNDS: i32 = 1000000;

/// Why the sum broke off.
#[derive(Clone, Copy, Debug, PartialEq, Eq, Structural)]
pub enum ComputationFault {
    /// A step upwards left the range of the numbers.
    Overflow,
    /// A step downwards left the range of the numbers.
    Underflow,
}

/// Adds each number below `HEAVY_COMPUTATION_ROUNDS` to a sum and takes it
/// off again at once. No step leaves the range of the numbers, and the sum
/// ends where it began, at zero.
pub fn heavy_computation() -> (r: Result<i32, ComputationFault>)
    ensures
        r == Ok::<i32, ComputationFault>(0),
{
    let mut sum: i32 = 0;
    let mut i: i32 = 0;
    while i < HEAVY_COMPUTATION_ROUNDS
        invariant
            0 <= i <= HEAVY_COMPUTATION_ROUNDS,
            sum == 0,
        decreases HEAVY_COMPUTATION_ROUNDS - i,
    {
        sum = match sum.checked_add(i) {
            Some(value) => value,
            None => {
                return Err(ComputationFault::Overflow);
            },
        };
        sum = match sum.checked_sub(i) {
            Some(value) => value,
            None => {
                return Err(ComputationFault::Underflow);
            },
        };
        i = i + 1;
    }
    Ok(sum)
}

} // verus!
