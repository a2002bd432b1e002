//! Random numbers for dungeon generation and spawning.

use vstd::prelude::*;

verus! {

#[verifier::external_type_specification]
#[verifier::external_body]
pub struct ExRandomNumberGenerator(rltk::RandomNumberGenerator);

/// Calls `rltk::RandomNumberGenerator::new`, which seeds a generator from the
/// operating system; nothing is claimed of its state.
#[verifier::external_body]
pub(crate) fn new_generator() -> (rng: rltk::RandomNumberGenerator) {
    rltk::RandomNumberGenerator::new()
}

/// Calls `rltk::RandomNumberGenerator::range` on `i32` bounds: the result is
/// at least `min` and below `max`. The outside function panics on an empty
/// interval, which `requires` leaves out.
#[verifier::external_body]
pub(crate) fn range(rng: &mut rltk::RandomNumberGenerator, min: i32, max: i32) -> (r: i32)
    requires
        min < max,
    ensures
        min <= r < max,
{
    rng.range(min, max)
}

/// Calls `rltk::RandomNumberGenerator::roll_dice`, which adds up `n` draws
/// from 1 to `die_type`: with no dice the sum is 0, else it is at least `n`
/// and at most `n` times `die_type`. Each draw is from the interval that ends
/// before `die_type + 1`, and the sum is an `i32`, so `requires` keeps the
/// interval non-empty and both numbers in range.
#[verifier::external_body]
pub(crate) fn roll_dice(rng: &mut rltk::RandomNumberGenerator, n: i32, die_type: i32) -> (r: i32)
    requires
        n > 0 ==> 1 <= die_type < i32::MAX && n * die_type <= i32::MAX,
    ensures
        n > 0 ==> n <= r <= n * die_type,
        n <= 0 ==> r == 0,
{
    rng.roll_dice(n, die_type)
}

} // verus!
