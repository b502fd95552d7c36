//! The motion integrator: turns the deflection of a stick into whole pixels
//! per tick and carries the fraction to the next tick.
//!
//! Displacements are counted in millionths of a pixel.

use crate::fixed::{clamp, lemma_trunc_rem_bounds, split_toward_zero, trunc_div, trunc_rem};
use vstd::prelude::*;

verus! {

/// The number of carried units in one pixel.
pub const SUBPIXELS: i32 = 1_000_000;

/// The unit scale, 0.02, in thousandths.
pub const UNIT_MULTIPLIER: i32 = 20;

/// The length of one tick in milliseconds.
pub const POLL_TIME_MS: u16 = 1;

/// A pair of horizontal and vertical values.
#[derive(Clone, Copy, Debug, PartialEq, Eq, Structural)]
pub struct Vec2 {
    pub x: i32,
    pub y: i32,
}

/// The response curve of the stick: the deflection itself.
pub open spec fn eased(x: int) -> int {
    x
}

/// The exact displacement of one tick: deflection times speed times
/// multiplier times unit scale (all four in thousandths) times the length of
/// the tick. Its unit is a millionth of a millionth of a pixel.
pub open spec fn exact_displacement(axis: int, speed: int, gain: int, tick_ms: int) -> int {
    eased(axis) * speed * gain * UNIT_MULTIPLIER * tick_ms
}

/// The displacement of one tick in millionths of a pixel: the exact
/// displacement, rounded toward zero.
pub open spec fn displacement(axis: int, speed: int, gain: int, tick_ms: int) -> int {
    trunc_div(exact_displacement(axis, speed, gain, tick_ms), SUBPIXELS as int)
}

/// Rounding a displacement to a millionth of a pixel loses less than one
/// millionth, and never moves it away from zero.
pub proof fn lemma_displacement_error(axis: int, speed: int, gain: int, tick_ms: int)
    ensures
        -SUBPIXELS < exact_displacement(axis, speed, gain, tick_ms) - displacement(
            axis,
            speed,
            gain,
            tick_ms,
        ) * SUBPIXELS < SUBPIXELS,
        exact_displacement(axis, speed, gain, tick_ms) >= 0 ==> 0 <= displacement(
            axis,
            speed,
            gain,
            tick_ms,
        ) * SUBPIXELS <= exact_displacement(axis, speed, gain, tick_ms),
        exact_displacement(axis, speed, gain, tick_ms) <= 0 ==> exact_displacement(
            axis,
            speed,
            gain,
            tick_ms,
        ) <= displacement(axis, speed, gain, tick_ms) * SUBPIXELS <= 0,
{
    lemma_trunc_rem_bounds(exact_displacement(axis, speed, gain, tick_ms), SUBPIXELS as int);
}

/// The whole pixels in a displacement, rounded toward zero and held within
/// the range of a pointer move.
pub open spec fn whole_pixels(num: int) -> int {
    clamp(trunc_div(num, SUBPIXELS as int), i32::MIN as int, i32::MAX as int)
}

/// The signed fraction of a pixel that the whole pixels leave.
pub open spec fn carried(num: int) -> int {
    trunc_rem(num, SUBPIXELS as int)
}

/// Whether the whole pixels of a displacement fit a pointer move.
pub open spec fn in_reach(num: int) -> bool {
    i32::MIN <= trunc_div(num, SUBPIXELS as int) <= i32::MAX
}

fn ease(x: i32) -> (y: i32)
    ensures
        y == eased(x as int),
{
    x
}

/// Splits a displacement into whole pixels and the fraction that is left.
///
/// The whole part is rounded toward zero; the fraction has the sign of the
/// displacement and is less than a pixel. Unless the whole part had to be
/// held within range, the two add up to the displacement again.
pub fn integer_and_fractional(num: i128) -> (parts: (i32, i32))
    ensures
        parts.0 == whole_pixels(num as int),
        parts.1 == carried(num as int),
        -SUBPIXELS < parts.1 < SUBPIXELS,
        num >= 0 ==> parts.1 >= 0,
        num <= 0 ==> parts.1 <= 0,
        in_reach(num as int) ==> parts.0 * SUBPIXELS + parts.1 == num,
{
    proof {
        lemma_trunc_rem_bounds(num as int, SUBPIXELS as int);
    }
    let (whole, rest) = split_toward_zero(num, SUBPIXELS as i128);
    let pixels: i32 = if whole > i32::MAX as i128 {
        i32::MAX
    } else if whole < i32::MIN as i128 {
        i32::MIN
    } else {
        whole as i32
    };
    (pixels, rest as i32)
}

/// The sum of a list of displacements.
pub open spec fn total(raws: Seq<int>) -> int
    decreases raws.len(),
{
    if raws.len() == 0 {
        0
    } else {
        total(raws.drop_last()) + raws.last()
    }
}

/// The fraction that is carried after a run of ticks, one displacement per
/// tick, that started with `carry`.
pub open spec fn run_carry(carry: int, raws: Seq<int>) -> int
    decreases raws.len(),
{
    if raws.len() == 0 {
        carry
    } else {
        carried(raws.last() + run_carry(carry, raws.drop_last()))
    }
}

/// The whole pixels that a run of ticks has moved the pointer by.
pub open spec fn run_pixels(carry: int, raws: Seq<int>) -> int
    decreases raws.len(),
{
    if raws.len() == 0 {
        0
    } else {
        run_pixels(carry, raws.drop_last()) + whole_pixels(
            raws.last() + run_carry(carry, raws.drop_last()),
        )
    }
}

/// Whether every tick of a run stays within the reach of a pointer move.
pub open spec fn run_in_reach(carry: int, raws: Seq<int>) -> bool
    decreases raws.len(),
{
    if raws.len() == 0 {
        true
    } else {
        run_in_reach(carry, raws.drop_last()) && in_reach(
            raws.last() + run_carry(carry, raws.drop_last()),
        )
    }
}

/// No drift: over a run of any length, the whole pixels moved and the
/// fraction still carried add up to exactly what went in, the carry at the
/// start and every displacement since. This holds as long as no single tick
/// asks for more than a pointer move can hold.
pub proof fn lemma_no_drift(carry: int, raws: Seq<int>)
    requires
        run_in_reach(carry, raws),
    ensures
        run_pixels(carry, raws) * SUBPIXELS + run_carry(carry, raws) == carry + total(raws),
    decreases raws.len(),
{
    if raws.len() > 0 {
        let before = raws.drop_last();
        lemma_no_drift(carry, before);
        let num = raws.last() + run_carry(carry, before);
        lemma_trunc_rem_bounds(num, SUBPIXELS as int);
        assert((run_pixels(carry, before) + whole_pixels(num)) * SUBPIXELS == run_pixels(
            carry,
            before,
        ) * SUBPIXELS + whole_pixels(num) * SUBPIXELS) by (nonlinear_arith);
    }
}

/// The carried fraction is always less than a pixel: after one tick or
/// more, whatever went in; from the start, where the first carry is.
pub proof fn lemma_carry_below_a_pixel(carry: int, raws: Seq<int>)
    requires
        raws.len() > 0 || -SUBPIXELS < carry < SUBPIXELS,
    ensures
        -SUBPIXELS < run_carry(carry, raws) < SUBPIXELS,
{
    if raws.len() > 0 {
        lemma_trunc_rem_bounds(raws.last() + run_carry(carry, raws.drop_last()), SUBPIXELS as int);
    }
}

/// Each of a list of exact displacements, rounded toward zero to a
/// millionth of a pixel.
pub open spec fn rounded(exacts: Seq<int>) -> Seq<int> {
    Seq::new(exacts.len(), |i: int| trunc_div(exacts[i], SUBPIXELS as int))
}

/// Over a run of ticks, rounding each displacement loses less than one
/// millionth of a pixel per tick against the exact displacements.
pub proof fn lemma_rounding_is_bounded(exacts: Seq<int>)
    ensures
        -(exacts.len() * SUBPIXELS) <= total(exacts) - total(rounded(exacts)) * SUBPIXELS
            <= exacts.len() * SUBPIXELS,
        exacts.len() > 0 ==> -(exacts.len() * SUBPIXELS) < total(exacts) - total(rounded(exacts))
            * SUBPIXELS < exacts.len() * SUBPIXELS,
    decreases exacts.len(),
{
    if exacts.len() > 0 {
        let before = exacts.drop_last();
        lemma_rounding_is_bounded(before);
        lemma_trunc_rem_bounds(exacts.last(), SUBPIXELS as int);
        assert(rounded(exacts).drop_last() =~= rounded(before));
        assert(rounded(exacts).last() == trunc_div(exacts.last(), SUBPIXELS as int));
        assert((total(rounded(before)) + trunc_div(exacts.last(), SUBPIXELS as int)) * SUBPIXELS
            == total(rounded(before)) * SUBPIXELS + trunc_div(exacts.last(), SUBPIXELS as int)
            * SUBPIXELS) by (nonlinear_arith);
        assert(exacts.len() * SUBPIXELS == before.len() * SUBPIXELS + SUBPIXELS) by (nonlinear_arith)
            requires
                exacts.len() == before.len() + 1,
        ;
    }
}

} // verus!
