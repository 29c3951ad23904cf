//! The random draws of the spawner, taken from the process-wide generator of
//! `macroquad::rand` (the `quad-rand` crate). Nothing is assumed of the
//! distribution: the contracts state only the range that every outcome of the
//! source arithmetic lies in.

use vstd::prelude::*;

use crate::shape::Color;

verus! {

/// Relies on `macroquad::rand::gen_range::<i64>` (quad-rand): it returns
/// `low + (high - low) * k / 2^32` computed in `f64` from a draw `k < 2^32`
/// and truncated toward zero, so for `0 <= low < high` within these bounds
/// every outcome lies in `[low, high]` (float rounding can land on `high`).
#[verifier::external_body]
pub(crate) fn gen_range_i64(low: i64, high: i64) -> (r: i64)
    requires
        0 <= low < high <= 100_000_000,
    ensures
        low <= r <= high,
{
    macroquad::rand::gen_range(low, high)
}

/// Relies on `macroquad::rand::ChooseRandom::choose` for slices: it draws an
/// index with `gen_range(0, len)` and returns `get(index)`, so any `Some`
/// result is an element of the slice.
#[verifier::external_body]
pub(crate) fn choose_color(colors: &Vec<Color>) -> (r: Option<Color>)
    ensures
        r matches Some(c) ==> colors@.contains(c),
{
    macroquad::rand::ChooseRandom::choose(colors.as_slice()).copied()
}

} // verus!
