use vstd::prelude::*;

verus! {

/// Draws a value from the process-wide generator behind
/// `macroquad::rand::gen_range`, at type `i32`.
///
/// The generator scales a 32-bit draw `u` to `low + (high - low) * u / 2^32`
/// in double precision and truncates towards zero. For bounds of at most
/// 2^20 in magnitude every intermediate value is an exact double, so the
/// scaled value lies in `[low, high)`; truncation keeps it at or above `low`
/// and, when `high` is positive, below `high`. Nothing is claimed about which
/// value in that range comes back.
#[verifier::external_body]
pub(crate) fn gen_range_i32(low: i32, high: i32) -> (r: i32)
    requires
        -0x10_0000 <= low < high <= 0x10_0000,
    ensures
        low <= r <= high,
        0 < high ==> r < high,
{
    macroquad::rand::gen_range(low, high)
}

/// Draws a value from the process-wide generator behind
/// `macroquad::rand::gen_range`, at type `usize`.
///
/// The computation is the one described for `gen_range_i32`. When
/// `high` is at most 2^20 the scaled value is an exact double in
/// `[low, high)` and, being non-negative, truncates to an integer in the same
/// range. For larger bounds nothing is claimed.
#[verifier::external_body]
pub(crate) fn gen_range_usize(low: usize, high: usize) -> (r: usize)
    ensures
        low < high <= 0x10_0000 ==> low <= r < high,
{
    macroquad::rand::gen_range(low, high)
}

} // verus!
