//! Random draws, verified on top of one trusted source of 64 random bits.

use vstd::prelude::*;

verus! {

/// Relies on `rand::random::<u64>` for a fresh 64-bit draw; nothing is
/// assumed about the value.
#[verifier::external_body]
fn random_u64() -> u64 {
    rand::random::<u64>()
}

/// A draw in `[lo, hi)`. Every value of the draw gives a result in range.
pub fn rand_range(lo: i64, hi: i64) -> (r: i64)
    requires
        lo < hi,
    ensures
        lo <= r < hi,
{
    let span: u64 = ((hi as i128) - (lo as i128)) as u64;
    let x: u64 = random_u64() % span;
    ((lo as i128) + (x as i128)) as i64
}

/// A fair draw between two alternatives.
pub fn rand_bool() -> bool {
    random_u64() % 2 == 0
}

} // verus!
