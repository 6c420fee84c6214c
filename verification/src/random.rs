use rand::{Rng, RngCore};
use vstd::prelude::*;

verus! {

/// `rand::thread_rng().fill_bytes` on a buffer of `n` bytes: the result has
/// exactly `n` bytes; their values are random and not stated.
#[verifier::external_body]
pub(crate) fn random_bytes(n: usize) -> (r: Vec<u8>)
    ensures
        r@.len() == n,
{
    let mut buf = vec![0u8; n];
    rand::thread_rng().fill_bytes(&mut buf);
    buf
}

/// `rand::thread_rng().next_u32()`: any `u32`.
#[verifier::external_body]
pub(crate) fn random_u32() -> u32 {
    rand::thread_rng().next_u32()
}

/// `rand::thread_rng().gen_range(lo..=hi)`: some value in `lo..=hi` (the range
/// must not be empty, or `gen_range` panics).
#[verifier::external_body]
pub(crate) fn random_in_inclusive(lo: usize, hi: usize) -> (r: usize)
    requires
        lo <= hi,
    ensures
        lo <= r <= hi,
{
    rand::thread_rng().gen_range(lo..=hi)
}

/// `rand::thread_rng().gen_range(lo..hi)`: some value in `lo..hi` (the range
/// must not be empty, or `gen_range` panics).
#[verifier::external_body]
pub(crate) fn random_in_exclusive(lo: usize, hi: usize) -> (r: usize)
    requires
        lo < hi,
    ensures
        lo <= r < hi,
{
    rand::thread_rng().gen_range(lo..hi)
}

} // verus!
