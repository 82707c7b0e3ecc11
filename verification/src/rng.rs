//! Trusted access to the process-wide pseudo-random source.
//!
//! Nothing useful can be promised about which value comes back; each
//! contract states only the range that the drawn value lies in, which is
//! what the crate's documentation of these functions guarantees.
use vstd::prelude::*;

verus! {

/// Relies on fastrand::usize: returns a value drawn from `0..=limit`.
/// The range is never empty, so the call cannot panic.
#[verifier::external_body]
pub(crate) fn random_usize_upto(limit: usize) -> (r: usize)
    ensures
        r <= limit,
{
    fastrand::usize(0..=limit)
}

/// Relies on fastrand::i64: returns a value drawn from `lo..=hi`.  The
/// precondition keeps the range nonempty, so the call cannot panic.
#[verifier::external_body]
pub(crate) fn random_i64_between(lo: i64, hi: i64) -> (r: i64)
    requires
        lo <= hi,
    ensures
        lo <= r <= hi,
{
    fastrand::i64(lo..=hi)
}

} // verus!
