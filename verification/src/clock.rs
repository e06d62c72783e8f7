use vstd::prelude::*;

verus! {

/// Seconds since the Unix epoch now, by `std::time::SystemTime::elapsed` on the epoch
/// (0 when the clock reads before the epoch). Nothing is stated of the value: it is the
/// time.
#[verifier::external_body]
pub(crate) fn unix_timestamp() -> u64 {
    std::time::UNIX_EPOCH.elapsed().map(|d| d.as_secs()).unwrap_or(0)
}

} // verus!
