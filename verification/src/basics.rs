//! Simulated units of work.

use vstd::prelude::*;

verus! {

/// Factor by which a unit of work scales its duration into its result.
pub const RESULT_FACTOR: u64 = 10;

/// The value a unit of work that lasts `seconds` seconds produces.
pub open spec fn spec_work_result(seconds: u64) -> int {
    seconds * RESULT_FACTOR
}

/// The result of a unit of work that lasts `seconds` seconds: ten times the
/// duration.  The product must fit in a `u64`.
pub fn work_result(seconds: u64) -> (result: u64)
    requires
        spec_work_result(seconds) <= u64::MAX,
    ensures
        result == spec_work_result(seconds),
        result == seconds * 10,
{
    seconds * RESULT_FACTOR
}

/// Every unit of work that lasts `seconds` seconds, for every duration
/// whose tenfold fits in a `u64`, yields exactly ten times its duration:
/// doubling the duration doubles the result, and one more second adds ten.
pub proof fn lemma_work_result_is_tenfold(seconds: u64)
    requires
        seconds * 10 <= u64::MAX,
    ensures
        spec_work_result(seconds) == seconds * 10,
        seconds + 1 <= u64::MAX && (seconds + 1) * 10 <= u64::MAX ==> spec_work_result(
            (seconds + 1) as u64,
        ) == spec_work_result(seconds) + 10,
{
}

} // verus!
