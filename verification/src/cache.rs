//! When a cached file may still be used.
use vstd::prelude::*;

verus! {

/// Seconds in one hour.
pub const SECONDS_PER_HOUR: u64 = 3600;

/// A cached file of the given age may still be used: it is younger than
/// `max_age_hours` hours.
pub open spec fn fresh(age_seconds: int, max_age_hours: int) -> bool {
    age_seconds < max_age_hours * 3600
}

/// Whether a cached file that was written `age_seconds` seconds ago is
/// younger than `max_age_hours` hours.
pub fn is_fresh(age_seconds: u64, max_age_hours: u64) -> (out: bool)
    ensures
        out == fresh(age_seconds as int, max_age_hours as int),
{
    match max_age_hours.checked_mul(SECONDS_PER_HOUR) {
        Some(limit) => age_seconds < limit,
        None => true,
    }
}

} // verus!
