//! Compact calendar timestamps and the peak-season test, the helpers the
//! seasonal-pricing collaborator consults.

use vstd::prelude::*;

verus! {

/// The peak season: June through August of 2023, both bounds included, in
/// compact calendar form.
pub open spec fn spec_is_peak_season(current_time: u64) -> bool {
    20230601 <= current_time <= 20230831
}

/// Packs a calendar date into one monotonically comparable number:
/// `year * 10000 + month * 100 + day`.
pub fn get_timestamp(month: u64, year: u64, day: u64) -> (t: u64)
    requires
        year * 10000 + month * 100 + day <= u64::MAX,
    ensures
        t == year * 10000 + month * 100 + day,
{
    year * 10000 + month * 100 + day
}

/// Whether `current_time` falls in the peak season.
pub fn is_peak_season(current_time: u64) -> (r: bool)
    ensures
        r == spec_is_peak_season(current_time),
{
    let peak_season_start = get_timestamp(6, 2023, 1);
    let peak_season_end = get_timestamp(8, 2023, 31);
    current_time >= peak_season_start && current_time <= peak_season_end
}

} // verus!
