//! Clocks: how the seconds are counted.

use crate::clock;
use std::time::SystemTime;
use vstd::prelude::*;

verus! {

/// From the epoch on both counts are the whole seconds since then. Before it the one count stands
/// at 0, and the other is the second that has begun, counted backwards: each part of a second
/// counts as one more.
pub proof fn law_seconds_since_the_epoch(reading: SystemTime)
    ensures
        clock::time_since_epoch(reading) matches Ok(passed) ==> {
            &&& clock::unix_time(reading) == clock::whole_seconds(passed)
            &&& clock::epoch_second(reading) == clock::whole_seconds(passed)
        },
        clock::time_since_epoch(reading) matches Err(error) ==> {
            let missing = clock::time_before(error);
            &&& clock::unix_time(reading) == 0
            &&& clock::nanoseconds_beyond(missing) == 0 ==> clock::epoch_second(reading)
                == -(clock::whole_seconds(missing) as int)
            &&& clock::nanoseconds_beyond(missing) > 0 ==> clock::epoch_second(reading)
                == -(clock::whole_seconds(missing) as int) - 1
        },
{
}

} // verus!
