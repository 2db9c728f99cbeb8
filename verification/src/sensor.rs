//! How often the temperature sensor is asked before the thermostat gives
//! up on a reading.

use vstd::prelude::*;

verus! {

/// The number of attempts at one reading.
pub const MAX_RETRIES: u8 = 3;

/// What follows an attempt at a reading.
#[derive(Debug, Clone, Copy, PartialEq, Eq, Structural)]
pub enum Progress {
    /// The sensor gave a measurement: the reading is taken.
    Taken,
    /// The attempt failed and the attempt of this number is made next.
    Retry { attempt: u8 },
    /// The last attempt failed: there is no reading.
    Failed,
}

/// What follows attempt number `attempt`, counted from 1, which
/// `succeeded` or not.
pub open spec fn progress(attempt: u8, succeeded: bool) -> Progress {
    if succeeded {
        Progress::Taken
    } else if attempt < MAX_RETRIES {
        Progress::Retry { attempt: (attempt + 1) as u8 }
    } else {
        Progress::Failed
    }
}

/// Decides what follows attempt number `attempt`, counted from 1
/// ([`progress`]): a measurement ends the reading, a failure is followed by
/// another attempt until [`MAX_RETRIES`] have been made, so that no attempt
/// has a number beyond that.
pub fn after_attempt(attempt: u8, succeeded: bool) -> (next: Progress)
    ensures
        next == progress(attempt, succeeded),
        (next matches Progress::Retry { attempt: following } ==> attempt < following
            <= MAX_RETRIES),
{
    if succeeded {
        Progress::Taken
    } else if attempt < MAX_RETRIES {
        Progress::Retry { attempt: attempt + 1 }
    } else {
        Progress::Failed
    }
}

} // verus!
