//! Frame timing of an output.
use vstd::prelude::*;

verus! {

/// The time one frame lasts, in microseconds, on an output that runs at
/// `refresh` thousandths of a hertz; sixteen milliseconds where no mode is set.
pub fn output_frame_interval(refresh: Option<i32>) -> (r: u64)
    requires
        refresh != Some(0i32),
    ensures
        match refresh {
            Some(mhz) => if mhz > 0 {
                r == 1_000_000_000int / (mhz as int)
            } else {
                r == 0
            },
            None => r == 16_000,
        },
{
    match refresh {
        Some(mhz) => if mhz > 0 {
            1_000_000_000u64 / (mhz as u64)
        } else {
            0
        },
        None => 16_000,
    }
}

} // verus!
