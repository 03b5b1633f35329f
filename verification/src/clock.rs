//! How often the meter asks for a redraw on its own.

use vstd::prelude::*;

verus! {

/// No frame follows the one before it sooner than this, in milliseconds.
pub const MIN_FRAME_INTERVAL_MS: u64 = 50;

/// The time between two lines of the text output, in milliseconds.
pub const TEXT_TICK_MS: u64 = 100;

/// The time between two synthetic redraw requests, in milliseconds: the
/// length of one audio block in whole milliseconds, but at least
/// [`MIN_FRAME_INTERVAL_MS`].
pub open spec fn frame_interval(block_size: int, sample_rate: int) -> int {
    let block_ms = (1000 * block_size) / sample_rate;
    if block_ms > MIN_FRAME_INTERVAL_MS {
        block_ms
    } else {
        MIN_FRAME_INTERVAL_MS as int
    }
}

/// The time between two synthetic redraw requests for blocks of
/// `block_size` samples at `sample_rate` samples per second.
pub fn frame_interval_ms(block_size: u32, sample_rate: u32) -> (ms: u64)
    requires
        sample_rate > 0,
    ensures
        ms == frame_interval(block_size as int, sample_rate as int),
        ms >= MIN_FRAME_INTERVAL_MS,
{
    let block_ms: u64 = 1000 * (block_size as u64) / (sample_rate as u64);
    if block_ms > MIN_FRAME_INTERVAL_MS {
        block_ms
    } else {
        MIN_FRAME_INTERVAL_MS
    }
}

} // verus!
