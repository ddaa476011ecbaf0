//! Audio data handling: MIDI timelines, the voice table of the actors'
//! source, and the layout of sample blocks.

use vstd::prelude::*;

pub mod actors;
pub mod blocks;
pub mod dsp;
pub mod midi;
pub mod wav;

verus! {

/// Number of output channels (stereo).
pub const CHANNELS_COUNT: usize = 2;

/// Number of samples per channel in one processed block.
pub const BLOCK_SIZE: usize = 512;

} // verus!
