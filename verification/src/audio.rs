//! Audio capture types shared by the recorder and the device listings.

use vstd::prelude::*;

verus! {

/// Sample rate of the PCM handed to the recognisers (mono).
pub const TARGET_SAMPLE_RATE: u32 = 16000;

/// Samples per pushed chunk (50 ms).
pub const CHUNK_SAMPLES: usize = 800;

/// An audio input device.
#[derive(Debug, Clone)]
pub struct AudioDevice {
    pub id: String,
    pub name: String,
}

} // verus!
