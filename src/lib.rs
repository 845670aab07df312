//! Signal pipeline of a rain soundscape for a Eurorack computer module:
//! smoothed fixed-point samples, plugged-cable detection on jacks, an endless
//! stream decoder over IMA ADPCM corpora, the intensity-weighted mixer of
//! three rain textures, the bounded queue towards the DAC, and the control
//! logic that derives the intensity.

use vstd::prelude::*;

pub mod control;
pub mod decoder;
pub mod jack;
pub mod mixer;
pub mod queue;
pub mod sample;
pub mod volts;

pub use jack::JackSample;
pub use sample::{Sample, SampleUpdate, U12_MAX};

verus! {

} // verus!
