use vstd::prelude::*;

use crate::sample::{shr3_wide, whole, Sample};

verus! {

/// Largest smoothed difference between the probe and the direct reading, in
/// whole units, at which a cable still counts as plugged. Calibrated on the
/// hardware's divider network; adjust for other units.
pub const PLUG_THRESHOLD: i64 = 300;

/// Difference between the probe and the direct reading, in whole units.
pub open spec fn probe_difference(raw: Sample, probe: Sample) -> int {
    whole(probe.accumulated() - raw.accumulated())
}

/// Input from a jack that may or may not have a cable plugged in.
///
/// Both readings are expected to be updated regularly. While the
/// normalisation probe is driven, an unplugged jack receives a fixed voltage,
/// so the probe reading rises well above the direct one; with a cable plugged
/// in the two stay close. Both readings are smoothed, which keeps a brief
/// coincidence on the cable from reading as unplugged.
#[derive(PartialEq, Eq, Structural, Copy, Clone, Debug)]
pub struct JackSample {
    /// Reading taken with the probe off.
    pub raw: Sample,
    /// Reading taken with the probe driven.
    pub probe: Sample,
}

impl JackSample {
    /// Whether a cable counts as plugged into this jack.
    pub open spec fn is_plugged(self) -> bool {
        probe_difference(self.raw, self.probe) <= PLUG_THRESHOLD
    }

    /// A jack from its two readings.
    pub fn new(raw: Sample, probe: Sample) -> (r: JackSample)
        ensures
            r.raw == raw,
            r.probe == probe,
    {
        JackSample { raw, probe }
    }

    /// The direct reading when a cable is plugged in, else nothing.
    pub fn plugged_value(&self) -> (r: Option<&Sample>)
        ensures
            r == (if self.is_plugged() {
                Some(&self.raw)
            } else {
                None
            }),
    {
        let diff: i64 = self.probe.accumulated_raw as i64 - self.raw.accumulated_raw as i64;
        let diff = shr3_wide(diff);
        if diff > PLUG_THRESHOLD {
            None
        } else {
            Some(&self.raw)
        }
    }
}

} // verus!
