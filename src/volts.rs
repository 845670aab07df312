use vstd::prelude::*;

use crate::control::{gamma_of, ZSwitch};
use crate::mixer::dac_word;
use crate::sample::{Sample, U12_MAX};

verus! {

/// `value` scaled by `input` relative to the offset: `(input * value) / OFFSET`,
/// with the sample's own multiplication and division.
pub open spec fn attenuated(value: Sample, input: Sample) -> Sample {
    input.product(value).quotient(Sample::OFFSET as int)
}

/// Scales a knob value by a plugged input.
pub fn attenuate(value: Sample, input: Sample) -> (r: Sample)
    ensures
        r == attenuated(value, input),
{
    (input * value) / Sample::OFFSET
}

/// The value sent to the outputs from the main knob and the audio inputs.
pub open spec fn audio_output_of(knob: Sample, in1: Option<Sample>, in2: Option<Sample>) -> Sample {
    match (in1, in2) {
        (Some(a), Some(b)) => attenuated(knob, a.sum(b).quotient(2)),
        (Some(a), None) => attenuated(knob, a),
        (None, Some(b)) => attenuated(knob, b),
        (None, None) => knob,
    }
}

/// The main knob scaled by the audio inputs that are plugged in: by their
/// average when both are, by the one that is, or not at all.
pub fn audio_output(knob: Sample, in1: Option<Sample>, in2: Option<Sample>) -> (r: Sample)
    ensures
        r == audio_output_of(knob, in1, in2),
{
    match (in1, in2) {
        (Some(a), Some(b)) => {
            let average = (a + b) / 2;
            attenuate(knob, average)
        },
        (Some(a), None) => attenuate(knob, a),
        (None, Some(b)) => attenuate(knob, b),
        (None, None) => knob,
    }
}

/// A knob value scaled by its CV input when one is plugged in.
pub fn cv_output(knob: Sample, cv: Option<Sample>) -> (r: Sample)
    ensures
        r == (match cv {
            Some(c) => attenuated(knob, c),
            None => knob,
        }),
{
    match cv {
        Some(c) => attenuate(knob, c),
        None => knob,
    }
}

/// DAC configuration bits of the first channel: channel A, 2x gain, active.
pub const VOLTS_DAC_CONFIG_A: u16 = 0x1000;

/// DAC configuration bits of the second channel: channel B, 2x gain, active.
pub const VOLTS_DAC_CONFIG_B: u16 = 0x9000;

/// The DAC words for an output value: inverted on channel A, as it is on
/// channel B.
pub fn output_words(value: Sample) -> (r: (u16, u16))
    ensures
        r.0 == dac_word((U12_MAX - value.output()) as u16, VOLTS_DAC_CONFIG_A),
        r.1 == dac_word(value.output() as u16, VOLTS_DAC_CONFIG_B),
{
    let a = value.to_output_inverted();
    let b = value.to_output();
    assert(a << 4u16 >> 4u16 | 0x1000u16 == (a % 4096) + 0x1000u16) by (bit_vector);
    assert(b << 4u16 >> 4u16 | 0x9000u16 == (b % 4096) + 0x9000u16) by (bit_vector);
    (a << 4u16 >> 4u16 | VOLTS_DAC_CONFIG_A, b << 4u16 >> 4u16 | VOLTS_DAC_CONFIG_B)
}

/// Rough LED brightness correction for 11 bit levels.
pub fn led_gamma_11bit(value: u16) -> (r: u16)
    ensures
        r == gamma_of(value as int, 2048),
{
    let temp: u32 = value as u32;
    assert(temp * temp <= 65535 * 65535) by (nonlinear_arith)
        requires
            temp <= 65535,
    ;
    let g = (temp * temp) / 2048;
    if g > u16::MAX as u32 {
        u16::MAX
    } else {
        g as u16
    }
}

/// Levels of the two LEDs and two pulse outputs that show the switch.
#[derive(PartialEq, Eq, Structural, Copy, Clone, Debug)]
pub struct GateLevels {
    pub led5: bool,
    pub pulse1: bool,
    pub led6: bool,
    pub pulse2: bool,
}

/// Gate levels for a switch position: on or momentary lights LED 5 and pulls
/// pulse 1 low (the pulse outputs are inverted); off lights LED 6 and pulls
/// pulse 2 low.
pub fn gate_levels(zswitch: ZSwitch) -> (r: GateLevels)
    ensures
        r == (if zswitch == ZSwitch::Off {
            GateLevels { led5: false, pulse1: true, led6: true, pulse2: false }
        } else {
            GateLevels { led5: true, pulse1: false, led6: false, pulse2: true }
        }),
{
    match zswitch {
        ZSwitch::On | ZSwitch::Momentary => GateLevels {
            led5: true,
            pulse1: false,
            led6: false,
            pulse2: true,
        },
        ZSwitch::Off => GateLevels { led5: false, pulse1: true, led6: true, pulse2: false },
    }
}

} // verus!
