use vstd::prelude::*;

use crate::jack::JackSample;
use crate::sample::{abs_int, div_trunc, Sample, SampleUpdate, U12_MAX};

verus! {

/// Readings below this put the three position switch in its momentary position.
pub const SWITCH_LOW: u16 = 1000;

/// Readings above this put the three position switch in its on position.
pub const SWITCH_HIGH: u16 = 3000;

/// The LFO moves one step every this many control ticks.
pub const LFO_DIVIDER: usize = 64;

/// Position of the three position Z switch.
#[derive(PartialEq, Eq, Structural, Copy, Clone, Debug)]
pub enum ZSwitch {
    On,
    Off,
    Momentary,
}

impl ZSwitch {
    /// The switch at rest.
    pub fn default() -> (r: ZSwitch)
        ensures
            r == ZSwitch::Off,
    {
        ZSwitch::Off
    }

    /// Position read from the switch's ADC level.
    pub fn from_level(level: u16) -> (r: ZSwitch)
        ensures
            r == (if level < SWITCH_LOW {
                ZSwitch::Momentary
            } else if level > SWITCH_HIGH {
                ZSwitch::On
            } else {
                ZSwitch::Off
            }),
    {
        if level < SWITCH_LOW {
            ZSwitch::Momentary
        } else if level > SWITCH_HIGH {
            ZSwitch::On
        } else {
            ZSwitch::Off
        }
    }
}

/// A jack at rest: both readings centred, from an inverted source.
pub open spec fn idle_jack() -> JackSample {
    JackSample { raw: Sample::of(0, true), probe: Sample::of(0, true) }
}

/// Latest values of the inputs behind the multiplexer.
#[derive(PartialEq, Eq, Structural, Copy, Clone, Debug)]
pub struct MuxState {
    pub main_knob: Sample,
    pub x_knob: Sample,
    pub y_knob: Sample,
    pub zswitch: ZSwitch,
    pub cv1: JackSample,
    pub cv2: JackSample,
    /// Counts input cycles, wrapping; used for rate reports only.
    pub sequence_counter: usize,
}

/// A jack at rest.
fn idle_jack_sample() -> (r: JackSample)
    ensures
        r == idle_jack(),
{
    JackSample::new(Sample::new(Sample::CENTER, true), Sample::new(Sample::CENTER, true))
}

impl MuxState {
    /// Knobs centred, switch off, CV jacks at rest (their data comes
    /// inverted), counter at zero.
    pub fn default() -> (r: Self)
        ensures
            r.main_knob == Sample::of(0, false),
            r.x_knob == Sample::of(0, false),
            r.y_knob == Sample::of(0, false),
            r.zswitch == ZSwitch::Off,
            r.cv1 == idle_jack(),
            r.cv2 == idle_jack(),
            r.sequence_counter == 0,
    {
        MuxState {
            main_knob: Sample::new(Sample::CENTER, false),
            x_knob: Sample::new(Sample::CENTER, false),
            y_knob: Sample::new(Sample::CENTER, false),
            zswitch: ZSwitch::default(),
            cv1: idle_jack_sample(),
            cv2: idle_jack_sample(),
            sequence_counter: 0,
        }
    }
}

/// Latest values of the two audio inputs.
#[derive(PartialEq, Eq, Structural, Copy, Clone, Debug)]
pub struct AudioState {
    pub audio1: JackSample,
    pub audio2: JackSample,
}

impl AudioState {
    /// Both audio jacks at rest.
    pub fn default() -> (r: Self)
        ensures
            r.audio1 == idle_jack(),
            r.audio2 == idle_jack(),
    {
        AudioState { audio1: idle_jack_sample(), audio2: idle_jack_sample() }
    }
}

/// The LFO phase after one tick: down by one, jumping to the top after the
/// bottom so that its magnitude never exceeds the positive 11 bit range.
pub open spec fn phase_after_tick(phase: int) -> int {
    if phase <= -2048 {
        2046
    } else {
        phase - 1
    }
}

/// The triangle the LFO phase stands for.
pub open spec fn triangle_of(phase: int) -> Sample {
    Sample::of(div_trunc(abs_int(phase) - 1024, 2), false)
}

/// Triangle wave used as the default modulation of the intensity.
pub struct TriangleWave11 {
    value: i16,
}

impl TriangleWave11 {
    /// Current phase, in `-2048..=2047`.
    pub closed spec fn phase(&self) -> int {
        self.value as int
    }

    /// The phase is in range.
    pub open spec fn wf(&self) -> bool {
        -2048 <= self.phase() <= 2047
    }

    /// A wave at phase zero.
    pub fn new() -> (r: Self)
        ensures
            r.wf(),
            r.phase() == 0,
    {
        TriangleWave11 { value: 0 }
    }

    /// Moves the phase on by one step.
    pub fn tick(&mut self)
        requires
            old(self).wf(),
        ensures
            final(self).wf(),
            final(self).phase() == phase_after_tick(old(self).phase()),
    {
        if self.value <= -2048 {
            self.value = 2047;
        }
        self.value -= 1;
    }

    /// The wave's current value: `(|phase| - 1024) / 2`, in `-512..=512`.
    pub fn current(&self) -> (r: Sample)
        requires
            self.wf(),
        ensures
            r == triangle_of(self.phase()),
    {
        let a: i16 = if self.value < 0 {
            -self.value
        } else {
            self.value
        };
        Sample::from((a - 1024) / 2)
    }
}

/// What feeds the intensity on one control tick: the main knob, offset by
/// the audio 1 input when a cable is plugged in there, else by the LFO;
/// the knob alone when no audio reading has come in.
pub open spec fn intensity_input(knob: Sample, audio1: Option<JackSample>, lfo: Sample) -> Sample {
    match audio1 {
        None => knob,
        Some(j) => if j.is_plugged() {
            j.raw.sum(knob)
        } else {
            lfo.sum(knob)
        },
    }
}

/// The counter after one tick, wrapping.
pub open spec fn counter_after(counter: int) -> int {
    if counter == usize::MAX {
        0
    } else {
        counter + 1
    }
}

/// Values a control tick publishes.
#[derive(PartialEq, Eq, Structural, Copy, Clone, Debug)]
pub struct ControlOutput {
    /// A new LFO value, on the ticks where it moved.
    pub lfo: Option<Sample>,
    /// A new smoothed intensity, on the ticks where an input reading came in.
    pub intensity: Option<Sample>,
}

/// Derives the smoothed rain intensity from the inputs and a slow LFO.
pub struct Controller {
    smooth_intensity: Sample,
    lfo: TriangleWave11,
    counter: usize,
}

impl Controller {
    /// Smoothed intensity.
    pub closed spec fn intensity(&self) -> Sample {
        self.smooth_intensity
    }

    /// The LFO.
    pub closed spec fn wave(&self) -> TriangleWave11 {
        self.lfo
    }

    /// Tick counter.
    pub closed spec fn ticks(&self) -> int {
        self.counter as int
    }

    /// The LFO is well formed.
    pub open spec fn wf(&self) -> bool {
        self.wave().wf()
    }

    /// Intensity at the centre, LFO at phase zero, counter at zero.
    pub fn new() -> (r: Self)
        ensures
            r.wf(),
            r.intensity() == Sample::of(0, false),
            r.wave().phase() == 0,
            r.ticks() == 0,
    {
        Controller { smooth_intensity: Sample::from(0i32), lfo: TriangleWave11::new(), counter: 0 }
    }

    /// The smoothed intensity, as first published.
    pub fn current_intensity(&self) -> (r: Sample)
        ensures
            r == self.intensity(),
    {
        self.smooth_intensity
    }

    /// The LFO's value, as first published.
    pub fn current_lfo(&self) -> (r: Sample)
        requires
            self.wf(),
        ensures
            r == triangle_of(self.wave().phase()),
    {
        self.lfo.current()
    }

    /// One control tick: the LFO moves every `LFO_DIVIDER` ticks; when an
    /// input reading is at hand the intensity is smoothed toward it.
    pub fn step(&mut self, mux: Option<&MuxState>, audio: Option<&AudioState>) -> (r: ControlOutput)
        requires
            old(self).wf(),
        ensures
            final(self).wf(),
            final(self).ticks() == counter_after(old(self).ticks()),
            final(self).wave().phase() == (if final(self).ticks() % (LFO_DIVIDER as int) == 0 {
                phase_after_tick(old(self).wave().phase())
            } else {
                old(self).wave().phase()
            }),
            r.lfo == (if final(self).ticks() % (LFO_DIVIDER as int) == 0 {
                Some(triangle_of(final(self).wave().phase()))
            } else {
                None
            }),
            match mux {
                None => final(self).intensity() == old(self).intensity() && r.intensity is None,
                Some(m) => {
                    let input = intensity_input(
                        m.main_knob,
                        match audio {
                            None => None,
                            Some(a) => Some(a.audio1),
                        },
                        triangle_of(final(self).wave().phase()),
                    );
                    &&& final(self).intensity() == old(self).intensity().after_update(input)
                    &&& r.intensity == Some(final(self).intensity())
                },
            },
    {
        self.counter = self.counter.wrapping_add(1);
        let mut out = ControlOutput { lfo: None, intensity: None };
        if self.counter % LFO_DIVIDER == 0 {
            self.lfo.tick();
            out.lfo = Some(self.lfo.current());
        }
        if let Some(mux_state) = mux {
            let mut intensity = mux_state.main_knob;
            if let Some(audio_state) = audio {
                if let Some(input) = audio_state.audio1.plugged_value() {
                    intensity = *input + intensity;
                } else {
                    intensity = self.lfo.current() + intensity;
                }
            }
            self.smooth_intensity.update(intensity);
            out.intensity = Some(self.smooth_intensity);
        }
        out
    }
}

/// Brightness correction for an LED: the square of the level over the 12
/// bit maximum, saturated to `u16`.
pub open spec fn gamma_of(value: int, scale: int) -> int {
    if value * value / scale > u16::MAX {
        u16::MAX as int
    } else {
        value * value / scale
    }
}

/// Rough LED brightness correction for 12 bit levels.
pub fn led_gamma(value: u16) -> (r: u16)
    ensures
        r == gamma_of(value as int, U12_MAX as int),
{
    let temp: u32 = value as u32;
    assert(temp * temp <= 65535 * 65535) by (nonlinear_arith)
        requires
            temp <= 65535,
    ;
    let g = (temp * temp) / (U12_MAX as u32);
    if g > u16::MAX as u32 {
        u16::MAX
    } else {
        g as u16
    }
}

/// Levels of the LEDs and CV outputs that show the intensity and the LFO.
#[derive(PartialEq, Eq, Structural, Copy, Clone, Debug)]
pub struct IndicatorLevels {
    /// Heavy rain: the intensity's magnitude while it is above the centre.
    pub led1: u16,
    /// Medium rain: the intensity's magnitude, inverted.
    pub led3: u16,
    /// Light rain: the intensity's magnitude while it is below the centre.
    pub led5: u16,
    /// CV output 1: the intensity, inverted for the output stage.
    pub cv1: u16,
    /// LED 4 and CV output 2 follow the LFO, when a value of it is at hand.
    pub led4: Option<u16>,
    pub cv2: Option<u16>,
}

/// Levels that show an intensity and, if at hand, an LFO value.
pub fn indicator_levels(intensity: Sample, lfo: Option<Sample>) -> (r: IndicatorLevels)
    ensures
        r.led1 == (if intensity.accumulated_raw > 0 {
            intensity.magnitude()
        } else {
            0
        }),
        r.led3 == U12_MAX - intensity.magnitude(),
        r.led5 == (if intensity.accumulated_raw < 0 {
            intensity.magnitude()
        } else {
            0
        }),
        r.cv1 == U12_MAX - intensity.output(),
        r.led4 == (match lfo {
            None => None::<u16>,
            Some(l) => Some(l.output() as u16),
        }),
        r.cv2 == (match lfo {
            None => None::<u16>,
            Some(l) => Some((U12_MAX - l.output()) as u16),
        }),
{
    let off = Sample::from(0i32).to_output_abs();
    let led1 = if intensity.accumulated_raw > 0 {
        intensity.to_output_abs()
    } else {
        off
    };
    let led5 = if intensity.accumulated_raw < 0 {
        intensity.to_output_abs()
    } else {
        off
    };
    let (led4, cv2) = match lfo {
        None => (None, None),
        Some(l) => (Some(l.to_output()), Some(l.to_output_inverted())),
    };
    IndicatorLevels {
        led1,
        led3: intensity.to_output_abs_inverted(),
        led5,
        cv1: intensity.to_output_inverted(),
        led4,
        cv2,
    }
}

/// The sample counter is published every this many ticks.
pub const COUNTER_PUBLISH_EVERY: u32 = 16;

/// The worst tick duration is forgotten every this many ticks (one second).
pub const MAX_RESET_EVERY: u32 = 48000;

/// What the DAC writer publishes at the end of a tick.
#[derive(PartialEq, Eq, Structural, Copy, Clone, Debug)]
pub struct TickReport {
    /// A new worst tick duration, when this tick was longer than any since the last reset.
    pub raise_max: Option<u32>,
    /// Whether the worst duration starts again from zero.
    pub reset_max: bool,
}

/// Statistics the DAC writer keeps of its own ticks.
pub struct TickStats {
    counter: u32,
    max_ticks: u32,
}

impl TickStats {
    /// Ticks counted so far, wrapping.
    pub closed spec fn count(&self) -> int {
        self.counter as int
    }

    /// Longest tick since the last reset.
    pub closed spec fn worst(&self) -> int {
        self.max_ticks as int
    }

    /// No tick counted yet.
    pub fn new() -> (r: Self)
        ensures
            r.count() == 0,
            r.worst() == 0,
    {
        TickStats { counter: 0, max_ticks: 0 }
    }

    /// Counts the start of a tick; every `COUNTER_PUBLISH_EVERY` ticks gives
    /// the count to publish.
    pub fn begin_tick(&mut self) -> (r: Option<u32>)
        ensures
            final(self).count() == (if old(self).count() == u32::MAX {
                0
            } else {
                old(self).count() + 1
            }),
            final(self).worst() == old(self).worst(),
            r == (if final(self).count() % (COUNTER_PUBLISH_EVERY as int) == 0 {
                Some(final(self).count() as u32)
            } else {
                None
            }),
    {
        self.counter = self.counter.wrapping_add(1);
        if self.counter % COUNTER_PUBLISH_EVERY == 0 {
            Some(self.counter)
        } else {
            None
        }
    }

    /// Records the duration of the tick just ended.
    pub fn end_tick(&mut self, elapsed: u32) -> (r: TickReport)
        ensures
            final(self).count() == old(self).count(),
            r.raise_max == (if elapsed > old(self).worst() {
                Some(elapsed)
            } else {
                None
            }),
            r.reset_max == (old(self).count() % (MAX_RESET_EVERY as int) == 0),
            final(self).worst() == (if r.reset_max {
                0
            } else if elapsed > old(self).worst() {
                elapsed as int
            } else {
                old(self).worst()
            }),
    {
        let mut raise_max = None;
        if elapsed > self.max_ticks {
            raise_max = Some(elapsed);
            self.max_ticks = elapsed;
        }
        let reset_max = self.counter % MAX_RESET_EVERY == 0;
        if reset_max {
            self.max_ticks = 0;
        }
        TickReport { raise_max, reset_max }
    }
}

} // verus!
