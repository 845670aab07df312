use vstd::prelude::*;

use crate::decoder::{decoded_corpus, position_after_calls, CompressedStreamDecoder};
use crate::queue::{send_accepted, words, SampleQueue, QUEUE_CAPACITY};
use crate::sample::{div_trunc, whole, Sample, U12_MAX};
use vstd::arithmetic::div_mod::lemma_fundamental_div_mod_converse;

verus! {

/// DAC configuration bits of the first channel: channel A, 1x gain, active.
pub const DAC_CONFIG_A: u16 = 0x3000;

/// DAC configuration bits of the second channel: channel B, 1x gain, active.
pub const DAC_CONFIG_B: u16 = 0xb000;

/// Step of the free-running sawtooth on the second output channel.
pub const SAW_STEP: u16 = 16;

/// A DAC word: the low 12 bits of a value below the channel's configuration
/// bits.
pub open spec fn dac_word(value: u16, config: u16) -> u16 {
    ((value % 4096) + config) as u16
}

/// Integer part of a 16 bit sample reduced to 12 bits: division by 16
/// rounding down, as an arithmetic shift right by four.
pub open spec fn reduce16(raw: i16) -> int {
    raw / 16
}

/// The sample standing for a 16 bit texture sample reduced to 12 bits.
pub open spec fn texture_of(raw: i16) -> Sample {
    Sample::of(reduce16(raw), false)
}

/// The blend of the three textures for a given intensity.
///
/// A non-negative intensity crossfades from medium toward heavy; a negative
/// one from medium toward light, by its absolute value. Without an intensity
/// the medium texture is used as it is.
pub open spec fn mixed(light: Sample, medium: Sample, heavy: Sample, intensity: Option<Sample>) -> Sample {
    match intensity {
        None => medium,
        Some(i) => if i.accumulated_raw >= 0 {
            medium.scaled_inverted(i).sum(heavy.scaled(i))
        } else {
            medium.scaled_inverted(i.absolute()).sum(light.scaled(i.absolute()))
        },
    }
}

/// The sawtooth value after `value`: one step up, back to zero past the
/// 12 bit maximum.
pub open spec fn saw_after(value: int, step: int) -> int {
    if value + step > U12_MAX {
        0
    } else {
        value + step
    }
}

/// Raw data ready to send to the DAC: one word per channel.
#[derive(PartialEq, Eq, Structural, Copy, Clone, Debug)]
pub struct DACSamplePair {
    /// Word for the first channel.
    pub audio1: u16,
    /// Word for the second channel.
    pub audio2: u16,
}

impl DACSamplePair {
    /// The words for two 12 bit values: each keeps its low 12 bits and
    /// takes its channel's configuration bits on top.
    pub fn new(sample1: u16, sample2: u16) -> (r: Self)
        ensures
            r.audio1 == dac_word(sample1, DAC_CONFIG_A),
            r.audio2 == dac_word(sample2, DAC_CONFIG_B),
    {
        let a = sample1 << 4u16 >> 4u16 | DAC_CONFIG_A;
        let b = sample2 << 4u16 >> 4u16 | DAC_CONFIG_B;
        assert(sample1 << 4u16 >> 4u16 | 0x3000u16 == (sample1 % 4096) + 0x3000u16)
            by (bit_vector);
        assert(sample2 << 4u16 >> 4u16 | 0xb000u16 == (sample2 % 4096) + 0xb000u16)
            by (bit_vector);
        DACSamplePair { audio1: a, audio2: b }
    }
}

/// Reduces a full-range 16 bit texture sample to the 12 bit domain.
pub fn texture_sample(raw: i16) -> (r: Sample)
    ensures
        r == texture_of(raw),
        -2048 <= reduce16(raw) <= 2047,
{
    let reduced = raw >> 4u16;
    assert(-2048 <= raw >> 4u16 && raw >> 4u16 < 2048) by (bit_vector);
    assert((raw & 15) >= 0 && (raw & 15) < 16) by (bit_vector);
    assert(((raw >> 4u16) << 4u16) + (raw & 15) == raw) by (bit_vector);
    assert((reduced << 4u16) == reduced * 16) by (bit_vector)
        requires
            -2048 <= reduced && reduced < 2048,
    ;
    Sample::from(reduced)
}

/// Blends the three textures for the current intensity.
pub fn mix(light: Sample, medium: Sample, heavy: Sample, intensity: Option<Sample>) -> (r: Sample)
    ensures
        r == mixed(light, medium, heavy, intensity),
{
    match intensity {
        None => medium,
        Some(i) => {
            if i.accumulated_raw >= 0 {
                medium.scale_inverted(i) + heavy.scale(i)
            } else {
                let a = i.abs();
                medium.scale_inverted(a) + light.scale(a)
            }
        },
    }
}

/// Next value of a sawtooth that wraps at the 12 bit maximum.
pub fn saw_next(value: u16, step: u16) -> (r: u16)
    ensures
        r == saw_after(value as int, step as int),
        r <= U12_MAX,
{
    let next: u32 = value as u32 + step as u32;
    if next > U12_MAX as u32 {
        0
    } else {
        next as u16
    }
}

/// Multiplying by the full-scale value and dividing by it again gives the
/// value back.
proof fn lemma_full_scale(c: int)
    requires
        -2048 <= c <= 2047,
    ensures
        div_trunc(c * 2047, 2047) == c,
        div_trunc(c * 0, 2047) == 0,
{
    if c >= 0 {
        lemma_fundamental_div_mod_converse(c * 2047, 2047, c, 0);
    } else {
        lemma_fundamental_div_mod_converse(-c * 2047, 2047, -c, 0);
    }
}

/// Crossfade end points: at full intensity (`MAX`) the blend is exactly the
/// heavy texture, the medium one contributing nothing; at zero intensity it
/// is exactly the medium texture.
pub proof fn lemma_crossfade_end_points(light: i16, medium: i16, heavy: i16)
    ensures
        mixed(
            texture_of(light),
            texture_of(medium),
            texture_of(heavy),
            Some(Sample::of(Sample::MAX as int, false)),
        ) == texture_of(heavy),
        mixed(texture_of(light), texture_of(medium), texture_of(heavy), Some(Sample::of(0, false)))
            == texture_of(medium),
{
    let m = reduce16(medium);
    let h = reduce16(heavy);
    assert(whole(8 * m) == m);
    assert(whole(8 * h) == h);
    assert(whole(8 * 2047int) == 2047);
    lemma_full_scale(m);
    lemma_full_scale(h);
}

/// The sample a stream hands out next.
pub open spec fn upcoming(d: CompressedStreamDecoder) -> i16 {
    decoded_corpus(d.corpus())[d.position()]
}

/// `after` is `before` moved on by one sample.
pub open spec fn advanced(before: CompressedStreamDecoder, after: CompressedStreamDecoder) -> bool {
    &&& after.wf()
    &&& after.corpus() == before.corpus()
    &&& after.position() == (before.position() + 1) % (decoded_corpus(before.corpus()).len() as int)
}

/// `after` is `before` moved on by `n` samples.
pub open spec fn moved_on(before: CompressedStreamDecoder, after: CompressedStreamDecoder, n: nat) -> bool {
    &&& after.wf()
    &&& after.corpus() == before.corpus()
    &&& after.position() == position_after_calls(
        before.position(),
        decoded_corpus(before.corpus()).len() as int,
        n,
    )
}

/// The sawtooth after `n` steps from `value`.
pub open spec fn saw_after_steps(value: int, step: int, n: nat) -> int
    decreases n,
{
    if n == 0 {
        value
    } else {
        saw_after(saw_after_steps(value, step, (n - 1) as nat), step)
    }
}

/// Sample `k` ahead of a stream's current position.
pub open spec fn ahead(d: CompressedStreamDecoder, k: nat) -> i16 {
    decoded_corpus(d.corpus())[position_after_calls(
        d.position(),
        decoded_corpus(d.corpus()).len() as int,
        k,
    )]
}

/// The `k`-th pair (from zero) a mixer produces from its present state.
pub open spec fn pair_ahead(m: Mixer, intensity: Option<Sample>, k: nat) -> (u16, u16) {
    pair_for(
        ahead(m.light(), k),
        ahead(m.medium(), k),
        ahead(m.heavy(), k),
        intensity,
        saw_after_steps(m.saw(), SAW_STEP as int, k + 1),
    )
}

/// The pair sent for one tick: the blend on the first channel, the sawtooth
/// on the second.
pub open spec fn pair_for(
    light: i16,
    medium: i16,
    heavy: i16,
    intensity: Option<Sample>,
    saw: int,
) -> (u16, u16) {
    (
        dac_word(
            mixed(texture_of(light), texture_of(medium), texture_of(heavy), intensity).output() as u16,
            DAC_CONFIG_A,
        ),
        dac_word(saw as u16, DAC_CONFIG_B),
    )
}

/// Produces DAC sample pairs from three texture streams (light, medium and
/// heavy rain) blended by the current intensity.
pub struct Mixer<'a> {
    light: CompressedStreamDecoder<'a>,
    medium: CompressedStreamDecoder<'a>,
    heavy: CompressedStreamDecoder<'a>,
    saw_value: u16,
}

impl<'a> Mixer<'a> {
    /// Stream of the light texture.
    pub closed spec fn light(&self) -> CompressedStreamDecoder<'a> {
        self.light
    }

    /// Stream of the medium texture.
    pub closed spec fn medium(&self) -> CompressedStreamDecoder<'a> {
        self.medium
    }

    /// Stream of the heavy texture.
    pub closed spec fn heavy(&self) -> CompressedStreamDecoder<'a> {
        self.heavy
    }

    /// Current value of the sawtooth.
    pub closed spec fn saw(&self) -> int {
        self.saw_value as int
    }

    /// All three streams are well formed and the sawtooth is in range.
    pub open spec fn wf(&self) -> bool {
        &&& self.light().wf()
        &&& self.medium().wf()
        &&& self.heavy().wf()
        &&& 0 <= self.saw() <= U12_MAX
    }

    /// A mixer over three streams, with the sawtooth at zero.
    pub fn new(
        light: CompressedStreamDecoder<'a>,
        medium: CompressedStreamDecoder<'a>,
        heavy: CompressedStreamDecoder<'a>,
    ) -> (r: Self)
        requires
            light.wf(),
            medium.wf(),
            heavy.wf(),
        ensures
            r.wf(),
            r.light() == light,
            r.medium() == medium,
            r.heavy() == heavy,
            r.saw() == 0,
    {
        Mixer { light, medium, heavy, saw_value: 0 }
    }

    /// Takes one sample from each stream, blends them by `intensity` (the
    /// latest published one, if any) and advances the sawtooth; returns the
    /// pair of DAC words.
    pub fn next_pair(&mut self, intensity: Option<Sample>) -> (r: DACSamplePair)
        requires
            old(self).wf(),
        ensures
            final(self).wf(),
            advanced(old(self).light(), final(self).light()),
            advanced(old(self).medium(), final(self).medium()),
            advanced(old(self).heavy(), final(self).heavy()),
            final(self).saw() == saw_after(old(self).saw(), SAW_STEP as int),
            words(r) == pair_for(
                upcoming(old(self).light()),
                upcoming(old(self).medium()),
                upcoming(old(self).heavy()),
                intensity,
                final(self).saw(),
            ),
    {
        let light = texture_sample(self.light.next());
        let medium = texture_sample(self.medium.next());
        let heavy = texture_sample(self.heavy.next());
        let blended = mix(light, medium, heavy, intensity);
        self.saw_value = saw_next(self.saw_value, SAW_STEP);
        DACSamplePair::new(blended.to_output(), self.saw_value)
    }

    /// Pushes pairs into the queue until it is full, or until `limit` pairs
    /// have been pushed; returns how many were pushed. The producer then
    /// waits for the consumer to make room.
    pub fn fill(&mut self, queue: &mut SampleQueue, intensity: Option<Sample>, limit: usize) -> (r: usize)
        requires
            old(self).wf(),
        ensures
            final(self).wf(),
            moved_on(old(self).light(), final(self).light(), r as nat),
            moved_on(old(self).medium(), final(self).medium(), r as nat),
            moved_on(old(self).heavy(), final(self).heavy(), r as nat),
            r <= limit,
            r < limit ==> !send_accepted(final(queue).items()),
            old(queue).items().len() <= QUEUE_CAPACITY ==> final(queue).items().len()
                <= QUEUE_CAPACITY,
            final(queue).items().len() == old(queue).items().len() + r,
            final(queue).items().take(old(queue).items().len() as int) == old(queue).items(),
            forall|k: int|
                0 <= k < r ==> #[trigger] final(queue).items()[old(queue).items().len() + k]
                    == pair_ahead(*old(self), intensity, k as nat),
    {
        let mut pushed: usize = 0;
        let ghost start = queue.items();
        let ghost first = *self;
        while pushed < limit
            invariant
                self.wf(),
                first == *old(self),
                moved_on(first.light(), self.light(), pushed as nat),
                moved_on(first.medium(), self.medium(), pushed as nat),
                moved_on(first.heavy(), self.heavy(), pushed as nat),
                start == old(queue).items(),
                start.len() <= QUEUE_CAPACITY ==> queue.items().len() <= QUEUE_CAPACITY,
                pushed <= limit,
                queue.items().len() == start.len() + pushed,
                queue.items().take(start.len() as int) == start,
                self.saw() == saw_after_steps(first.saw(), SAW_STEP as int, pushed as nat),
                forall|k: int|
                    0 <= k < pushed ==> #[trigger] queue.items()[start.len() + k] == pair_ahead(
                        first,
                        intensity,
                        k as nat,
                    ),
            decreases limit - pushed,
        {
            if queue.is_full() {
                return pushed;
            }
            let pair = self.next_pair(intensity);
            let ghost before = queue.items();
            let accepted = queue.try_send(pair);
            assert(accepted);
            assert(queue.items().take(start.len() as int) =~= before.take(start.len() as int));
            assert(queue.items()[start.len() + pushed] == pair_ahead(first, intensity, pushed as nat));
            pushed = pushed + 1;
        }
        pushed
    }
}

} // verus!
