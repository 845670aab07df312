use vstd::prelude::*;

use vstd::arithmetic::div_mod::lemma_fundamental_div_mod;

verus! {

/// Largest value of an unsigned 12 bit output.
pub const U12_MAX: u16 = 4095;

/// Largest value of an unsigned 11 bit output.
pub const U11_MAX: u16 = 2047;

/// Saturates a mathematical integer into the `i32` range.
pub open spec fn sat_i32(x: int) -> i32 {
    if x < i32::MIN {
        i32::MIN
    } else if x > i32::MAX {
        i32::MAX
    } else {
        x as i32
    }
}

/// Clamps a mathematical integer into the signed 12 bit domain `-2048..=2047`.
pub open spec fn clamp12(x: int) -> int {
    if x < -2048 {
        -2048
    } else if x > 2047 {
        2047
    } else {
        x
    }
}

/// The integer part of an accumulator holding three fractional bits:
/// an arithmetic shift right by three, that is, division by eight rounding down.
pub open spec fn whole(acc: int) -> int {
    acc / 8
}

/// Absolute value of a mathematical integer.
pub open spec fn abs_int(x: int) -> int {
    if x < 0 {
        -x
    } else {
        x
    }
}

/// Integer division truncating toward zero, as Rust's `/` on integers does.
pub open spec fn div_trunc(a: int, b: int) -> int {
    if (a >= 0) == (b > 0) {
        abs_int(a) / abs_int(b)
    } else {
        -(abs_int(a) / abs_int(b))
    }
}

/// The signed 12 bit value an accumulator stands for, saturated.
pub open spec fn clamped_of(acc: int) -> int {
    clamp12(whole(acc))
}

/// Accumulator stored for a raw value: the value, negated if `invert`,
/// carried into the fractional representation and saturated.
pub open spec fn accumulator_for(raw: int, invert: bool) -> i32 {
    sat_i32(8 * (if invert { -raw } else { raw }))
}

/// One step of the first-order smoothing filter toward the input `v`.
pub open spec fn smooth_step(acc: int, v: int) -> i32 {
    sat_i32(acc - whole(acc) + v)
}

/// The offset-centred, polarity-corrected value of a raw unsigned reading.
pub open spec fn centred(value: int, invert: bool) -> int {
    if invert {
        -(value - 2048)
    } else {
        value - 2048
    }
}

/// Arithmetic shift right by three of an `i32`.
fn shr3(x: i32) -> (r: i32)
    ensures
        r == whole(x as int),
        -0x1000_0000 <= r < 0x1000_0000,
{
    let r = x >> 3u32;
    assert(-0x1000_0000 <= x >> 3u32 && x >> 3u32 < 0x1000_0000) by (bit_vector);
    assert((x & 7) >= 0 && (x & 7) < 8) by (bit_vector);
    assert(((x >> 3u32) << 3u32) + (x & 7) == x) by (bit_vector);
    assert((r << 3u32) == r * 8) by (bit_vector)
        requires
            -0x1000_0000 <= r && r < 0x1000_0000,
    ;
    r
}

/// Arithmetic shift right by three of an `i64`.
pub(crate) fn shr3_wide(x: i64) -> (r: i64)
    ensures
        r == whole(x as int),
{
    let r = x >> 3u64;
    assert(-0x1000_0000_0000_0000 <= x >> 3u64 && x >> 3u64 < 0x1000_0000_0000_0000)
        by (bit_vector);
    assert((x & 7) >= 0 && (x & 7) < 8) by (bit_vector);
    assert(((x >> 3u64) << 3u64) + (x & 7) == x) by (bit_vector);
    assert((r << 3u64) == r * 8) by (bit_vector)
        requires
            -0x1000_0000_0000_0000 <= r && r < 0x1000_0000_0000_0000,
    ;
    r
}

/// Saturating conversion from `i64` to `i32`.
fn saturate(x: i64) -> (r: i32)
    ensures
        r == sat_i32(x as int),
{
    if x < i32::MIN as i64 {
        i32::MIN
    } else if x > i32::MAX as i64 {
        i32::MAX
    } else {
        x as i32
    }
}

/// A 12 bit value representing input from a knob or an input jack's ADC.
///
/// Normalised to the range -2048 to 2047 inclusive, stored with three
/// fractional bits in an `i32` so that smoothing and intermediate math have
/// headroom. Every conversion out of this type saturates to the 12 bit range;
/// the accumulator itself may lie outside it.
#[derive(PartialEq, Eq, Structural, PartialOrd, Copy, Clone, Debug)]
pub struct Sample {
    /// The value with three fractional bits.
    pub accumulated_raw: i32,
    /// Whether the source of this sample has inverted polarity.
    pub inverted_source: bool,
}

impl Sample {
    /// Smallest 12 bit value.
    pub const MIN: i32 = -2048;

    /// Largest 12 bit value.
    pub const MAX: i32 = 2047;

    /// Centre of the domain.
    pub const CENTER: i32 = 0;

    /// Offset between unsigned readings and the signed domain.
    pub const OFFSET: i32 = 2048;

    /// The internal accumulator, with three fractional bits.
    pub open spec fn accumulated(self) -> i32 {
        self.accumulated_raw
    }

    /// Whether the source of this sample has inverted polarity.
    pub open spec fn is_inverted(self) -> bool {
        self.inverted_source
    }

    /// The sample that `new(raw, invert)` builds.
    pub open spec fn of(raw: int, invert: bool) -> Sample {
        Sample { accumulated_raw: accumulator_for(raw, invert), inverted_source: invert }
    }

    /// `self` scaled by the ratio of `other` to `MAX`, truncating toward zero.
    pub open spec fn scaled(self, other: Sample) -> Sample {
        Sample::of(div_trunc(self.clamped() * other.clamped(), 2047), self.inverted_source)
    }

    /// `self` scaled by the inverted ratio of `other` to `MAX`, truncating toward zero.
    pub open spec fn scaled_inverted(self, other: Sample) -> Sample {
        Sample::of(div_trunc(self.clamped() * (2047 - other.clamped()), 2047), self.inverted_source)
    }

    /// Sum of the accumulators, saturated, with the polarity flag of `self`.
    pub open spec fn sum(self, other: Sample) -> Sample {
        Sample {
            accumulated_raw: sat_i32(self.accumulated_raw + other.accumulated_raw),
            inverted_source: self.inverted_source,
        }
    }

    /// Difference of the accumulators, saturated, with the polarity flag of `self`.
    pub open spec fn difference(self, other: Sample) -> Sample {
        Sample {
            accumulated_raw: sat_i32(self.accumulated_raw - other.accumulated_raw),
            inverted_source: self.inverted_source,
        }
    }

    /// Product of the clamped values, carried back into the accumulator,
    /// saturated. The operands are clamped first so that the product cannot
    /// overflow; only sums and differences work on the raw accumulators.
    pub open spec fn product(self, other: Sample) -> Sample {
        Sample {
            accumulated_raw: sat_i32(8 * (self.clamped() * other.clamped())),
            inverted_source: self.inverted_source,
        }
    }

    /// Integer part times `k`, carried back into the accumulator, saturated.
    pub open spec fn times(self, k: int) -> Sample {
        Sample {
            accumulated_raw: sat_i32(8 * (whole(self.accumulated_raw as int) * k)),
            inverted_source: self.inverted_source,
        }
    }

    /// Integer part divided by `d`, truncating toward zero, carried back into
    /// the accumulator, saturated.
    pub open spec fn quotient(self, d: int) -> Sample {
        Sample {
            accumulated_raw: sat_i32(8 * div_trunc(whole(self.accumulated_raw as int), d)),
            inverted_source: self.inverted_source,
        }
    }

    /// The sample built from the absolute clamped value.
    pub open spec fn absolute(self) -> Sample {
        Sample::of(abs_int(self.clamped()), self.inverted_source)
    }

    /// The saturated 12 bit value of this sample.
    pub open spec fn clamped(self) -> int {
        clamped_of(self.accumulated() as int)
    }

    /// Unsigned 12 bit output value.
    pub open spec fn output(self) -> int {
        self.clamped() + 2048
    }

    /// Magnitude of the clamped value, at most `MAX`.
    pub open spec fn magnitude(self) -> int {
        if self.clamped() == -2048 {
            2047
        } else {
            abs_int(self.clamped())
        }
    }

    /// Sample holding `raw << 3` (negated first when `invert`), saturated.
    fn from_wide(raw: i64, invert: bool) -> (r: Self)
        requires
            -0x1000_0000_0000 <= raw <= 0x1000_0000_0000,
        ensures
            r.accumulated() == accumulator_for(raw as int, invert),
            r.is_inverted() == invert,
    {
        let v: i64 = if invert {
            -raw
        } else {
            raw
        };
        Sample { accumulated_raw: saturate(v * 8), inverted_source: invert }
    }

    /// New sample from a signed value, negated first if `invert`.
    ///
    /// Values are expected to be 12 bit (-2048..2048); larger ones saturate
    /// the accumulator.
    pub fn new(raw_value: i32, invert: bool) -> (r: Self)
        ensures
            r == Sample::of(raw_value as int, invert),
    {
        Self::from_wide(raw_value as i64, invert)
    }

    /// New sample from an unsigned reading, offset so the centre is at zero.
    pub fn from_u16(value: u16, invert: bool) -> (r: Self)
        ensures
            r == Sample::of(value - 2048, invert),
    {
        let output: i32 = value as i32 - Self::OFFSET;
        Self::new(output, invert)
    }

    /// The value saturated to `MIN..=MAX`.
    pub fn to_clamped(&self) -> (r: i32)
        ensures
            r == self.clamped(),
            Self::MIN <= r <= Self::MAX,
    {
        let w = shr3(self.accumulated_raw);
        if w < Self::MIN {
            Self::MIN
        } else if w > Self::MAX {
            Self::MAX
        } else {
            w
        }
    }

    /// Saturating conversion into a 12 bit unsigned output value.
    pub fn to_output(&self) -> (r: u16)
        ensures
            r == self.output(),
            r <= U12_MAX,
    {
        (self.to_clamped() + Self::OFFSET) as u16
    }

    /// Saturating conversion into a 12 bit unsigned output value, inverted.
    pub fn to_output_inverted(&self) -> (r: u16)
        ensures
            r == U12_MAX - self.output(),
    {
        U12_MAX - self.to_output()
    }

    /// Saturating conversion into an 11 bit unsigned output value: the 12
    /// bit output shifted right by one.
    pub fn to_output_11bit(&self) -> (r: u16)
        ensures
            r == self.output() / 2,
            r <= U11_MAX,
    {
        let full = self.to_output();
        assert(full >> 1u16 == full / 2) by (bit_vector);
        full >> 1u16
    }

    /// Saturating conversion into an 11 bit unsigned output value, inverted.
    pub fn to_output_11bit_inverted(&self) -> (r: u16)
        ensures
            r == U11_MAX - self.output() / 2,
    {
        U11_MAX - self.to_output_11bit()
    }

    /// Saturating conversion of the absolute value into 0..=`MAX`.
    pub fn to_output_abs(&self) -> (r: u16)
        ensures
            r == self.magnitude(),
            r <= 2047,
    {
        let c = self.to_clamped();
        let a: i32 = if c < 0 {
            -c
        } else {
            c
        };
        if a > Self::MAX {
            Self::MAX as u16
        } else {
            a as u16
        }
    }

    /// Saturating conversion of the absolute value, inverted against the 12 bit maximum.
    pub fn to_output_abs_inverted(&self) -> (r: u16)
        ensures
            r == U12_MAX - self.magnitude(),
    {
        U12_MAX - self.to_output_abs()
    }

    /// A sample built from the negated accumulator, keeping the polarity flag.
    pub fn to_inverted(&self) -> (r: Self)
        ensures
            r.accumulated() == accumulator_for(-(self.accumulated() as int), self.is_inverted()),
            r.is_inverted() == self.is_inverted(),
    {
        Self::from_wide(-(self.accumulated_raw as i64), self.inverted_source)
    }

    /// A sample built from the absolute clamped value, keeping the polarity flag.
    pub fn abs(self) -> (r: Self)
        ensures
            r == self.absolute(),
    {
        let c = self.to_clamped();
        let a: i32 = if c < 0 {
            -c
        } else {
            c
        };
        Self::new(a, self.inverted_source)
    }

    /// Scales this sample by the ratio of another sample to `MAX`.
    ///
    /// Used for mixing, crossfading and attenuverting signals. The quotient
    /// truncates toward zero.
    pub fn scale(&self, other: Self) -> (r: Self)
        ensures
            r == self.scaled(other),
    {
        let a = self.to_clamped();
        let b = other.to_clamped();
        assert(-2048 * 2048 <= a * b <= 2048 * 2048) by (nonlinear_arith)
            requires
                -2048 <= a <= 2047,
                -2048 <= b <= 2047,
        ;
        let p = a * b;
        let q = p / Self::MAX;
        Self::new(q, self.inverted_source)
    }

    /// Scales this sample by the inverted ratio of another sample to `MAX`.
    ///
    /// Used for mixing, crossfading and attenuverting signals. The quotient
    /// truncates toward zero.
    pub fn scale_inverted(&self, other: Self) -> (r: Self)
        ensures
            r == self.scaled_inverted(other),
    {
        let a = self.to_clamped();
        let b = Self::MAX - other.to_clamped();
        assert(-2048 * 4095 <= a * b <= 2048 * 4095) by (nonlinear_arith)
            requires
                -2048 <= a <= 2047,
                0 <= b <= 4095,
        ;
        let p = a * b;
        let q = p / Self::MAX;
        Self::new(q, self.inverted_source)
    }

    /// Core of the smoothing filter: a first-order infinite impulse response
    /// step, `acc - (acc >> 3) + value`, saturated.
    fn smooth(&mut self, value: i32)
        ensures
            final(self).accumulated() == smooth_step(old(self).accumulated() as int, value as int),
            final(self).is_inverted() == old(self).is_inverted(),
    {
        let w = shr3(self.accumulated_raw);
        let next: i64 = self.accumulated_raw as i64 - w as i64 + value as i64;
        self.accumulated_raw = saturate(next);
    }
}

/// Updating a smoothed value with a new reading.
pub trait SampleUpdate<V>: Sized {
    /// The value after an update with `value`.
    spec fn after_update(self, value: V) -> Self;

    /// Updates with a new value.
    fn update(&mut self, value: V)
        ensures
            *final(self) == old(self).after_update(value),
    ;
}

impl SampleUpdate<i32> for Sample {
    open spec fn after_update(self, value: i32) -> Sample {
        Sample {
            accumulated_raw: smooth_step(self.accumulated() as int, value as int),
            inverted_source: self.is_inverted(),
        }
    }

    /// Update with a signed value, expected within -2048..2048.
    fn update(&mut self, value: i32) {
        self.smooth(value);
    }
}

impl SampleUpdate<u16> for Sample {
    open spec fn after_update(self, value: u16) -> Sample {
        Sample {
            accumulated_raw: smooth_step(
                self.accumulated() as int,
                centred(value as int, self.is_inverted()),
            ),
            inverted_source: self.is_inverted(),
        }
    }

    /// Update with an unsigned 12 bit reading (0..4096), offset to the
    /// centre and negated for an inverted source.
    fn update(&mut self, value: u16) {
        let mut v: i32 = value as i32 - Self::OFFSET;
        if self.inverted_source {
            v = -v;
        }
        self.smooth(v);
    }
}

impl SampleUpdate<Sample> for Sample {
    open spec fn after_update(self, value: Sample) -> Sample {
        Sample {
            accumulated_raw: smooth_step(self.accumulated() as int, value.clamped()),
            inverted_source: self.is_inverted(),
        }
    }

    /// Update with the clamped value of another sample.
    fn update(&mut self, value: Sample) {
        let v = value.to_clamped();
        self.smooth(v);
    }
}

impl From<i32> for Sample {
    fn from(value: i32) -> (r: Self) {
        Self::new(value, false)
    }
}

impl vstd::std_specs::convert::FromSpecImpl<i32> for Sample {
    open spec fn obeys_from_spec() -> bool {
        true
    }

    open spec fn from_spec(v: i32) -> Sample {
        Sample { accumulated_raw: accumulator_for(v as int, false), inverted_source: false }
    }
}

impl From<i16> for Sample {
    fn from(value: i16) -> (r: Self) {
        Self::new(value as i32, false)
    }
}

impl vstd::std_specs::convert::FromSpecImpl<i16> for Sample {
    open spec fn obeys_from_spec() -> bool {
        true
    }

    open spec fn from_spec(v: i16) -> Sample {
        Sample { accumulated_raw: accumulator_for(v as int, false), inverted_source: false }
    }
}

impl core::ops::Add for Sample {
    type Output = Self;

    /// Sum of the raw accumulators, saturated; keeps the left polarity flag.
    fn add(self, rhs: Self) -> (r: Self) {
        let sum: i64 = self.accumulated_raw as i64 + rhs.accumulated_raw as i64;
        Sample { accumulated_raw: saturate(sum), inverted_source: self.inverted_source }
    }
}

impl vstd::std_specs::ops::AddSpecImpl for Sample {
    open spec fn obeys_add_spec() -> bool {
        true
    }

    open spec fn add_req(self, rhs: Sample) -> bool {
        true
    }

    open spec fn add_spec(self, rhs: Sample) -> Sample {
        self.sum(rhs)
    }
}

impl core::ops::Sub for Sample {
    type Output = Self;

    /// Difference of the raw accumulators, saturated; keeps the left polarity flag.
    fn sub(self, rhs: Self) -> (r: Self) {
        let diff: i64 = self.accumulated_raw as i64 - rhs.accumulated_raw as i64;
        Sample { accumulated_raw: saturate(diff), inverted_source: self.inverted_source }
    }
}

impl vstd::std_specs::ops::SubSpecImpl for Sample {
    open spec fn obeys_sub_spec() -> bool {
        true
    }

    open spec fn sub_req(self, rhs: Sample) -> bool {
        true
    }

    open spec fn sub_spec(self, rhs: Sample) -> Sample {
        self.difference(rhs)
    }
}

impl core::ops::Mul for Sample {
    type Output = Self;

    /// Product of the clamped values, carried back into the accumulator, saturated.
    fn mul(self, rhs: Self) -> (r: Self) {
        let a = self.to_clamped();
        let b = rhs.to_clamped();
        assert(-2048 * 2048 <= a * b <= 2048 * 2048) by (nonlinear_arith)
            requires
                -2048 <= a <= 2047,
                -2048 <= b <= 2047,
        ;
        Sample { accumulated_raw: saturate((a * b) as i64 * 8), inverted_source: self.inverted_source }
    }
}

impl vstd::std_specs::ops::MulSpecImpl for Sample {
    open spec fn obeys_mul_spec() -> bool {
        true
    }

    open spec fn mul_req(self, rhs: Sample) -> bool {
        true
    }

    open spec fn mul_spec(self, rhs: Sample) -> Sample {
        self.product(rhs)
    }
}

impl core::ops::Mul<i32> for Sample {
    type Output = Self;

    /// Integer part times a factor, carried back into the accumulator, saturated.
    fn mul(self, rhs: i32) -> (r: Self) {
        let a = shr3(self.accumulated_raw);
        assert(-0x1000_0000 * 0x8000_0000 <= a * rhs <= 0x1000_0000 * 0x8000_0000)
            by (nonlinear_arith)
            requires
                -0x1000_0000 <= a < 0x1000_0000,
                -0x8000_0000 <= rhs < 0x8000_0000,
        ;
        let p: i64 = a as i64 * rhs as i64;
        let clipped: i64 = if p > i32::MAX as i64 {
            i32::MAX as i64
        } else if p < i32::MIN as i64 {
            i32::MIN as i64
        } else {
            p
        };
        Sample { accumulated_raw: saturate(clipped * 8), inverted_source: self.inverted_source }
    }
}

impl vstd::std_specs::ops::MulSpecImpl<i32> for Sample {
    open spec fn obeys_mul_spec() -> bool {
        true
    }

    open spec fn mul_req(self, rhs: i32) -> bool {
        true
    }

    open spec fn mul_spec(self, rhs: i32) -> Sample {
        self.times(rhs as int)
    }
}

impl core::ops::Div<i32> for Sample {
    type Output = Self;

    /// Integer part divided by a nonzero divisor, truncating toward zero,
    /// carried back into the accumulator, saturated.
    fn div(self, rhs: i32) -> (r: Self) {
        let a = shr3(self.accumulated_raw);
        let n: i64 = a as i64;
        let d: i64 = rhs as i64;
        assert(abs_int(n as int) / abs_int(d as int) <= abs_int(n as int)) by (nonlinear_arith)
            requires
                abs_int(d as int) >= 1,
                abs_int(n as int) >= 0,
        ;
        let an: i64 = if n < 0 {
            -n
        } else {
            n
        };
        let ad: i64 = if d < 0 {
            -d
        } else {
            d
        };
        let m: i64 = an / ad;
        let q: i64 = if (n >= 0) == (d > 0) {
            m
        } else {
            -m
        };
        Sample { accumulated_raw: saturate(q * 8), inverted_source: self.inverted_source }
    }
}

impl vstd::std_specs::ops::DivSpecImpl<i32> for Sample {
    open spec fn obeys_div_spec() -> bool {
        true
    }

    open spec fn div_req(self, rhs: i32) -> bool {
        rhs != 0
    }

    open spec fn div_spec(self, rhs: i32) -> Sample {
        self.quotient(rhs as int)
    }
}

} // verus!

verus! {

/// Inverting the source and inverting the output agree outside the open
/// domain: for a raw value `v` with `v <= -2048` or `v >= 2048`, the output of
/// `new(v, false)` equals the inverted output of `new(v, true)`.
pub proof fn lemma_inversion_at_domain_edges(v: i32)
    requires
        v <= -2048 || v >= 2048,
    ensures
        Sample::of(v as int, false).output() == U12_MAX - Sample::of(v as int, true).output(),
{
}

/// Inside the domain the two inversions differ by one unit, from the
/// asymmetric range of signed 12 bit values: for `-2047 <= v <= 2047`, the
/// output of `new(v, false)` is one more than the inverted output of
/// `new(v, true)`.
pub proof fn lemma_inversion_inside_domain(v: i32)
    requires
        -2047 <= v <= 2047,
    ensures
        Sample::of(v as int, false).output() == U12_MAX - Sample::of(v as int, true).output()
            + 1,
{
}

/// Output complement: every sample's 12 bit output lies in `0..=4095` and
/// its 11 bit output in `0..=2047`, so each output is its domain maximum less
/// the inverted output.
pub proof fn lemma_output_complement(s: Sample)
    ensures
        0 <= s.output() <= U12_MAX,
        s.output() == U12_MAX - (U12_MAX - s.output()),
        0 <= s.output() / 2 <= U11_MAX,
        s.output() / 2 == U11_MAX - (U11_MAX - s.output() / 2),
{
}

/// Saturation: a reading at or above 4096 clamps to `MAX`, however far above
/// it lies, and a reading of zero clamps to `MIN`.
pub proof fn lemma_reading_saturates(raw: u16)
    ensures
        raw >= 4096 ==> Sample::of(raw - 2048, false).clamped() == Sample::MAX,
        Sample::of(0 - 2048, false).clamped() == Sample::MIN,
{
}

/// Accumulator after `n` smoothing steps toward `v`, starting from `acc`.
pub open spec fn smoothed(acc: int, v: int, n: nat) -> int
    decreases n,
{
    if n == 0 {
        acc
    } else {
        smooth_step(smoothed(acc, v, (n - 1) as nat), v) as int
    }
}

/// How far an accumulator error `e = acc - 8 * v` is from the resting band
/// `0..=7`, in which the integer part equals `v`.
spec fn distance(e: int) -> int {
    if e >= 7 {
        e - 7
    } else if e >= 0 {
        0
    } else {
        -e
    }
}

/// One smoothing step shrinks the distance to the resting band by at least
/// an eighth.
proof fn lemma_step_contracts(acc: int, v: int)
    requires
        -2048 <= v <= 2048,
        distance(acc - 8 * v) <= 32768,
    ensures
        8 * distance(smooth_step(acc, v) - 8 * v) <= 7 * distance(acc - 8 * v),
{
    let e = acc - 8 * v;
    lemma_fundamental_div_mod(acc, 8);
    lemma_fundamental_div_mod(e, 8);
    assert(whole(acc) == whole(e) + v);
}

/// Eleven smoothing steps shrink the distance to the resting band to a
/// quarter or less.
proof fn lemma_eleven_steps(acc: int, v: int, n: nat)
    requires
        -2048 <= v <= 2048,
        distance(smoothed(acc, v, n) - 8 * v) <= 32768,
    ensures
        4 * distance(smoothed(acc, v, n + 11) - 8 * v) <= distance(smoothed(acc, v, n) - 8 * v),
{
    let d0 = distance(smoothed(acc, v, n) - 8 * v);
    lemma_step_contracts(smoothed(acc, v, n), v);
    let d1 = distance(smoothed(acc, v, n + 1) - 8 * v);
    lemma_step_contracts(smoothed(acc, v, n + 1), v);
    let d2 = distance(smoothed(acc, v, n + 2) - 8 * v);
    lemma_step_contracts(smoothed(acc, v, n + 2), v);
    let d3 = distance(smoothed(acc, v, n + 3) - 8 * v);
    lemma_step_contracts(smoothed(acc, v, n + 3), v);
    let d4 = distance(smoothed(acc, v, n + 4) - 8 * v);
    lemma_step_contracts(smoothed(acc, v, n + 4), v);
    let d5 = distance(smoothed(acc, v, n + 5) - 8 * v);
    lemma_step_contracts(smoothed(acc, v, n + 5), v);
    let d6 = distance(smoothed(acc, v, n + 6) - 8 * v);
    lemma_step_contracts(smoothed(acc, v, n + 6), v);
    let d7 = distance(smoothed(acc, v, n + 7) - 8 * v);
    lemma_step_contracts(smoothed(acc, v, n + 7), v);
    let d8 = distance(smoothed(acc, v, n + 8) - 8 * v);
    lemma_step_contracts(smoothed(acc, v, n + 8), v);
    let d9 = distance(smoothed(acc, v, n + 9) - 8 * v);
    lemma_step_contracts(smoothed(acc, v, n + 9), v);
    let d10 = distance(smoothed(acc, v, n + 10) - 8 * v);
    lemma_step_contracts(smoothed(acc, v, n + 10), v);
    let d11 = distance(smoothed(acc, v, n + 11) - 8 * v);
    assert(8589934592 * d11 <= 1977326743 * d0) by (nonlinear_arith)
        requires
            d0 >= 0,
            d1 >= 0,
            d2 >= 0,
            d3 >= 0,
            d4 >= 0,
            d5 >= 0,
            d6 >= 0,
            d7 >= 0,
            d8 >= 0,
            d9 >= 0,
            d10 >= 0,
            d11 >= 0,
            8 * d1 <= 7 * d0,
            8 * d2 <= 7 * d1,
            8 * d3 <= 7 * d2,
            8 * d4 <= 7 * d3,
            8 * d5 <= 7 * d4,
            8 * d6 <= 7 * d5,
            8 * d7 <= 7 * d6,
            8 * d8 <= 7 * d7,
            8 * d9 <= 7 * d8,
            8 * d10 <= 7 * d9,
            8 * d11 <= 7 * d10,
    ;
}

/// Once within a bound, the distance to the resting band stays within it.
proof fn lemma_distance_stays(acc: int, v: int, m: nat, n: nat, bound: int)
    requires
        -2048 <= v <= 2048,
        m <= n,
        bound <= 32768,
        distance(smoothed(acc, v, m) - 8 * v) <= bound,
    ensures
        distance(smoothed(acc, v, n) - 8 * v) <= bound,
    decreases n - m,
{
    if m < n {
        lemma_step_contracts(smoothed(acc, v, m), v);
        lemma_distance_stays(acc, v, m + 1, n, bound);
    }
}

/// A smoothing step never carries the accumulator across the target: an
/// error at or below zero stays there, and so does one at or above zero.
proof fn lemma_step_keeps_side(acc: int, v: int)
    requires
        -2048 <= v <= 2048,
        distance(acc - 8 * v) <= 32768,
    ensures
        acc - 8 * v <= 0 ==> smooth_step(acc, v) - 8 * v <= 0,
        acc - 8 * v >= 0 ==> smooth_step(acc, v) - 8 * v >= 0,
{
    let e = acc - 8 * v;
    lemma_fundamental_div_mod(acc, 8);
    lemma_fundamental_div_mod(e, 8);
    assert(whole(acc) == whole(e) + v);
}

/// Repeated smoothing stays on the side of the target it started from.
proof fn lemma_side_stays(acc: int, v: int, n: nat)
    requires
        -2048 <= v <= 2048,
        distance(acc - 8 * v) <= 32768,
    ensures
        acc - 8 * v <= 0 ==> smoothed(acc, v, n) - 8 * v <= 0,
        acc - 8 * v >= 0 ==> smoothed(acc, v, n) - 8 * v >= 0,
    decreases n,
{
    if n > 0 {
        lemma_side_stays(acc, v, (n - 1) as nat);
        lemma_distance_stays(acc, v, 0, (n - 1) as nat, 32768);
        lemma_step_keeps_side(smoothed(acc, v, (n - 1) as nat), v);
    }
}

/// Step response of the smoothing: a sample in the 12 bit domain updated 66
/// times or more with one constant target `v` in the domain ends within one
/// unit of it, approaching from the side it started on without passing it:
/// from below it ends in `v - 1 ..= v`, from above in `v ..= v + 1`.
pub proof fn lemma_smoothing_step_response(acc: i32, v: int, n: nat)
    requires
        -2048 <= v <= 2047,
        -2048 * 8 <= acc < 2048 * 8,
        n >= 66,
    ensures
        clamped_of(acc as int) < v ==> v - 1 <= clamped_of(smoothed(acc as int, v, n)) <= v,
        clamped_of(acc as int) > v ==> v <= clamped_of(smoothed(acc as int, v, n)) <= v + 1,
{
    let a = acc as int;
    lemma_smoothing_converges(acc, v, n);
    lemma_side_stays(a, v, n);
    lemma_fundamental_div_mod(a, 8);
    lemma_fundamental_div_mod(smoothed(a, v, n), 8);
}

/// Smoothing convergence: updating, 66 times or more, a sample whose value
/// lies in the 12 bit domain with one constant input `v` (an offset-centred
/// 12 bit reading of either polarity) brings its clamped value to within one
/// unit of the clamped input, whether the input lies above or below it.
pub proof fn lemma_smoothing_converges(acc: i32, v: int, n: nat)
    requires
        -2048 <= v <= 2048,
        -2048 * 8 <= acc < 2048 * 8,
        n >= 66,
    ensures
        abs_int(clamped_of(smoothed(acc as int, v, n)) - clamp12(v)) <= 1,
{
    let a = acc as int;
    lemma_eleven_steps(a, v, 0);
    lemma_eleven_steps(a, v, 11);
    lemma_eleven_steps(a, v, 22);
    lemma_eleven_steps(a, v, 33);
    lemma_eleven_steps(a, v, 44);
    lemma_eleven_steps(a, v, 55);
    assert(distance(smoothed(a, v, 66) - 8 * v) <= 8);
    lemma_distance_stays(a, v, 66, n, 8);
    let e = smoothed(a, v, n) - 8 * v;
    lemma_fundamental_div_mod(smoothed(a, v, n), 8);
}

} // verus!
