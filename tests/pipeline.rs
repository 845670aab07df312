use wscomp::control::{
    indicator_levels, led_gamma, AudioState, Controller, MuxState, TickStats, TriangleWave11,
    ZSwitch,
};
use wscomp::decoder::{data_chunk, decode_all, CompressedStreamDecoder, DecodeError, SAMPLES_PER_BLOCK};
use wscomp::mixer::{mix, saw_next, texture_sample, DACSamplePair, Mixer};
use wscomp::queue::{SampleQueue, QUEUE_CAPACITY};
use wscomp::volts::{audio_output, cv_output, gate_levels, led_gamma_11bit, output_words};
use wscomp::{JackSample, Sample, SampleUpdate, U12_MAX};

/// A mono IMA ADPCM block: header with predictor and step index, then nibbles.
fn block(predictor: i16, step: u8, seed: u8) -> Vec<u8> {
    let mut b = Vec::new();
    b.extend_from_slice(&predictor.to_le_bytes());
    b.push(step);
    b.push(0);
    for i in 0..1020u32 {
        b.push((i as u8).wrapping_mul(37).wrapping_add(seed));
    }
    b
}

/// A WAVE file with a `fmt ` chunk and a `data` chunk holding `payload`.
fn wav(payload: &[u8]) -> Vec<u8> {
    let mut w = Vec::new();
    w.extend_from_slice(b"RIFF");
    w.extend_from_slice(&((payload.len() + 36) as u32).to_le_bytes());
    w.extend_from_slice(b"WAVE");
    w.extend_from_slice(b"fmt ");
    w.extend_from_slice(&20u32.to_le_bytes());
    w.extend_from_slice(&[0u8; 20]);
    w.extend_from_slice(b"data");
    w.extend_from_slice(&(payload.len() as u32).to_le_bytes());
    w.extend_from_slice(payload);
    w
}

fn two_block_corpus() -> Vec<u8> {
    let mut payload = block(1000, 20, 3);
    payload.extend(block(-2000, 40, 11));
    wav(&payload)
}

#[test]
fn inversion_agrees_at_domain_edges() {
    for v in [2048, 3000, -2048, -5000] {
        assert_eq!(Sample::new(v, false).to_output(), Sample::new(v, true).to_output_inverted());
    }
}

#[test]
fn inversion_differs_by_one_inside_domain() {
    for v in [0, 5, -2047, 2047] {
        assert_eq!(
            Sample::new(v, false).to_output(),
            Sample::new(v, true).to_output_inverted() + 1
        );
    }
}

#[test]
fn eleven_bit_outputs_complement() {
    for s in [Sample::from_u16(0, false), Sample::from_u16(1000, false), Sample::from_u16(9000, true)] {
        assert_eq!(s.to_output_11bit(), 2047 - s.to_output_11bit_inverted());
    }
    assert_eq!(Sample::from_u16(1001, false).to_output_11bit(), 500);
    assert_eq!(Sample::from_u16(4095, false).to_output_11bit(), 2047);
}

#[test]
fn readings_saturate() {
    for raw in [4096u16, 4097, 30000, u16::MAX] {
        assert_eq!(Sample::from_u16(raw, false).to_clamped(), Sample::MAX);
    }
    assert_eq!(Sample::from_u16(0, false).to_clamped(), Sample::MIN);
}

#[test]
fn smoothing_converges_rising_and_falling() {
    let mut rising = Sample::from_u16(0, false);
    for _ in 0..66 {
        rising.update(4095_u16);
    }
    assert!((rising.to_clamped() - 2047).abs() <= 1);

    let mut falling = Sample::from_u16(4095, false);
    for _ in 0..66 {
        falling.update(0_u16);
    }
    assert!((falling.to_clamped() + 2048).abs() <= 1);

    let mut inverted = Sample::from_u16(0, true);
    for _ in 0..66 {
        inverted.update(4095_u16);
    }
    assert!((inverted.to_clamped() + 2047).abs() <= 1);
}

#[test]
fn absolute_and_inverted_samples() {
    assert_eq!(Sample::new(-100, false).abs(), Sample::new(100, false));
    assert_eq!(Sample::new(-2048, false).to_output_abs(), 2047);
    assert_eq!(Sample::new(-100, false).to_output_abs_inverted(), U12_MAX - 100);
    assert_eq!(Sample::new(5, false).to_inverted().to_clamped(), -40);
    assert_eq!(Sample::from(-7_i16), Sample::new(-7, false));
    assert_eq!(Sample::new(10, false) * Sample::new(-3, false), Sample::new(-30, false));
}

#[test]
fn scaling_truncates_toward_zero() {
    let half = Sample::new(1024, false);
    assert_eq!(Sample::new(-1000, false).scale(half).to_clamped(), -500);
    assert_eq!(Sample::new(1001, false).scale(half).to_clamped(), 500);
    assert_eq!(Sample::new(-1001, false).scale_inverted(half).to_clamped(), -500);
    assert_eq!(Sample::new(700, false).scale(Sample::new(Sample::MAX, false)).to_clamped(), 700);
    assert_eq!(Sample::new(700, false).scale_inverted(Sample::new(Sample::MAX, false)).to_clamped(), 0);
}

#[test]
fn update_from_sample_and_i32() {
    let mut s = Sample::new(0, false);
    s.update(Sample::new(800, false));
    assert_eq!(s.to_clamped(), 100);
    let mut t = Sample::new(0, false);
    t.update(800_i32);
    assert_eq!(t.to_clamped(), 100);
}

#[test]
fn plug_detection_threshold_is_inclusive() {
    let raw = Sample::new(100, false);
    let connected = JackSample::new(raw, Sample::new(400, false));
    assert_eq!(connected.plugged_value(), Some(&raw));
    let disconnected = JackSample::new(raw, Sample::new(401, false));
    assert_eq!(disconnected.plugged_value(), None);
}

#[test]
fn crossfade_end_points() {
    for (l, m, h) in [(100i16, -3000i16, 25000i16), (-32768, 32767, -16), (0, 15, -17)] {
        let light = texture_sample(l);
        let medium = texture_sample(m);
        let heavy = texture_sample(h);
        let full = mix(light, medium, heavy, Some(Sample::new(Sample::MAX, false)));
        assert_eq!(full, heavy);
        let zero = mix(light, medium, heavy, Some(Sample::new(0, false)));
        assert_eq!(zero, medium);
        assert_eq!(mix(light, medium, heavy, None), medium);
    }
}

#[test]
fn negative_intensity_fades_toward_light() {
    let light = texture_sample(16000);
    let medium = texture_sample(-16000);
    let heavy = texture_sample(0);
    let full_light = mix(light, medium, heavy, Some(Sample::new(-2047, false)));
    assert_eq!(full_light.to_clamped(), 1000);
}

#[test]
fn texture_reduction_is_arithmetic_shift() {
    assert_eq!(texture_sample(-1).to_clamped(), -1);
    assert_eq!(texture_sample(-32768).to_clamped(), -2048);
    assert_eq!(texture_sample(32767).to_clamped(), 2047);
    assert_eq!(texture_sample(31).to_clamped(), 1);
}

#[test]
fn dac_words_carry_config_bits() {
    let p = DACSamplePair::new(0xffff, 0x0123);
    assert_eq!(p.audio1, 0x3fff);
    assert_eq!(p.audio2, 0xb123);
    let q = DACSamplePair::new(2048, 0);
    assert_eq!(q.audio1, 0x3800);
    assert_eq!(q.audio2, 0xb000);
}

#[test]
fn saw_wraps_past_maximum() {
    assert_eq!(saw_next(0, 16), 16);
    assert_eq!(saw_next(4080, 16), 0);
    assert_eq!(saw_next(4079, 16), 4095);
}

#[test]
fn data_chunk_skips_other_chunks() {
    let w = wav(&[1, 2, 3]);
    assert_eq!(data_chunk(&w), Some(&[1u8, 2, 3][..]));
    let mut truncated = w.clone();
    truncated.pop();
    assert_eq!(data_chunk(&truncated), None);
    assert_eq!(data_chunk(b"RIFF"), None);
}

#[test]
fn decode_errors() {
    let none = b"RIFF\x04\x00\x00\x00WAVEfmt \x00\x00\x00\x00".to_vec();
    assert_eq!(decode_all(&none).err(), Some(DecodeError::NoDataChunk));
    assert!(matches!(CompressedStreamDecoder::new(&none, 0), Err(DecodeError::NoDataChunk)));
    let short = wav(&[0u8; 1000]);
    assert_eq!(decode_all(&short).err(), Some(DecodeError::NoWholeBlock));
    assert!(matches!(CompressedStreamDecoder::new(&short, 0), Err(DecodeError::NoWholeBlock)));
}

#[test]
fn one_shot_decode_reads_block_headers() {
    let w = two_block_corpus();
    let all = decode_all(&w).unwrap();
    assert_eq!(all.len(), 2 * SAMPLES_PER_BLOCK);
    assert_eq!(all[0], 1000);
    assert_eq!(all[SAMPLES_PER_BLOCK], -2000);
    assert!(all[1..SAMPLES_PER_BLOCK].iter().any(|&s| s != 1000));
}

#[test]
fn decoder_restarts_seamlessly() {
    let w = two_block_corpus();
    let all = decode_all(&w).unwrap();
    let mut d = CompressedStreamDecoder::new(&w, 0).unwrap();
    for k in 0..all.len() {
        assert_eq!(d.next(), all[k]);
    }
    for k in 0..all.len() {
        assert_eq!(d.next(), all[k]);
    }
}

#[test]
fn decoder_offset_starts_inside_corpus() {
    let w = two_block_corpus();
    let all = decode_all(&w).unwrap();
    let offset = 2 * all.len() + 691;
    let mut d = CompressedStreamDecoder::new(&w, offset).unwrap();
    for k in 0..all.len() {
        assert_eq!(d.next(), all[(691 + k) % all.len()]);
    }
}

#[test]
fn mixer_produces_blended_pairs() {
    let w = two_block_corpus();
    let all = decode_all(&w).unwrap();
    let light = CompressedStreamDecoder::new(&w, 0).unwrap();
    let medium = CompressedStreamDecoder::new(&w, 277).unwrap();
    let heavy = CompressedStreamDecoder::new(&w, 691).unwrap();
    let mut m = Mixer::new(light, medium, heavy);
    for k in 0..5 {
        let p = m.next_pair(Some(Sample::new(Sample::MAX, false)));
        let h = texture_sample(all[691 + k]);
        assert_eq!(p, DACSamplePair::new(h.to_output(), 16 * (k as u16 + 1)));
    }
    let p = m.next_pair(None);
    assert_eq!(p, DACSamplePair::new(texture_sample(all[277 + 5]).to_output(), 96));
}

#[test]
fn queue_backpressure() {
    let mut q = SampleQueue::new();
    for i in 0..QUEUE_CAPACITY {
        assert!(q.try_send(DACSamplePair::new(i as u16, 0)));
    }
    assert!(q.is_full());
    assert!(!q.try_send(DACSamplePair::new(4000, 0)));
    assert_eq!(q.try_receive(), Some(DACSamplePair::new(0, 0)));
    assert!(q.try_send(DACSamplePair::new(4000, 0)));
    for i in 1..QUEUE_CAPACITY {
        assert_eq!(q.try_receive(), Some(DACSamplePair::new(i as u16, 0)));
    }
    assert_eq!(q.try_receive(), Some(DACSamplePair::new(4000, 0)));
    assert_eq!(q.try_receive(), None);
}

#[test]
fn mixer_fills_queue_until_full() {
    let w = two_block_corpus();
    let light = CompressedStreamDecoder::new(&w, 0).unwrap();
    let medium = CompressedStreamDecoder::new(&w, 0).unwrap();
    let heavy = CompressedStreamDecoder::new(&w, 0).unwrap();
    let mut m = Mixer::new(light, medium, heavy);
    let mut q = SampleQueue::new();
    assert_eq!(m.fill(&mut q, None, 10), 10);
    assert_eq!(m.fill(&mut q, None, 5000), QUEUE_CAPACITY - 10);
    assert!(q.is_full());
    assert_eq!(m.fill(&mut q, None, 5), 0);
}

#[test]
fn switch_levels() {
    assert_eq!(ZSwitch::from_level(999), ZSwitch::Momentary);
    assert_eq!(ZSwitch::from_level(1000), ZSwitch::Off);
    assert_eq!(ZSwitch::from_level(3000), ZSwitch::Off);
    assert_eq!(ZSwitch::from_level(3001), ZSwitch::On);
    assert_eq!(ZSwitch::default(), ZSwitch::Off);
}

#[test]
fn default_states_are_centred() {
    let m = MuxState::default();
    assert_eq!(m.main_knob.to_output(), 2048);
    assert_eq!(m.cv1.raw, Sample::new(0, true));
    assert_eq!(m.sequence_counter, 0);
    let a = AudioState::default();
    assert_eq!(a.audio2.probe, Sample::new(0, true));
}

#[test]
fn triangle_wave_wraps() {
    let mut t = TriangleWave11::new();
    assert_eq!(t.current(), Sample::new(-512, false));
    t.tick();
    assert_eq!(t.current(), Sample::new(-511, false));
    for _ in 0..2047 {
        t.tick();
    }
    assert_eq!(t.current(), Sample::new(512, false));
    t.tick();
    assert_eq!(t.current(), Sample::new(511, false));
}

#[test]
fn controller_lfo_every_sixty_four_ticks() {
    let mut c = Controller::new();
    assert_eq!(c.current_intensity(), Sample::new(0, false));
    assert_eq!(c.current_lfo(), Sample::new(-512, false));
    for _ in 0..63 {
        let out = c.step(None, None);
        assert_eq!(out.lfo, None);
        assert_eq!(out.intensity, None);
    }
    let out = c.step(None, None);
    assert_eq!(out.lfo, Some(Sample::new(-511, false)));
}

#[test]
fn controller_smooths_knob_plus_input() {
    let mut c = Controller::new();
    let mut mux = MuxState::default();
    mux.main_knob = Sample::new(800, false);
    let out = c.step(Some(&mux), None);
    assert_eq!(out.intensity.unwrap().to_clamped(), 100);

    let mut c = Controller::new();
    let mut audio = AudioState::default();
    audio.audio1 = JackSample::new(Sample::new(800, false), Sample::new(800, false));
    let out = c.step(Some(&mux), Some(&audio));
    assert_eq!(out.intensity.unwrap().to_clamped(), 200);

    let mut c = Controller::new();
    audio.audio1 = JackSample::new(Sample::new(0, false), Sample::new(2000, false));
    let out = c.step(Some(&mux), Some(&audio));
    // unplugged: knob 800 offset by the LFO at -512
    assert_eq!(out.intensity.unwrap().to_clamped(), 36);
}

#[test]
fn indicator_levels_follow_intensity() {
    let up = indicator_levels(Sample::new(1000, false), Some(Sample::new(-48, false)));
    assert_eq!(up.led1, 1000);
    assert_eq!(up.led3, U12_MAX - 1000);
    assert_eq!(up.led5, 0);
    assert_eq!(up.cv1, U12_MAX - 3048);
    assert_eq!(up.led4, Some(2000));
    assert_eq!(up.cv2, Some(U12_MAX - 2000));
    let down = indicator_levels(Sample::new(-1000, false), None);
    assert_eq!(down.led1, 0);
    assert_eq!(down.led5, 1000);
    assert_eq!(down.led4, None);
}

#[test]
fn gamma_curves() {
    assert_eq!(led_gamma(4095), 4095);
    assert_eq!(led_gamma(2048), 1024);
    assert_eq!(led_gamma(u16::MAX), u16::MAX);
    assert_eq!(led_gamma_11bit(2048), 2048);
    assert_eq!(led_gamma_11bit(1024), 512);
}

#[test]
fn tick_stats_publish_and_reset() {
    let mut s = TickStats::new();
    for i in 1..16u32 {
        assert_eq!(s.begin_tick(), None, "tick {}", i);
        s.end_tick(10);
    }
    assert_eq!(s.begin_tick(), Some(16));
    let r = s.end_tick(30);
    assert_eq!(r.raise_max, Some(30));
    assert!(!r.reset_max);
    assert_eq!(s.end_tick(20).raise_max, None);
    for _ in 16..48000u32 {
        s.begin_tick();
    }
    assert!(s.end_tick(5).reset_max);
    assert_eq!(s.end_tick(5).raise_max, Some(5));
}

#[test]
fn volts_outputs() {
    let knob = Sample::new(1024, false);
    assert_eq!(audio_output(knob, None, None), knob);
    assert_eq!(audio_output(knob, Some(Sample::new(1024, false)), None).to_clamped(), 512);
    assert_eq!(
        audio_output(knob, Some(Sample::new(1024, false)), Some(Sample::new(0, false))).to_clamped(),
        256
    );
    assert_eq!(cv_output(knob, Some(Sample::new(-2048, false))).to_clamped(), -1024);
    assert_eq!(cv_output(knob, None), knob);
    let on = gate_levels(ZSwitch::On);
    assert!(on.led5 && !on.pulse1 && !on.led6 && on.pulse2);
    let off = gate_levels(ZSwitch::Off);
    assert!(!off.led5 && off.pulse1 && off.led6 && !off.pulse2);
    assert_eq!(gate_levels(ZSwitch::Momentary), on);
}

#[test]
fn product_clamps_operands_first() {
    let p = Sample::new(3000, false) * Sample::new(1, false);
    assert_eq!(p.accumulated_raw, 8 * 2047);
    assert_eq!(p, Sample::new(2047, false));
    let q = Sample::new(-5000, false) * Sample::new(2, false);
    assert_eq!(q, Sample::new(-4096, false));
}

#[test]
fn volts_dac_words() {
    let (a, b) = output_words(Sample::new(1000, false));
    assert_eq!(a, 0x1000 | (U12_MAX - 3048));
    assert_eq!(b, 0x9000 | 3048);
}

#[test]
fn smoothing_approaches_without_overshoot() {
    let mut rising = Sample::new(Sample::MIN, false);
    for _ in 0..70 {
        rising.update(1500_i32);
        assert!(rising.to_clamped() <= 1500);
    }
    assert!(rising.to_clamped() >= 1499);
    let mut falling = Sample::new(Sample::MAX, false);
    for _ in 0..70 {
        falling.update(-1500_i32);
        assert!(falling.to_clamped() >= -1500);
    }
    assert!(falling.to_clamped() <= -1499);
}

#[test]
fn samples_order_by_accumulator() {
    assert!(Sample::new(5, false) > Sample::new(0, false));
    assert!(Sample::new(-5, false) < Sample::new(0, false));
}
