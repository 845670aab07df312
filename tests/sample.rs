use wscomp::{Sample, SampleUpdate, U12_MAX};

#[test]
fn test_input_value_basics() {
    assert_eq!(Sample::MIN, -2048);
    assert_eq!(Sample::MAX, 2047);
}

#[test]
fn test_input_value_to_clamped() {
    // clamp to 12 bit values when inputs are above range
    assert_eq!(Sample::from_u16(8000, false).to_clamped(), Sample::MAX);
    assert_eq!(Sample::from_u16(5000, false).to_clamped(), Sample::MAX);
    assert_eq!(Sample::from_u16(4096, false).to_clamped(), Sample::MAX);
}

#[test]
fn test_input_value_from() {
    assert_eq!(Sample::from_u16(0, false).to_clamped(), Sample::MIN);
    assert_eq!(Sample::from_u16(2048, false).to_clamped(), 0);
    assert_eq!(Sample::from_u16(U12_MAX, false).to_clamped(), Sample::MAX);
}

#[test]
fn test_input_value_to_output() {
    assert_eq!(Sample::new(Sample::CENTER, false).to_output(), 2048_u16);

    assert_eq!(Sample::from_u16(0, false).to_output(), 0);
    assert_eq!(Sample::from_u16(2_u16, false).to_output(), 2_u16);
    assert_eq!(Sample::from_u16(1024_u16, false).to_output(), 1024_u16);
    assert_eq!(Sample::from_u16(2048_u16, false).to_output(), 2048_u16);

    // clamp to 12 bit values in to_output() when inputs are above range
    assert_eq!(Sample::from_u16(8000, false).to_output(), U12_MAX);
    assert_eq!(Sample::from_u16(5000, false).to_output(), U12_MAX);
    assert_eq!(Sample::from_u16(4096, false).to_output(), U12_MAX);

    let below_range = Sample::from_u16(0, false) - Sample::new(5000, false);
    assert_eq!(below_range.to_output(), 0_u16);
}

#[test]
fn test_input_value_inverted_to_output() {
    assert_eq!(Sample::new(Sample::CENTER, true).to_output(), 2048_u16);

    assert_eq!(Sample::from_u16(0, true).to_output(), U12_MAX);
    assert_eq!(Sample::from_u16(1_u16, true).to_output(), U12_MAX);
    assert_eq!(Sample::from_u16(2_u16, true).to_output(), 4094_u16);
    assert_eq!(Sample::from_u16(1024_u16, true).to_output(), 3072_u16);
    assert_eq!(Sample::from_u16(U12_MAX, true).to_output(), 1_u16);

    // clamp to 12 bit values in to_output() when inputs are above range
    assert_eq!(Sample::from_u16(8000, true).to_output(), 0_u16);
    assert_eq!(Sample::from_u16(5000, true).to_output(), 0_u16);
    assert_eq!(Sample::from_u16(4096, true).to_output(), 0_u16);

    let below_range = Sample::from_u16(0, true) - Sample::new(5000, true);
    assert_eq!(below_range.to_output(), U12_MAX);
}

#[test]
fn test_input_value_to_output_inverted() {
    let samples = vec![
        Sample::new(Sample::CENTER, false),
        Sample::from_u16(0, false),
        Sample::from_u16(1, false),
        Sample::from_u16(2_u16, false),
        Sample::from_u16(1024_u16, false),
        Sample::from_u16(2048_u16, false),
        // above 12 bit range
        Sample::from_u16(4096_u16, false),
        Sample::from_u16(5000_u16, false),
        Sample::from_u16(8000_u16, false),
        // below zero sample
        Sample::from_u16(0, false) - Sample::new(5000, false),
    ];

    for sample in samples {
        println!(
            "val: {}, inverted: {}, MAX-val: {}",
            sample.to_output(),
            sample.to_output_inverted(),
            U12_MAX - sample.to_output_inverted()
        );
        assert_eq!(sample.to_output(), U12_MAX - sample.to_output_inverted());
    }
}

#[test]
fn test_input_value_math() {
    assert_eq!(
        Sample::new(123, false) + Sample::new(456, false),
        Sample::new(579, false)
    );

    assert_eq!(Sample::new(123, false) * 1, Sample::new(123, false));
    assert_eq!(Sample::new(123, false) * 2, Sample::new(246, false));
    assert_eq!(Sample::new(123, false) * -1, Sample::new(-123, false));

    let expected = Sample::new(123, false) * 0;
    assert_eq!(expected, Sample::new(0, false));

    // division
    assert_eq!(Sample::new(123, false) / 1, Sample::new(123, false));
    assert_eq!(Sample::new(240, false) / 2, Sample::new(120, false));
    assert_eq!(Sample::new(123, false) / -1, Sample::new(-123, false));
}

#[test]
fn test_input_value_update() {
    let mut sample = Sample::from(0_i32);
    assert_eq!(sample.to_clamped(), 0);
    sample.update(2048_u16);
    assert_eq!(sample.to_clamped(), 0);
    sample.update(0_u16);
    assert_eq!(sample.to_clamped(), -256);
    sample.update(0_u16);
    assert_eq!(sample.to_clamped(), -480);
    for _ in 0..64 {
        sample.update(0_u16);
    }
    assert_eq!(sample.to_clamped(), Sample::MIN, "should converge to MIN");
}
