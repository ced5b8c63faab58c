use kodama_dsp::DelayProcessor;
use kodama_dsp::MAX_DELAY_SAMPLES;
use kodama_dsp::MAX_VOICES;
use kodama_dsp::WAVEFORM_BUFFER_SIZE;

#[test]
fn test_delay_processor_creation() {
    let processor = DelayProcessor::new(44100);
    assert_eq!(processor.get_delay_time(), 300);
    assert_eq!(processor.get_feedback(), 300);
    assert_eq!(processor.get_mix(), 500);
    assert_eq!(processor.get_voices(), 1);
}

#[test]
fn test_parameter_clamping() {
    let mut processor = DelayProcessor::new(44100);

    processor.set_delay_time(-100);
    assert_eq!(processor.get_delay_time(), 0);

    processor.set_delay_time(5000);
    assert_eq!(processor.get_delay_time(), 2000);

    processor.set_feedback(1500);
    assert_eq!(processor.get_feedback(), 1000);

    processor.set_mix(-500);
    assert_eq!(processor.get_mix(), 0);

    processor.set_voices(0);
    assert_eq!(processor.get_voices(), 1);

    processor.set_voices(20);
    assert_eq!(processor.get_voices(), MAX_VOICES);
}

#[test]
fn test_process_stereo_dry() {
    let mut processor = DelayProcessor::new(44100);
    processor.set_delay_time(0);
    processor.set_mix(0);

    let input = vec![1000, 500, 0, -500, -1000];
    let mut left_out = vec![0i32; 5];
    let mut right_out = vec![0i32; 5];

    processor.process_stereo(&input, &input, &mut left_out, &mut right_out);

    for i in 0..5 {
        assert!((left_out[i] - input[i]).abs() < 1);
        assert!((right_out[i] - input[i]).abs() < 1);
    }
}

#[test]
fn test_voices_single_equals_original_behavior() {
    let mut processor = DelayProcessor::new(44100);
    processor.set_voices(1);
    processor.set_delay_time(100);
    processor.set_feedback(500);
    processor.set_mix(1000);

    let mut input_l = vec![0i32; 8820];
    let mut input_r = vec![0i32; 8820];
    input_l[0] = 1000;
    input_r[0] = 1000;

    let mut output_l = vec![0i32; 8820];
    let mut output_r = vec![0i32; 8820];

    processor.process_stereo(&input_l, &input_r, &mut output_l, &mut output_r);

    let delay_sample = 4410;
    assert!(output_l[delay_sample].abs() > 100, "Expected delay tap at 100ms");
    assert!((output_l[delay_sample] - output_r[delay_sample]).abs() < 1);
}

#[test]
fn test_tap_delay_with_offset() {
    let mut processor = DelayProcessor::new(44100);
    processor.set_voices(4);

    let base_delay = 1000;

    let tap0 = processor.calculate_tap_delay(0, base_delay);
    let tap1 = processor.calculate_tap_delay(1, base_delay);
    let tap2 = processor.calculate_tap_delay(2, base_delay);
    let tap3 = processor.calculate_tap_delay(3, base_delay);

    assert_eq!(tap0, 1000);
    assert_eq!(tap1, 2250);
    assert_eq!(tap2, 3500);
    assert_eq!(tap3, 4750);

    let interval_01 = tap1 - tap0;
    let interval_12 = tap2 - tap1;
    let interval_23 = tap3 - tap2;
    assert_eq!(interval_01, interval_12);
    assert_eq!(interval_12, interval_23);
}

#[test]
fn test_rms_roughly_constant_across_voice_counts() {
    let sample_rate = 44100;
    let test_duration_samples = 44100;

    let mut rms_values = Vec::new();

    for voice_count in [1, 2, 4, 8, 16] {
        let mut processor = DelayProcessor::new(sample_rate);
        processor.set_voices(voice_count);
        processor.set_delay_time(50);
        processor.set_feedback(0);
        processor.set_mix(1000);

        let mut input_l = vec![0i32; test_duration_samples];
        let mut input_r = vec![0i32; test_duration_samples];
        for i in (0..test_duration_samples).step_by(4410) {
            input_l[i] = 1000;
            input_r[i] = 1000;
        }

        let mut output_l = vec![0i32; test_duration_samples];
        let mut output_r = vec![0i32; test_duration_samples];

        processor.process_stereo(&input_l, &input_r, &mut output_l, &mut output_r);

        let sum_squares: f64 = output_l
            .iter()
            .zip(output_r.iter())
            .map(|(l, r)| (*l as f64) * (*l as f64) + (*r as f64) * (*r as f64))
            .sum();
        let rms = (sum_squares / (2.0 * test_duration_samples as f64)).sqrt();
        rms_values.push((voice_count, rms));
    }

    let base_rms = rms_values[0].1;
    for (voices, rms) in &rms_values {
        let ratio = rms / base_rms;
        assert!(
            ratio > 0.5 && ratio < 2.0,
            "RMS for {} voices ({}) differs too much from base ({})",
            voices,
            rms,
            base_rms
        );
    }
}

#[test]
fn test_tap_gains_normalize_energy() {
    // One voice: a single tap at exactly unit gain.
    let mut p = DelayProcessor::new(48000);
    assert_eq!(p.calculate_tap_gain(0), 1000);

    // Two voices: weights 4 and 3 over sqrt(25), so gains of exactly
    // 0.8 and 0.6 — and 800^2 + 600^2 is exactly one unit of energy.
    p.set_voices(2);
    let g0 = p.calculate_tap_gain(0);
    let g1 = p.calculate_tap_gain(1);
    assert_eq!(g0, 800);
    assert_eq!(g1, 600);
    assert_eq!(g0 * g0 + g1 * g1, 1_000_000);

    // Every voice count: each gain stays within one unit and the summed
    // energy stays near one unit (the floor square root only quantizes).
    for voices in 1..=MAX_VOICES {
        p.set_voices(voices);
        let mut energy: u64 = 0;
        for tap in 0..voices {
            let g = p.calculate_tap_gain(tap);
            assert!(g <= 1000);
            energy += g * g;
        }
        assert!(
            energy >= 900_000 && energy <= 1_100_000,
            "energy for {} voices was {}",
            voices,
            energy
        );
    }
}

#[test]
fn test_base_delay_rounding_and_clamping() {
    let mut p = DelayProcessor::new(44100);
    p.set_delay_time(100);
    assert_eq!(p.base_delay_samples(), 4410);

    // 3 ms at 44500 Hz is 133.5 samples: rounds up.
    p.set_sample_rate(44500);
    p.set_delay_time(3);
    assert_eq!(p.base_delay_samples(), 134);

    // A zero delay still reads at least one sample behind the cursor.
    p.set_delay_time(0);
    assert_eq!(p.base_delay_samples(), 1);

    // Two full seconds at 48 kHz would outrun the furthest tap's room.
    p.set_sample_rate(48000);
    p.set_delay_time(2000);
    assert_eq!(p.base_delay_samples(), MAX_DELAY_SAMPLES / MAX_VOICES - 1);
}

#[test]
fn test_waveform_capture_and_rotation() {
    let mut p = DelayProcessor::new(44100);
    p.set_delay_time(100);
    p.set_feedback(500);
    p.set_mix(1000);

    let n = 4411;
    let mut input_l = vec![0i32; n];
    let mut input_r = vec![0i32; n];
    input_l[0] = 1000;
    input_r[0] = 1000;
    let mut output_l = vec![0i32; n];
    let mut output_r = vec![0i32; n];
    p.process_stereo(&input_l, &input_r, &mut output_l, &mut output_r);

    // The shared cursor advanced once per processed sample.
    assert_eq!(p.get_waveform_write_index(), n % WAVEFORM_BUFFER_SIZE);

    // The tap first sees the impulse 4410 samples in, and records its raw
    // output at slot 4410 mod the ring size.
    let ring = p.get_voice_waveform(0);
    assert_eq!(ring.len(), WAVEFORM_BUFFER_SIZE);
    assert_eq!(ring[4410 % WAVEFORM_BUFFER_SIZE], 1000);

    // The rotated view is the same ring read from the cursor, oldest first.
    let rotated = p.get_voice_waveform_rotated(0);
    assert_eq!(rotated.len(), WAVEFORM_BUFFER_SIZE);
    let wi = p.get_waveform_write_index();
    for i in 0..WAVEFORM_BUFFER_SIZE {
        assert_eq!(rotated[i], ring[(wi + i) % WAVEFORM_BUFFER_SIZE]);
    }

    // A voice slot that does not exist reads as silence, never out of range.
    let silent = p.get_voice_waveform(20);
    assert!(silent.iter().all(|s| *s == 0));
}

#[test]
fn test_reset_then_silent_block_is_silent() {
    let mut p = DelayProcessor::new(44100);
    p.set_delay_time(250);
    p.set_feedback(900);
    p.set_mix(700);

    // Drive the delay line and the capture rings with an impulse train.
    let mut input = vec![0i32; 3000];
    for i in (0..3000).step_by(441) {
        input[i] = 1000;
    }
    let mut out_l = vec![0i32; 3000];
    let mut out_r = vec![0i32; 3000];
    p.process_stereo(&input, &input, &mut out_l, &mut out_r);
    assert!(out_l.iter().any(|s| *s != 0));

    p.reset();

    // A silent block after a reset is silent on both channels, whatever
    // the mix, and the capture rings stay empty.
    let zeros = vec![0i32; 3000];
    let mut out_l = vec![7i32; 3000];
    let mut out_r = vec![7i32; 3000];
    p.process_stereo(&zeros, &zeros, &mut out_l, &mut out_r);
    assert!(out_l.iter().all(|s| *s == 0));
    assert!(out_r.iter().all(|s| *s == 0));
    assert!(p.get_voice_waveform(0).iter().all(|s| *s == 0));
    assert_eq!(p.get_waveform_write_index(), 3000 % WAVEFORM_BUFFER_SIZE);
}

#[test]
fn test_wraparound_beyond_capacity() {
    let mut p = DelayProcessor::new(48000);
    p.set_delay_time(2000);
    p.set_feedback(800);
    p.set_mix(500);

    let n = MAX_DELAY_SAMPLES + 100;
    let mut input = vec![0i32; n];
    for i in (0..n).step_by(4800) {
        input[i] = 900;
    }
    let mut out_l = vec![0i32; n];
    let mut out_r = vec![0i32; n];
    p.process_stereo(&input, &input, &mut out_l, &mut out_r);

    // The write cursor wrapped and stayed inside the buffer.
    assert!(p.write_position < MAX_DELAY_SAMPLES);
    assert_eq!(p.write_position, n % MAX_DELAY_SAMPLES);

    // The engine is still fully usable.
    let small = vec![100i32; 8];
    let mut sl = vec![0i32; 8];
    let mut sr = vec![0i32; 8];
    p.process_stereo(&small, &small, &mut sl, &mut sr);
    assert_eq!(p.get_voices(), 1);
}

#[test]
fn test_truncates_to_shortest_buffer() {
    let mut p = DelayProcessor::new(44100);
    p.set_mix(0);
    p.set_delay_time(0);

    let input_l = vec![1000i32; 8];
    let input_r = vec![1000i32; 6];
    let mut out_l = vec![-3i32; 8];
    let mut out_r = vec![-3i32; 8];
    p.process_stereo(&input_l, &input_r, &mut out_l, &mut out_r);

    // Six samples processed; the excess output slots are untouched.
    for i in 0..6 {
        assert_eq!(out_l[i], 1000);
        assert_eq!(out_r[i], 1000);
    }
    for i in 6..8 {
        assert_eq!(out_l[i], -3);
        assert_eq!(out_r[i], -3);
    }
}

#[test]
fn test_saturation_instead_of_overflow() {
    let mut p = DelayProcessor::new(44100);
    p.set_delay_time(0);
    p.set_mix(0);

    // Extreme inputs pass through a dry engine unchanged and unharmed.
    let input = vec![i32::MAX, i32::MIN, i32::MAX];
    let mut out_l = vec![0i32; 3];
    let mut out_r = vec![0i32; 3];
    p.process_stereo(&input, &input, &mut out_l, &mut out_r);
    assert_eq!(out_l, vec![i32::MAX, i32::MIN, i32::MAX]);
    assert_eq!(out_r, vec![i32::MAX, i32::MIN, i32::MAX]);
}
