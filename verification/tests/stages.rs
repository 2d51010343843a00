use brown_noise::ConfigError;
use brown_noise::filter::LowPassFilter;
use brown_noise::mixer::Mixer;
use brown_noise::noise::{NoiseSource, integrate};
use brown_noise::warble::WarbleModulator;

const UNIT: i64 = 32768;

#[test]
fn noise_length_matches_duration_times_rate() {
    let mut src = NoiseSource::new(7);
    let out = src.generate(2, 100);
    assert_eq!(out.len(), 200);
    let out = src.generate(3, 8000);
    assert_eq!(out.len(), 24000);
}

#[test]
fn noise_length_zero_duration() {
    let mut src = NoiseSource::new(7);
    assert_eq!(src.generate(0, 44100).len(), 0);
    assert_eq!(src.generate(60, 0).len(), 0);
}

#[test]
fn white_draws_stay_in_range() {
    let mut src = NoiseSource::new(1234);
    let w = src.draw_white(500);
    assert_eq!(w.len(), 500);
    for &v in &w {
        assert!((-32767..32767).contains(&v));
    }
}

#[test]
fn integrator_exact_values() {
    let white = vec![32766, -32766, 0];
    assert_eq!(integrate(&white), vec![16383, -8192, -4096]);
}

#[test]
fn seeded_source_is_deterministic() {
    let mut a = NoiseSource::new(99);
    let mut b = NoiseSource::new(99);
    assert_eq!(a.generate(1, 1000), b.generate(1, 1000));
}

#[test]
fn filter_zero_input_gives_zero_output() {
    let f = LowPassFilter::new(4096, 8192, 4096, -2048, 1024).unwrap();
    let input = vec![0i16; 64];
    assert_eq!(f.apply(&input), input);
}

#[test]
fn filter_rejects_oversized_coefficient() {
    assert_eq!(
        LowPassFilter::new(4096, 8192, 4096, -70000, 1024).unwrap_err(),
        ConfigError::CoefficientOutOfRange
    );
    assert_eq!(
        LowPassFilter::new(70000, 0, 0, 0, 0).unwrap_err(),
        ConfigError::CoefficientOutOfRange
    );
}

#[test]
fn filter_is_nearly_linear_on_short_sequences() {
    // Gentle feedback keeps the rounding error of each path within a
    // couple of quantization steps.
    let f = LowPassFilter::new(8192, 0, 0, -4096, 0).unwrap();
    let a: Vec<i16> = vec![100, -50, 300, 700, -800, 250, 60, -1000];
    let b: Vec<i16> = vec![7, 23, -400, 95, 210, -33, 5, 999];
    let sum: Vec<i16> = a.iter().zip(b.iter()).map(|(x, y)| x + y).collect();
    let fa = f.apply(&a);
    let fb = f.apply(&b);
    let fsum = f.apply(&sum);
    for i in 0..a.len() {
        let split = fa[i] as i32 + fb[i] as i32;
        let joint = fsum[i] as i32;
        assert!((split - joint).abs() <= 3, "index {}: {} vs {}", i, split, joint);
    }
}

#[test]
fn warble_depth_zero_returns_input_unchanged() {
    let input = vec![5i16, -32768, 32767, 0, 1234];
    let out = WarbleModulator::apply(&input, 150, 44100, 0, 0).unwrap();
    assert_eq!(out, input);
    let out = WarbleModulator::apply(&input, 987654, 8000, 0, 3).unwrap();
    assert_eq!(out, input);
}

#[test]
fn warble_offset_past_end_returns_input_unchanged() {
    let input = vec![5i16, -7, 9000, -32768];
    let out = WarbleModulator::apply(&input, 150, 8000, UNIT, input.len()).unwrap();
    assert_eq!(out, input);
    let out = WarbleModulator::apply(&input, 150, 8000, 20000, usize::MAX).unwrap();
    assert_eq!(out, input);
}

#[test]
fn warble_zero_frequency_full_depth_halves_samples() {
    // With a resting oscillator the gain is exactly one half.
    let input = vec![100i16, -100, 32767];
    let out = WarbleModulator::apply(&input, 0, 8000, UNIT, 0).unwrap();
    assert_eq!(out, vec![50, -50, 16384]);
}

#[test]
fn warble_rejects_bad_depth_and_rate() {
    let input = vec![1i16, 2, 3];
    assert_eq!(
        WarbleModulator::apply(&input, 150, 8000, UNIT + 1, 0).unwrap_err(),
        ConfigError::DepthOutOfRange
    );
    assert_eq!(
        WarbleModulator::apply(&input, 150, 8000, -1, 0).unwrap_err(),
        ConfigError::DepthOutOfRange
    );
    assert_eq!(
        WarbleModulator::apply(&input, 150, 0, 0, 0).unwrap_err(),
        ConfigError::SampleRateZero
    );
}

#[test]
fn mixer_blend_zero_keeps_first_padded() {
    let a = vec![100i16, -200];
    let b = vec![50i16, 60, 70];
    assert_eq!(Mixer::mix(&a, &b, 0).unwrap(), vec![100, -200, 0]);
}

#[test]
fn mixer_blend_unit_keeps_second_padded() {
    let a = vec![100i16, -200];
    let b = vec![50i16];
    assert_eq!(Mixer::mix(&a, &b, UNIT).unwrap(), vec![50, 0]);
}

#[test]
fn mixer_midpoint_exact_value() {
    let a = vec![100i16];
    let b = vec![50i16];
    assert_eq!(Mixer::mix(&a, &b, 16384).unwrap(), vec![75]);
}

#[test]
fn mixer_is_symmetric_under_complement() {
    let a = vec![100i16, -200, 31000, 5];
    let b = vec![50i16, 60, -31000];
    let x: i64 = 10000;
    assert_eq!(Mixer::mix(&a, &b, x).unwrap(), Mixer::mix(&b, &a, UNIT - x).unwrap());
}

#[test]
fn mixer_length_is_max_of_inputs() {
    let empty: Vec<i16> = vec![];
    let a = vec![1i16, 2, 3];
    assert_eq!(Mixer::mix(&a, &empty, 12345).unwrap().len(), 3);
    assert_eq!(Mixer::mix(&empty, &a, 12345).unwrap().len(), 3);
    assert_eq!(Mixer::mix(&empty, &empty, 12345).unwrap().len(), 0);
    assert_eq!(Mixer::mix(&a, &a, 12345).unwrap().len(), 3);
}

#[test]
fn mixer_rejects_bad_blend() {
    let a = vec![1i16];
    assert_eq!(Mixer::mix(&a, &a, -1).unwrap_err(), ConfigError::BlendOutOfRange);
    assert_eq!(Mixer::mix(&a, &a, UNIT + 1).unwrap_err(), ConfigError::BlendOutOfRange);
}

#[test]
fn filter_saturates_instead_of_wrapping() {
    // A pure gain of 4.0: values that leave the 16-bit range are
    // clamped, never wrapped.
    let f = LowPassFilter::new(65536, 0, 0, 0, 0).unwrap();
    assert_eq!(f.apply(&vec![20000i16]), vec![32767]);
    assert_eq!(f.apply(&vec![-20000i16]), vec![-32768]);
    assert_eq!(f.apply(&vec![100i16]), vec![400]);
}
