//! The fixed synthesis pipeline.
//!
//! Brown noise runs through the low-pass filter, then through two
//! warble passes — the second chained onto the first and starting half a
//! second later — and the variants are blended pairwise with equal
//! weight. Every intermediate stage is returned, so a caller can write
//! the blended result or, for diagnostics, the separate stages.

use vstd::prelude::*;
use crate::ConfigError;
use crate::noise::NoiseSource;
use crate::filter::{LowPassFilter, lowpass_spec};
use crate::warble::{WarbleModulator, warble_spec, lfo_increment_spec};
use crate::mixer::{Mixer, mix_spec};
use crate::wav::{encode_wav, wav_bytes_spec, MAX_SAMPLES, MAX_RATE};

verus! {

/// Oscillator rate of both warble passes, in millihertz (0.15 Hz).
pub const WARBLE_FREQ_MILLIHZ: u32 = 150;

/// Modulation depth of both warble passes: half the unit range.
pub const WARBLE_DEPTH: i64 = 16384;

/// Equal-weight blend factor.
pub const HALF_BLEND: i64 = 16384;

/// Every stage the pipeline produces, in order.
pub struct PipelineOutput {
    /// The integrated noise itself.
    pub brown: Vec<i16>,
    /// After the low-pass filter.
    pub filtered: Vec<i16>,
    /// First warble pass over the filtered signal.
    pub warble_first: Vec<i16>,
    /// Second warble pass, chained onto the first, starting half a
    /// second in.
    pub warble_second: Vec<i16>,
    /// Both warble layers blended, then blended with the filtered
    /// signal.
    pub mixed: Vec<i16>,
}

/// Composes the stages over one noise source and one filter.
pub struct Pipeline;

impl Pipeline {
    /// Run the whole pipeline: generate `duration_secs * sample_rate`
    /// brown-noise samples, filter them, warble twice and blend. Each
    /// field of the output is pinned to the stage specs; a zero sample
    /// rate is refused.
    pub fn run(
        source: &mut NoiseSource,
        duration_secs: u32,
        sample_rate: u32,
        filter: &LowPassFilter,
    ) -> (r: Result<PipelineOutput, ConfigError>)
        requires
            filter.coeffs.wf(),
            (duration_secs as int) * (sample_rate as int) <= u32::MAX as int,
        ensures
            sample_rate == 0 ==> r == Err::<PipelineOutput, ConfigError>(
                ConfigError::SampleRateZero,
            ),
            sample_rate > 0 ==> (r matches Ok(out) && {
                let inc = lfo_increment_spec(WARBLE_FREQ_MILLIHZ as int, sample_rate as int);
                &&& out.brown@.len() == (duration_secs as int) * (sample_rate as int)
                &&& out.filtered@ == lowpass_spec(filter.coeffs, out.brown@)
                &&& out.warble_first@ == warble_spec(
                    out.filtered@,
                    inc,
                    WARBLE_DEPTH as int,
                    0,
                )
                &&& out.warble_second@ == warble_spec(
                    out.warble_first@,
                    inc,
                    WARBLE_DEPTH as int,
                    (sample_rate / 2) as int,
                )
                &&& out.mixed@ == mix_spec(
                    mix_spec(out.warble_first@, out.warble_second@, HALF_BLEND as int),
                    out.filtered@,
                    HALF_BLEND as int,
                )
                &&& out.mixed@.len() == out.brown@.len()
            }),
    {
        if sample_rate == 0 {
            return Err(ConfigError::SampleRateZero);
        }
        let brown: Vec<i16> = source.generate(duration_secs, sample_rate);
        let filtered: Vec<i16> = filter.apply(&brown);
        let warble_first: Vec<i16> = match WarbleModulator::apply(
            &filtered,
            WARBLE_FREQ_MILLIHZ,
            sample_rate,
            WARBLE_DEPTH,
            0,
        ) {
            Ok(v) => v,
            Err(e) => { return Err(e) },
        };
        let half_second: usize = (sample_rate / 2) as usize;
        let warble_second: Vec<i16> = match WarbleModulator::apply(
            &warble_first,
            WARBLE_FREQ_MILLIHZ,
            sample_rate,
            WARBLE_DEPTH,
            half_second,
        ) {
            Ok(v) => v,
            Err(e) => { return Err(e) },
        };
        let mixed_warble: Vec<i16> = match Mixer::mix(&warble_first, &warble_second, HALF_BLEND) {
            Ok(v) => v,
            Err(e) => { return Err(e) },
        };
        let mixed: Vec<i16> = match Mixer::mix(&mixed_warble, &filtered, HALF_BLEND) {
            Ok(v) => v,
            Err(e) => { return Err(e) },
        };
        Ok(PipelineOutput { brown, filtered, warble_first, warble_second, mixed })
    }

    /// Run the pipeline and frame the blended result as one RIFF/WAVE
    /// byte sequence, ready to be written to a file.
    pub fn render_wav(
        source: &mut NoiseSource,
        duration_secs: u32,
        sample_rate: u32,
        filter: &LowPassFilter,
    ) -> (r: Result<Vec<u8>, ConfigError>)
        requires
            filter.coeffs.wf(),
            sample_rate <= MAX_RATE,
            (duration_secs as int) * (sample_rate as int) <= MAX_SAMPLES as int,
        ensures
            sample_rate == 0 ==> r == Err::<Vec<u8>, ConfigError>(ConfigError::SampleRateZero),
            sample_rate > 0 ==> (r matches Ok(b) && exists|s: Seq<i16>|
                b@ == #[trigger] wav_bytes_spec(sample_rate as int, s) && s.len() == (
                duration_secs as int) * (sample_rate as int)),
    {
        let out: PipelineOutput = match Pipeline::run(source, duration_secs, sample_rate, filter) {
            Ok(v) => v,
            Err(e) => { return Err(e) },
        };
        let bytes: Vec<u8> = encode_wav(sample_rate, &out.mixed);
        proof {
            assert(bytes@ == wav_bytes_spec(sample_rate as int, out.mixed@) && out.mixed@.len()
                == (duration_secs as int) * (sample_rate as int));
        }
        Ok(bytes)
    }
}

} // verus!
