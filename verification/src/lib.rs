//! Brown-noise synthesis library.
//!
//! The signal path works on 16-bit signed samples with fixed-point (Q15)
//! gains throughout: a leaky integrator turns uniform white noise into
//! brown noise, a second-order IIR low-pass filter shapes the spectrum,
//! a sinusoidal low-frequency oscillator applies an amplitude "warble",
//! and a mixer blends signal variants. The result can be framed as a
//! single-channel 16-bit PCM RIFF/WAVE byte stream.

use vstd::prelude::*;
use vstd::arithmetic::div_mod::lemma_div_multiples_vanish_fancy;
use vstd::arithmetic::div_mod::lemma_div_is_ordered;
use vstd::arithmetic::div_mod::lemma_div_pos_is_pos;

pub mod filter;
pub mod mixer;
pub mod noise;
pub mod pipeline;
pub mod warble;
pub mod wav;

verus! {

/// Why a stage refused its configuration.
#[derive(Clone, Copy, Debug, PartialEq, Eq, Structural)]
pub enum ConfigError {
    /// A sample rate of zero admits no time base.
    SampleRateZero,
    /// A modulation depth outside the unit range.
    DepthOutOfRange,
    /// A blend factor outside the unit range.
    BlendOutOfRange,
    /// A filter coefficient too large in magnitude.
    CoefficientOutOfRange,
}

/// One quantization unit: fixed-point gains are scaled by `UNIT`, so a
/// gain of `UNIT` is unity.
pub const UNIT: i64 = 32768;

/// Largest value a sample may take.
pub const SAMPLE_MAX: i64 = 32767;

/// Smallest value a sample may take.
pub const SAMPLE_MIN: i64 = -32768;

/// Bound on the magnitude of intermediate fixed-point values; wide
/// enough for every product the stages form, small enough that rounding
/// division cannot overflow.
pub const WIDE_MAX: i64 = 0x1000_0000_0000_0000;

/// Division by a positive divisor, rounded to the nearest integer with
/// ties away from zero.
pub open spec fn round_div_spec(n: int, d: int) -> int
    recommends
        d > 0,
{
    if n >= 0 {
        (n + d / 2) / d
    } else {
        -((-n + d / 2) / d)
    }
}

/// Saturate an arbitrary value into the 16-bit sample range.
pub open spec fn clamp_spec(v: int) -> i16 {
    if v > SAMPLE_MAX {
        SAMPLE_MAX as i16
    } else if v < SAMPLE_MIN {
        SAMPLE_MIN as i16
    } else {
        v as i16
    }
}

/// Divide by a positive divisor, rounding to the nearest integer, ties
/// away from zero.
pub fn round_div(n: i64, d: i64) -> (r: i64)
    requires
        0 < d <= UNIT * 8,
        -WIDE_MAX <= n <= WIDE_MAX,
    ensures
        r == round_div_spec(n as int, d as int),
{
    if n >= 0 {
        (n + d / 2) / d
    } else {
        -((-n + d / 2) / d)
    }
}

/// Saturate an arbitrary value into the 16-bit sample range. Every stage
/// uses this single conversion policy when a computed value becomes a
/// sample.
/// Rounding division maps an exact multiple of the divisor back to its
/// quotient: no gain of exactly one (or zero) disturbs a sample.
pub proof fn lemma_round_div_exact(k: int, d: int)
    requires
        d > 0,
    ensures
        round_div_spec(k * d, d) == k,
{
    assert(0 <= d / 2 < d) by {
        lemma_div_pos_is_pos(d, 2);
        lemma_div_is_ordered(d, d, 2);
        assert(d / 2 < d) by (nonlinear_arith)
            requires d > 0;
    }
    if k * d >= 0 {
        if k >= 0 {
            lemma_div_multiples_vanish_fancy(k, d / 2, d);
            assert(k * d + d / 2 == d * k + d / 2);
        } else {
            assert(k * d < 0) by (nonlinear_arith)
                requires k < 0 && d > 0;
        }
    } else {
        assert(k < 0) by {
            if k >= 0 {
                assert(k * d >= 0) by (nonlinear_arith)
                    requires k >= 0 && d > 0;
            }
        }
        lemma_div_multiples_vanish_fancy(-k, d / 2, d);
        assert(-(k * d) == d * (-k)) by (nonlinear_arith);
    }
}

/// Rounding division keeps a value between whole-multiple bounds of the
/// divisor.
pub proof fn lemma_round_div_bounds(n: int, d: int, lo: int, hi: int)
    requires
        d > 0,
        lo <= 0,
        hi >= 0,
        lo * d <= n <= hi * d,
    ensures
        lo <= round_div_spec(n, d) <= hi,
{
    assert(0 <= d / 2 < d) by {
        lemma_div_pos_is_pos(d, 2);
        assert(d / 2 < d) by (nonlinear_arith)
            requires d > 0;
    }
    if n >= 0 {
        lemma_div_pos_is_pos(n + d / 2, d);
        lemma_div_is_ordered(n + d / 2, hi * d + d / 2, d);
        lemma_div_multiples_vanish_fancy(hi, d / 2, d);
        assert(hi * d + d / 2 == d * hi + d / 2);
    } else {
        lemma_div_pos_is_pos(-n + d / 2, d);
        assert(-n <= (-lo) * d) by (nonlinear_arith)
            requires lo * d <= n;
        lemma_div_is_ordered(-n + d / 2, (-lo) * d + d / 2, d);
        lemma_div_multiples_vanish_fancy(-lo, d / 2, d);
        assert((-lo) * d == d * (-lo)) by (nonlinear_arith);
    }
}

pub fn clamp_sample(v: i64) -> (r: i16)
    ensures
        r == clamp_spec(v as int),
{
    if v > SAMPLE_MAX {
        SAMPLE_MAX as i16
    } else if v < SAMPLE_MIN {
        SAMPLE_MIN as i16
    } else {
        v as i16
    }
}

} // verus!
