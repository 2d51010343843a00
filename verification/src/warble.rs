//! Sinusoidal amplitude modulation ("warble").
//!
//! The low-frequency oscillator keeps its phase as a 32-bit fraction of
//! one turn, so wrap-around is exact and no phase error accumulates. The
//! sine itself is a rational approximation evaluated in integers; its
//! exact value is given by `sine_q15_spec`.

use vstd::prelude::*;
use vstd::arithmetic::div_mod::lemma_div_pos_is_pos;
use vstd::arithmetic::div_mod::lemma_div_is_ordered;
use vstd::arithmetic::div_mod::lemma_div_multiples_vanish;
use vstd::arithmetic::div_mod::lemma_add_mod_noop;
use vstd::arithmetic::div_mod::lemma_small_mod;
use crate::{ConfigError, UNIT, SAMPLE_MAX, SAMPLE_MIN};
use crate::{clamp_spec, round_div_spec, clamp_sample, round_div};
use crate::lemma_round_div_exact;
use crate::lemma_round_div_bounds;

verus! {

/// The phase accumulator counts fractions of one oscillator turn in
/// units of `1 / PHASE_MOD`.
pub const PHASE_MOD: u64 = 0x1_0000_0000;

/// Half a turn, in the Q16 angle scale handed to the sine.
pub const HALF_TURN: i64 = 32768;

/// Sine over the first half turn: `u` counts `1/32768` of a half turn,
/// the result is in Q15. This is a rational approximation of
/// `sin(pi * u / 32768)`, exact at 0, 1/2 and 1 half-turns and within
/// about 2% elsewhere.
pub open spec fn half_sine_spec(u: int) -> int
    recommends
        0 <= u < HALF_TURN,
{
    (16 * UNIT * (u * (HALF_TURN - u))) / (5 * UNIT * UNIT - 4 * (u * (HALF_TURN - u)))
}

/// Full-turn sine in Q15: `t` counts `1/65536` of a turn; the second
/// half turn mirrors the first with opposite sign.
pub open spec fn sine_q15_spec(t: int) -> int
    recommends
        0 <= t < 2 * HALF_TURN,
{
    if t < HALF_TURN {
        half_sine_spec(t)
    } else {
        -half_sine_spec(t - HALF_TURN)
    }
}

/// The approximated half-turn sine stays within the unit gain range.
proof fn lemma_half_sine_bounds(u: int)
    requires
        0 <= u < HALF_TURN,
    ensures
        0 <= half_sine_spec(u) <= UNIT,
{
    let v: int = u * (HALF_TURN - u);
    let num: int = 16 * UNIT * v;
    let den: int = 5 * UNIT * UNIT - 4 * v;
    assert(0 <= v && 4 * v <= UNIT * UNIT) by (nonlinear_arith)
        requires
            0 <= u < HALF_TURN,
            v == u * (HALF_TURN - u),
    ;
    assert(den > 0);
    assert(num >= 0) by (nonlinear_arith)
        requires
            num == 16 * UNIT * v,
            v >= 0,
    ;
    lemma_div_pos_is_pos(num, den);
    assert(num <= UNIT * den) by (nonlinear_arith)
        requires
            num == 16 * UNIT * v,
            den == 5 * UNIT * UNIT - 4 * v,
            4 * v <= UNIT * UNIT,
            v >= 0,
    ;
    assert(UNIT * den == den * UNIT) by (nonlinear_arith);
    lemma_div_is_ordered(num, den * UNIT, den);
    lemma_div_multiples_vanish(UNIT as int, den);
}

/// Evaluate the Q15 sine at `t` sixty-five-thousand-five-hundred-
/// thirty-sixths of a turn.
fn sine_q15(t: u32) -> (r: i64)
    requires
        t < 2 * HALF_TURN,
    ensures
        r == sine_q15_spec(t as int),
        -UNIT <= r <= UNIT,
{
    let (u, negate): (i64, bool) = if t < HALF_TURN as u32 {
        (t as i64, false)
    } else {
        (t as i64 - HALF_TURN, true)
    };
    assert(0 <= u * (HALF_TURN - u) <= 16384 * 16384) by (nonlinear_arith)
        requires 0 <= u < HALF_TURN;
    let v: i64 = u * (HALF_TURN - u);
    let num: i64 = 16 * UNIT * v;
    let den: i64 = 5 * UNIT * UNIT - 4 * v;
    proof {
        lemma_half_sine_bounds(u as int);
        lemma_div_pos_is_pos(num as int, den as int);
    }
    let h: i64 = num / den;
    if negate {
        -h
    } else {
        h
    }
}

/// The modulation gain in Q15 for a sine value `s` and a depth in
/// `[0, UNIT]`: depth 0 keeps unity gain, depth `UNIT` swings the gain
/// across the whole unit range.
pub open spec fn gain_spec(s: int, depth: int) -> int {
    ((s + UNIT) / 2) * depth / (UNIT as int) + (UNIT - depth)
}

/// The gain stays between `UNIT - depth` and `UNIT`.
proof fn lemma_gain_bounds(s: int, depth: int)
    requires
        -UNIT <= s <= UNIT,
        0 <= depth <= UNIT,
    ensures
        UNIT - depth <= gain_spec(s, depth) <= UNIT,
{
    let h: int = (s + UNIT) / 2;
    assert(0 <= h <= UNIT);
    assert(0 <= h * depth && h * depth <= UNIT * depth) by (nonlinear_arith)
        requires 0 <= h <= UNIT && 0 <= depth;
    lemma_div_pos_is_pos(h * depth, UNIT as int);
    assert(UNIT * depth == UNIT as int * depth) by (nonlinear_arith);
    lemma_div_is_ordered(h * depth, UNIT as int * depth, UNIT as int);
    lemma_div_multiples_vanish(depth, UNIT as int);
}

/// Evaluate the Q15 modulation gain.
fn gain_q15(s: i64, depth: i64) -> (r: i64)
    requires
        -UNIT <= s <= UNIT,
        0 <= depth <= UNIT,
    ensures
        r == gain_spec(s as int, depth as int),
        UNIT - depth <= r <= UNIT,
{
    proof {
        lemma_gain_bounds(s as int, depth as int);
        assert(((s + UNIT) / 2) * depth <= UNIT * depth) by (nonlinear_arith)
            requires 0 <= (s + UNIT) / 2 <= UNIT && 0 <= depth;
        assert(((s + UNIT) / 2) * depth >= 0) by (nonlinear_arith)
            requires 0 <= (s + UNIT) / 2 && 0 <= depth;
    }
    let h: i64 = (s + UNIT) / 2;
    h * depth / UNIT + (UNIT - depth)
}

/// The per-sample phase step in `1 / PHASE_MOD` turns, for an oscillator
/// frequency given in millihertz, reduced to one turn.
pub open spec fn lfo_increment_spec(freq_millihz: int, sample_rate: int) -> int
    recommends
        sample_rate > 0,
{
    ((freq_millihz * (PHASE_MOD as int)) / (1000 * sample_rate)) % (PHASE_MOD as int)
}

/// The gain applied to the `k`-th sample past the start offset.
pub open spec fn warble_gain_at(inc: int, depth: int, k: int) -> int {
    gain_spec(sine_q15_spec(((k * inc) % (PHASE_MOD as int)) / 65536), depth)
}

/// One output sample: unchanged before the start offset, scaled by the
/// oscillator gain from the offset on.
pub open spec fn warble_sample_spec(
    input: Seq<i16>,
    inc: int,
    depth: int,
    offset: int,
    i: int,
) -> i16 {
    if i < offset {
        input[i]
    } else {
        clamp_spec(
            round_div_spec(input[i] * warble_gain_at(inc, depth, i - offset), UNIT as int),
        )
    }
}

/// The whole modulated sequence.
pub open spec fn warble_spec(input: Seq<i16>, inc: int, depth: int, offset: int) -> Seq<i16> {
    Seq::new(input.len(), |i: int| warble_sample_spec(input, inc, depth, offset, i))
}

/// Applies a time-varying sinusoidal gain envelope to a sequence.
pub struct WarbleModulator;

impl WarbleModulator {
    /// Modulate `input` with a sinusoidal gain: the oscillator runs at
    /// `lfo_freq_millihz` thousandths of a hertz, swings by `depth`
    /// (Q15, `0` for none up to `UNIT` for the full unit range), and
    /// starts only at sample index `start_offset`; earlier samples pass
    /// through unchanged and do not advance the oscillator. A zero
    /// sample rate or a depth outside `[0, UNIT]` is refused.
    pub fn apply(
        input: &Vec<i16>,
        lfo_freq_millihz: u32,
        sample_rate: u32,
        depth: i64,
        start_offset: usize,
    ) -> (r: Result<Vec<i16>, ConfigError>)
        ensures
            sample_rate == 0 ==> r == Err::<Vec<i16>, ConfigError>(ConfigError::SampleRateZero),
            sample_rate > 0 && !(0 <= depth <= UNIT) ==> r == Err::<Vec<i16>, ConfigError>(
                ConfigError::DepthOutOfRange,
            ),
            sample_rate > 0 && 0 <= depth <= UNIT ==> (r matches Ok(out)
                && out@ == warble_spec(
                    input@,
                    lfo_increment_spec(lfo_freq_millihz as int, sample_rate as int),
                    depth as int,
                    start_offset as int,
                ) && out@.len() == input@.len()),
    {
        if sample_rate == 0 {
            return Err(ConfigError::SampleRateZero);
        }
        if !(0 <= depth && depth <= UNIT) {
            return Err(ConfigError::DepthOutOfRange);
        }
        proof {
            assert((lfo_freq_millihz as u64) * (PHASE_MOD as u64) <= 0xFFFF_FFFF_0000_0000u64)
                by (nonlinear_arith)
                requires lfo_freq_millihz <= 0xFFFF_FFFFu64;
        }
        let inc: u64 = ((lfo_freq_millihz as u64 * PHASE_MOD) / (1000u64 * sample_rate as u64))
            % PHASE_MOD;
        let ghost inc_spec: int = lfo_increment_spec(lfo_freq_millihz as int, sample_rate as int);
        assert(inc == inc_spec);
        let mut out: Vec<i16> = Vec::new();
        let mut phase: u64 = 0;
        let mut i: usize = 0;
        proof {
            lemma_small_mod(0nat, PHASE_MOD as nat);
            assert(0int % (PHASE_MOD as int) == 0);
            assert(0int * inc_spec == 0) by (nonlinear_arith);
            assert((0int * inc_spec) % (PHASE_MOD as int) == 0);
        }
        while i < input.len()
            invariant
                0 <= depth <= UNIT,
                0 <= inc < PHASE_MOD,
                inc == inc_spec,
                i <= input@.len(),
                out@.len() == i,
                forall|j: int| 0 <= j < i ==> out@[j] == warble_sample_spec(
                    input@,
                    inc_spec,
                    depth as int,
                    start_offset as int,
                    j,
                ),
                phase == (if i >= start_offset {
                    ((i - start_offset) * inc_spec) % (PHASE_MOD as int)
                } else {
                    0
                }),
                phase < PHASE_MOD,
            decreases input@.len() - i,
        {
            let x: i16 = input[i];
            if i >= start_offset {
                let ghost k: int = i - start_offset;
                let t: u32 = (phase / 65536) as u32;
                let s: i64 = sine_q15(t);
                let g: i64 = gain_q15(s, depth);
                assert(SAMPLE_MIN * UNIT <= (x as i64) * g <= SAMPLE_MAX * UNIT)
                    by (nonlinear_arith)
                    requires
                        SAMPLE_MIN <= x as i64 <= SAMPLE_MAX,
                        0 <= g <= UNIT,
                ;
                proof {
                    lemma_round_div_bounds(
                        (x as i64 * g) as int,
                        UNIT as int,
                        SAMPLE_MIN as int,
                        SAMPLE_MAX as int,
                    );
                    assert(phase == (k * inc_spec) % (PHASE_MOD as int));
                    assert(t == ((k * inc_spec) % (PHASE_MOD as int)) / 65536);
                }
                out.push(clamp_sample(round_div(x as i64 * g, UNIT)));
                proof {
                    lemma_small_mod(inc as nat, PHASE_MOD as nat);
                    lemma_add_mod_noop(k * inc_spec, inc_spec, PHASE_MOD as int);
                    assert((k + 1) * inc_spec == k * inc_spec + inc_spec) by (nonlinear_arith);
                }
                phase = (phase + inc) % PHASE_MOD;
                proof {
                    assert(inc_spec % (PHASE_MOD as int) == inc_spec);
                    assert(phase == ((k * inc_spec % (PHASE_MOD as int)) + (inc_spec % (
                    PHASE_MOD as int))) % (PHASE_MOD as int));
                    assert(phase == (k * inc_spec + inc_spec) % (PHASE_MOD as int));
                    assert(phase == ((k + 1) * inc_spec) % (PHASE_MOD as int));
                }
            } else {
                out.push(x);
                proof {
                    lemma_small_mod(0nat, PHASE_MOD as nat);
                    if i + 1 >= start_offset {
                        let knew: int = (i + 1) - (start_offset as int);
                        assert(knew == 0);
                        assert(knew * inc_spec == 0) by (nonlinear_arith)
                            requires knew == 0;
                    }
                }
            }
            i = i + 1;
        }
        assert(out@ =~= warble_spec(
            input@,
            inc_spec,
            depth as int,
            start_offset as int,
        ));
        Ok(out)
    }
}

/// A modulation depth of zero leaves every sample unchanged, whatever
/// the oscillator frequency and start offset.
pub proof fn lemma_warble_depth_zero(input: Seq<i16>, inc: int, offset: int)
    ensures
        warble_spec(input, inc, 0, offset) == input,
{
    assert forall|i: int| 0 <= i < input.len() implies warble_sample_spec(
        input,
        inc,
        0,
        offset,
        i,
    ) == input[i] by {
        if i >= offset {
            let s: int = sine_q15_spec(((i - offset) * inc % (PHASE_MOD as int)) / 65536);
            let h: int = (s + UNIT) / 2;
            assert(h * 0 == 0) by (nonlinear_arith);
            assert(0int / (UNIT as int) == 0) by {
                vstd::arithmetic::div_mod::lemma_div_of0(UNIT as int);
            }
            assert(warble_gain_at(inc, 0, i - offset) == UNIT);
            lemma_round_div_exact(input[i] as int, UNIT as int);
        }
    }
    assert(warble_spec(input, inc, 0, offset) =~= input);
}

/// A start offset at or past the end of the input returns the input
/// unchanged: no sample reaches the modulation branch.
pub proof fn lemma_warble_offset_past_end(input: Seq<i16>, inc: int, depth: int, offset: int)
    requires
        offset >= input.len(),
    ensures
        warble_spec(input, inc, depth, offset) == input,
{
    assert(warble_spec(input, inc, depth, offset) =~= input);
}

} // verus!
