//! Second-order IIR low-pass filtering.
//!
//! The filter runs in direct form one over fixed-point (Q14)
//! coefficients. Deriving Butterworth coefficients from a cutoff
//! frequency needs transcendental arithmetic, so the derivation happens
//! outside the library and the quantized coefficients are handed in;
//! the run of the filter over a sequence is specified and verified
//! exactly here.

use vstd::prelude::*;
use crate::{ConfigError, SAMPLE_MAX, SAMPLE_MIN};
use crate::{clamp_spec, round_div_spec, clamp_sample, round_div};

verus! {

/// Fixed-point scale of the filter coefficients: a coefficient of
/// `COEFF_SCALE` is 1.0.
pub const COEFF_SCALE: i64 = 16384;

/// Largest admitted coefficient magnitude (4.0 in Q14); wide enough for
/// every stable biquad design, narrow enough that the accumulator stays
/// far from overflow.
pub const COEFF_MAX: i64 = 65536;

/// The five biquad coefficients in Q14: feedforward `b0..b2` and
/// feedback `a1`, `a2` (the normalizing `a0` is already divided out).
#[derive(Debug)]
pub struct FilterCoefficients {
    pub b0: i64,
    pub b1: i64,
    pub b2: i64,
    pub a1: i64,
    pub a2: i64,
}

impl FilterCoefficients {
    /// All coefficients within the admitted magnitude.
    pub open spec fn wf(&self) -> bool {
        &&& -COEFF_MAX <= self.b0 <= COEFF_MAX
        &&& -COEFF_MAX <= self.b1 <= COEFF_MAX
        &&& -COEFF_MAX <= self.b2 <= COEFF_MAX
        &&& -COEFF_MAX <= self.a1 <= COEFF_MAX
        &&& -COEFF_MAX <= self.a2 <= COEFF_MAX
    }

    /// Admit a coefficient set, refusing any coefficient beyond 4.0 in
    /// magnitude.
    pub fn new(b0: i64, b1: i64, b2: i64, a1: i64, a2: i64) -> (r: Result<
        FilterCoefficients,
        ConfigError,
    >)
        ensures
            (-COEFF_MAX <= b0 <= COEFF_MAX && -COEFF_MAX <= b1 <= COEFF_MAX && -COEFF_MAX <= b2
                <= COEFF_MAX && -COEFF_MAX <= a1 <= COEFF_MAX && -COEFF_MAX <= a2 <= COEFF_MAX)
                ==> (r matches Ok(c) && c.b0 == b0 && c.b1 == b1 && c.b2 == b2 && c.a1 == a1
                && c.a2 == a2 && c.wf()),
            !(-COEFF_MAX <= b0 <= COEFF_MAX && -COEFF_MAX <= b1 <= COEFF_MAX && -COEFF_MAX <= b2
                <= COEFF_MAX && -COEFF_MAX <= a1 <= COEFF_MAX && -COEFF_MAX <= a2 <= COEFF_MAX)
                ==> r == Err::<FilterCoefficients, ConfigError>(ConfigError::CoefficientOutOfRange),
    {
        if -COEFF_MAX <= b0 && b0 <= COEFF_MAX && -COEFF_MAX <= b1 && b1 <= COEFF_MAX
            && -COEFF_MAX <= b2 && b2 <= COEFF_MAX && -COEFF_MAX <= a1 && a1 <= COEFF_MAX
            && -COEFF_MAX <= a2 && a2 <= COEFF_MAX {
            Ok(FilterCoefficients { b0, b1, b2, a1, a2 })
        } else {
            Err(ConfigError::CoefficientOutOfRange)
        }
    }
}

/// One filter step: the direct-form-one accumulator over the two past
/// inputs and two past outputs, scaled back from Q14, rounded and
/// saturated.
pub open spec fn lp_step_spec(c: FilterCoefficients, x1: int, x2: int, y1: int, y2: int, x: int) -> i16 {
    clamp_spec(
        round_div_spec(
            c.b0 * x + c.b1 * x1 + c.b2 * x2 - c.a1 * y1 - c.a2 * y2,
            COEFF_SCALE as int,
        ),
    )
}

/// The delay line `(x1, x2, y1, y2)` after the first `n` samples of
/// `input` have run through the filter, starting from rest.
pub open spec fn lp_state_spec(c: FilterCoefficients, input: Seq<i16>, n: int) -> (int, int, int, int)
    decreases n,
{
    if n <= 0 {
        (0, 0, 0, 0)
    } else {
        let prev = lp_state_spec(c, input, n - 1);
        let y = lp_step_spec(c, prev.0, prev.1, prev.2, prev.3, input[n - 1] as int);
        (input[n - 1] as int, prev.0, y as int, prev.2)
    }
}

/// The `i`-th output sample of the filter.
pub open spec fn lp_out_spec(c: FilterCoefficients, input: Seq<i16>, i: int) -> i16 {
    let st = lp_state_spec(c, input, i);
    lp_step_spec(c, st.0, st.1, st.2, st.3, input[i] as int)
}

/// The whole filtered sequence, from zero-initialized state.
pub open spec fn lowpass_spec(c: FilterCoefficients, input: Seq<i16>) -> Seq<i16> {
    Seq::new(input.len(), |i: int| lp_out_spec(c, input, i))
}

/// A stateful second-order low-pass filter applied over a whole
/// sequence; the state lives only for one `apply` call.
#[derive(Debug)]
pub struct LowPassFilter {
    pub coeffs: FilterCoefficients,
}

impl LowPassFilter {
    /// Build the filter from already-quantized Q14 coefficients.
    pub fn new(b0: i64, b1: i64, b2: i64, a1: i64, a2: i64) -> (r: Result<
        LowPassFilter,
        ConfigError,
    >)
        ensures
            (-COEFF_MAX <= b0 <= COEFF_MAX && -COEFF_MAX <= b1 <= COEFF_MAX && -COEFF_MAX <= b2
                <= COEFF_MAX && -COEFF_MAX <= a1 <= COEFF_MAX && -COEFF_MAX <= a2 <= COEFF_MAX)
                ==> (r matches Ok(f) && f.coeffs.b0 == b0 && f.coeffs.b1 == b1 && f.coeffs.b2 == b2
                && f.coeffs.a1 == a1 && f.coeffs.a2 == a2 && f.coeffs.wf()),
            !(-COEFF_MAX <= b0 <= COEFF_MAX && -COEFF_MAX <= b1 <= COEFF_MAX && -COEFF_MAX <= b2
                <= COEFF_MAX && -COEFF_MAX <= a1 <= COEFF_MAX && -COEFF_MAX <= a2 <= COEFF_MAX)
                ==> r == Err::<LowPassFilter, ConfigError>(ConfigError::CoefficientOutOfRange),
    {
        match FilterCoefficients::new(b0, b1, b2, a1, a2) {
            Ok(c) => Ok(LowPassFilter { coeffs: c }),
            Err(e) => Err(e),
        }
    }

    /// Run the filter over `input` from rest, producing one output
    /// sample per input sample.
    pub fn apply(&self, input: &Vec<i16>) -> (r: Vec<i16>)
        requires
            self.coeffs.wf(),
        ensures
            r@ == lowpass_spec(self.coeffs, input@),
            r@.len() == input@.len(),
    {
        let c = &self.coeffs;
        let mut out: Vec<i16> = Vec::new();
        let mut x1: i64 = 0;
        let mut x2: i64 = 0;
        let mut y1: i64 = 0;
        let mut y2: i64 = 0;
        let mut i: usize = 0;
        while i < input.len()
            invariant
                self.coeffs.wf(),
                c == &self.coeffs,
                i <= input@.len(),
                out@.len() == i,
                forall|j: int| 0 <= j < i ==> out@[j] == lp_out_spec(self.coeffs, input@, j),
                (x1 as int, x2 as int, y1 as int, y2 as int) == lp_state_spec(
                    self.coeffs,
                    input@,
                    i as int,
                ),
                SAMPLE_MIN <= x1 <= SAMPLE_MAX,
                SAMPLE_MIN <= x2 <= SAMPLE_MAX,
                SAMPLE_MIN <= y1 <= SAMPLE_MAX,
                SAMPLE_MIN <= y2 <= SAMPLE_MAX,
            decreases input@.len() - i,
        {
            let x: i64 = input[i] as i64;
            assert(-COEFF_MAX * 32768 <= c.b0 * x <= COEFF_MAX * 32768) by (nonlinear_arith)
                requires
                    -COEFF_MAX <= c.b0 <= COEFF_MAX,
                    -32768 <= x <= 32768,
            ;
            assert(-COEFF_MAX * 32768 <= c.b1 * x1 <= COEFF_MAX * 32768) by (nonlinear_arith)
                requires
                    -COEFF_MAX <= c.b1 <= COEFF_MAX,
                    -32768 <= x1 <= 32768,
            ;
            assert(-COEFF_MAX * 32768 <= c.b2 * x2 <= COEFF_MAX * 32768) by (nonlinear_arith)
                requires
                    -COEFF_MAX <= c.b2 <= COEFF_MAX,
                    -32768 <= x2 <= 32768,
            ;
            assert(-COEFF_MAX * 32768 <= c.a1 * y1 <= COEFF_MAX * 32768) by (nonlinear_arith)
                requires
                    -COEFF_MAX <= c.a1 <= COEFF_MAX,
                    -32768 <= y1 <= 32768,
            ;
            assert(-COEFF_MAX * 32768 <= c.a2 * y2 <= COEFF_MAX * 32768) by (nonlinear_arith)
                requires
                    -COEFF_MAX <= c.a2 <= COEFF_MAX,
                    -32768 <= y2 <= 32768,
            ;
            let acc: i64 = c.b0 * x + c.b1 * x1 + c.b2 * x2 - c.a1 * y1 - c.a2 * y2;
            let y: i16 = clamp_sample(round_div(acc, COEFF_SCALE));
            assert(y == lp_out_spec(self.coeffs, input@, i as int));
            out.push(y);
            x2 = x1;
            x1 = x;
            y2 = y1;
            y1 = y as i64;
            i = i + 1;
        }
        assert(out@ =~= lowpass_spec(self.coeffs, input@));
        out
    }
}

/// From rest, an all-zero input is a fixed point of the filter: the
/// output is all zeros (equal to the input itself).
pub proof fn lemma_lowpass_zero(c: FilterCoefficients, input: Seq<i16>)
    requires
        forall|i: int| 0 <= i < input.len() ==> input[i] == 0,
    ensures
        lowpass_spec(c, input) == input,
{
    assert forall|n: int| 0 <= n <= input.len() implies lp_state_spec(c, input, n) == (
    0int,
    0int,
    0int,
    0int,
    ) by {
        lemma_lp_state_zero(c, input, n);
    }
    assert forall|i: int| 0 <= i < input.len() implies lp_out_spec(c, input, i) == input[i] by {
        lemma_lp_state_zero(c, input, i);
        lemma_zero_step(c);
    }
    assert(lowpass_spec(c, input) =~= input);
}

/// From rest, a prefix of zeros leaves the delay line at rest.
proof fn lemma_lp_state_zero(c: FilterCoefficients, input: Seq<i16>, n: int)
    requires
        forall|i: int| 0 <= i < input.len() ==> input[i] == 0,
        0 <= n <= input.len(),
    ensures
        lp_state_spec(c, input, n) == (0int, 0int, 0int, 0int),
    decreases n,
{
    if n > 0 {
        lemma_lp_state_zero(c, input, n - 1);
        lemma_zero_step(c);
    }
}

/// A zero sample through a resting delay line comes out as zero.
proof fn lemma_zero_step(c: FilterCoefficients)
    ensures
        lp_step_spec(c, 0, 0, 0, 0, 0) == 0,
{
    assert(c.b0 * 0 == 0) by (nonlinear_arith);
    assert(c.b1 * 0 == 0) by (nonlinear_arith);
    assert(c.b2 * 0 == 0) by (nonlinear_arith);
    assert(c.a1 * 0 == 0) by (nonlinear_arith);
    assert(c.a2 * 0 == 0) by (nonlinear_arith);
    assert(round_div_spec(0, COEFF_SCALE as int) == 0) by {
        crate::lemma_round_div_exact(0, COEFF_SCALE as int);
        assert(0int * (COEFF_SCALE as int) == 0);
    }
}

} // verus!
