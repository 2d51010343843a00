//! Brown-noise generation: uniform white noise run through a leaky
//! integrator.
//!
//! The draws come from a seeded generator behind trusted wrappers; the
//! integration of the drawn steps into brown noise is specified and
//! verified exactly, for every possible sequence of draws.

use vstd::prelude::*;
use crate::{SAMPLE_MAX, SAMPLE_MIN};
use crate::{clamp_spec, round_div_spec, clamp_sample, round_div};
use crate::lemma_round_div_bounds;

verus! {

/// The magnitude of one white-noise step; draws fall in
/// `[-STEP_MAX, STEP_MAX)`.
pub const STEP_MAX: i64 = 32767;

#[verifier::external_type_specification]
#[verifier::external_body]
pub struct ExStdRng(rand::rngs::StdRng);

/// Relies on rand::SeedableRng::seed_from_u64: builds a standard
/// generator from a word-sized seed.
#[verifier::external_body]
fn seeded_rng(seed: u64) -> rand::rngs::StdRng {
    <rand::rngs::StdRng as rand::SeedableRng>::seed_from_u64(seed)
}

/// Relies on rand::RngExt::random_range: a draw within the given
/// half-open range, which is never empty here.
#[verifier::external_body]
fn draw_step(rng: &mut rand::rngs::StdRng) -> (r: i32)
    ensures
        -STEP_MAX <= r < STEP_MAX,
{
    <rand::rngs::StdRng as rand::RngExt>::random_range(rng, -32767i32..32767i32)
}

/// The integrator's accumulator after `n` steps: each step adds the
/// drawn value and halves the total, so the running sum leaks away and
/// stays within one step's magnitude.
pub open spec fn acc_spec(white: Seq<i32>, n: int) -> int
    decreases n,
{
    if n <= 0 {
        0
    } else {
        round_div_spec(acc_spec(white, n - 1) + white[n - 1], 2)
    }
}

/// The brown-noise sequence carried by a sequence of white draws: the
/// accumulator value after each step, saturated into the sample range.
pub open spec fn integrate_spec(white: Seq<i32>) -> Seq<i16> {
    Seq::new(white.len(), |i: int| clamp_spec(acc_spec(white, i + 1)))
}

/// With in-range draws the accumulator never leaves the step range.
proof fn lemma_acc_bounds(white: Seq<i32>, n: int)
    requires
        forall|i: int| 0 <= i < white.len() ==> -STEP_MAX <= #[trigger] white[i] <= STEP_MAX,
        n <= white.len(),
    ensures
        -STEP_MAX <= acc_spec(white, n) <= STEP_MAX,
    decreases n,
{
    if n > 0 {
        lemma_acc_bounds(white, n - 1);
        lemma_round_div_bounds(
            acc_spec(white, n - 1) + white[n - 1],
            2,
            SAMPLE_MIN as int,
            SAMPLE_MAX as int,
        );
    }
}

/// Integrate a sequence of white-noise steps into brown noise.
pub fn integrate(white: &Vec<i32>) -> (r: Vec<i16>)
    requires
        forall|i: int| 0 <= i < white@.len() ==> -STEP_MAX <= #[trigger] white@[i] <= STEP_MAX,
    ensures
        r@ == integrate_spec(white@),
        r@.len() == white@.len(),
{
    let mut out: Vec<i16> = Vec::new();
    let mut acc: i64 = 0;
    let mut i: usize = 0;
    while i < white.len()
        invariant
            forall|j: int| 0 <= j < white@.len() ==> -STEP_MAX <= #[trigger] white@[j] <= STEP_MAX,
            i <= white@.len(),
            out@.len() == i,
            acc == acc_spec(white@, i as int),
            -STEP_MAX <= acc <= STEP_MAX,
            forall|j: int| 0 <= j < i ==> out@[j] == clamp_spec(acc_spec(white@, j + 1)),
        decreases white@.len() - i,
    {
        proof {
            lemma_round_div_bounds(
                acc + white@[i as int],
                2,
                SAMPLE_MIN as int,
                SAMPLE_MAX as int,
            );
        }
        acc = round_div(acc + white[i] as i64, 2);
        out.push(clamp_sample(acc));
        i = i + 1;
    }
    assert(out@ =~= integrate_spec(white@));
    out
}

/// Produces brown noise from a seeded white-noise process that it owns.
pub struct NoiseSource {
    rng: rand::rngs::StdRng,
}

impl NoiseSource {
    /// A source whose draws are determined by `seed`.
    pub fn new(seed: u64) -> NoiseSource {
        NoiseSource { rng: seeded_rng(seed) }
    }

    /// Draw `n` uniform white-noise steps.
    pub fn draw_white(&mut self, n: usize) -> (w: Vec<i32>)
        ensures
            w@.len() == n,
            forall|i: int| 0 <= i < n ==> -STEP_MAX <= #[trigger] w@[i] < STEP_MAX,
    {
        let mut w: Vec<i32> = Vec::new();
        let mut i: usize = 0;
        while i < n
            invariant
                i <= n,
                w@.len() == i,
                forall|j: int| 0 <= j < i ==> -STEP_MAX <= #[trigger] w@[j] < STEP_MAX,
            decreases n - i,
        {
            w.push(draw_step(&mut self.rng));
            i = i + 1;
        }
        w
    }

    /// Generate `duration_secs * sample_rate` brown-noise samples: fresh
    /// white draws pushed through the leaky integrator.
    pub fn generate(&mut self, duration_secs: u32, sample_rate: u32) -> (r: Vec<i16>)
        requires
            (duration_secs as int) * (sample_rate as int) <= u32::MAX as int,
        ensures
            r@.len() == (duration_secs as int) * (sample_rate as int),
    {
        proof {
            assert((duration_secs as int) * (sample_rate as int) >= 0) by (nonlinear_arith)
                requires duration_secs >= 0 && sample_rate >= 0;
        }
        let n64: u64 = duration_secs as u64 * sample_rate as u64;
        let n: usize = n64 as usize;
        let w: Vec<i32> = self.draw_white(n);
        integrate(&w)
    }
}

} // verus!
