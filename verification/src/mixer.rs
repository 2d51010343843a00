//! Linear blending of two sample sequences.

use vstd::prelude::*;
use crate::{ConfigError, UNIT, SAMPLE_MAX, SAMPLE_MIN};
use crate::{clamp_spec, round_div_spec, clamp_sample, round_div};
use crate::{lemma_round_div_exact, lemma_round_div_bounds};

verus! {

/// The value a sequence presents at an index, zero past its end.
pub open spec fn padded(s: Seq<i16>, i: int) -> int {
    if 0 <= i < s.len() {
        s[i] as int
    } else {
        0
    }
}

/// A sequence stretched (or kept) to length `n`, zero-filled past its end.
pub open spec fn pad_to(s: Seq<i16>, n: int) -> Seq<i16>
    recommends
        n >= 0,
{
    Seq::new(n as nat, |i: int| padded(s, i) as i16)
}

/// One blended sample: the convex combination of what both inputs
/// present at `i`, in Q15, rounded to nearest and saturated.
pub open spec fn mix_sample_spec(a: Seq<i16>, b: Seq<i16>, blend: int, i: int) -> i16 {
    clamp_spec(round_div_spec(padded(a, i) * (UNIT - blend) + padded(b, i) * blend, UNIT as int))
}

/// The blend of two whole sequences; the shorter is treated as
/// zero-padded, so the result is as long as the longer input.
pub open spec fn mix_spec(a: Seq<i16>, b: Seq<i16>, blend: int) -> Seq<i16> {
    Seq::new(
        if a.len() >= b.len() { a.len() } else { b.len() },
        |i: int| mix_sample_spec(a, b, blend, i),
    )
}

/// Blends two equal-role sample sequences.
pub struct Mixer;

impl Mixer {
    /// Blend `a` and `b` sample-wise with a Q15 blend factor: `0` keeps
    /// `a`, `UNIT` keeps `b`. The output is as long as the longer input;
    /// the shorter input counts as zero beyond its end. A blend factor
    /// outside `[0, UNIT]` is refused.
    pub fn mix(a: &Vec<i16>, b: &Vec<i16>, blend: i64) -> (r: Result<Vec<i16>, ConfigError>)
        ensures
            0 <= blend <= UNIT ==> (r matches Ok(out) && out@ == mix_spec(a@, b@, blend as int)
                && out@.len() == (if a@.len() >= b@.len() { a@.len() } else { b@.len() })),
            !(0 <= blend <= UNIT) ==> r == Err::<Vec<i16>, ConfigError>(
                ConfigError::BlendOutOfRange,
            ),
    {
        if !(0 <= blend && blend <= UNIT) {
            return Err(ConfigError::BlendOutOfRange);
        }
        let n: usize = if a.len() >= b.len() {
            a.len()
        } else {
            b.len()
        };
        let mut out: Vec<i16> = Vec::new();
        let mut i: usize = 0;
        while i < n
            invariant
                0 <= blend <= UNIT,
                n == (if a@.len() >= b@.len() { a@.len() } else { b@.len() }),
                i <= n,
                out@.len() == i,
                forall|j: int| 0 <= j < i ==> out@[j] == mix_sample_spec(a@, b@, blend as int, j),
            decreases n - i,
        {
            let av: i64 = if i < a.len() {
                a[i] as i64
            } else {
                0
            };
            let bv: i64 = if i < b.len() {
                b[i] as i64
            } else {
                0
            };
            assert(SAMPLE_MIN * UNIT <= av * (UNIT - blend) <= SAMPLE_MAX * UNIT)
                by (nonlinear_arith)
                requires
                    SAMPLE_MIN <= av <= SAMPLE_MAX,
                    0 <= UNIT - blend <= UNIT,
            ;
            assert(SAMPLE_MIN * UNIT <= bv * blend <= SAMPLE_MAX * UNIT) by (nonlinear_arith)
                requires
                    SAMPLE_MIN <= bv <= SAMPLE_MAX,
                    0 <= blend <= UNIT,
            ;
            let s: i64 = av * (UNIT - blend) + bv * blend;
            proof {
                lemma_convex_sum_bounds(av as int, bv as int, blend as int);
                lemma_round_div_bounds(s as int, UNIT as int, 2 * SAMPLE_MIN, 2 * SAMPLE_MAX);
            }
            out.push(clamp_sample(round_div(s, UNIT)));
            i = i + 1;
        }
        assert(out@ =~= mix_spec(a@, b@, blend as int));
        Ok(out)
    }
}

/// A convex combination of two in-range values stays within one unit
/// span of the sample range.
proof fn lemma_convex_sum_bounds(av: int, bv: int, blend: int)
    requires
        SAMPLE_MIN <= av <= SAMPLE_MAX,
        SAMPLE_MIN <= bv <= SAMPLE_MAX,
        0 <= blend <= UNIT,
    ensures
        2 * SAMPLE_MIN * UNIT <= av * (UNIT - blend) + bv * blend <= 2 * SAMPLE_MAX * UNIT,
{
    assert(2 * SAMPLE_MIN * UNIT <= av * (UNIT - blend) + bv * blend <= 2 * SAMPLE_MAX * UNIT)
        by (nonlinear_arith)
        requires
            SAMPLE_MIN <= av <= SAMPLE_MAX,
            SAMPLE_MIN <= bv <= SAMPLE_MAX,
            0 <= blend <= UNIT,
    ;
}

/// A blend factor of zero returns the first sequence, padded with zeros
/// to the length of the longer input.
pub proof fn lemma_mix_blend_zero(a: Seq<i16>, b: Seq<i16>)
    ensures
        mix_spec(a, b, 0) == pad_to(a, if a.len() >= b.len() { a.len() as int } else { b.len() as int }),
{
    let n: int = if a.len() >= b.len() { a.len() as int } else { b.len() as int };
    assert forall|i: int| 0 <= i < n implies mix_sample_spec(a, b, 0, i) == padded(a, i) as i16 by {
        lemma_round_div_exact(padded(a, i), UNIT as int);
        assert(padded(a, i) * (UNIT - 0) + padded(b, i) * 0 == padded(a, i) * UNIT);
    }
    assert(mix_spec(a, b, 0) =~= pad_to(a, n));
}

/// A blend factor of one (`UNIT`) returns the second sequence, padded
/// with zeros to the length of the longer input.
pub proof fn lemma_mix_blend_unit(a: Seq<i16>, b: Seq<i16>)
    ensures
        mix_spec(a, b, UNIT as int) == pad_to(b, if a.len() >= b.len() { a.len() as int } else { b.len() as int }),
{
    let n: int = if a.len() >= b.len() { a.len() as int } else { b.len() as int };
    assert forall|i: int| 0 <= i < n implies mix_sample_spec(a, b, UNIT as int, i) == padded(b, i) as i16 by {
        lemma_round_div_exact(padded(b, i), UNIT as int);
        assert(padded(a, i) * (UNIT - UNIT) + padded(b, i) * UNIT == padded(b, i) * UNIT);
    }
    assert(mix_spec(a, b, UNIT as int) =~= pad_to(b, n));
}

/// Blending is symmetric: swapping the inputs and complementing the
/// blend factor gives exactly the same sequence.
pub proof fn lemma_mix_commutes(a: Seq<i16>, b: Seq<i16>, blend: int)
    ensures
        mix_spec(a, b, blend) == mix_spec(b, a, UNIT - blend),
{
    let n: int = if a.len() >= b.len() { a.len() as int } else { b.len() as int };
    assert forall|i: int| 0 <= i < n implies mix_sample_spec(a, b, blend, i) == mix_sample_spec(
        b,
        a,
        UNIT - blend,
        i,
    ) by {
        assert(padded(b, i) * (UNIT - (UNIT - blend)) == padded(b, i) * blend);
    }
    assert(mix_spec(a, b, blend) =~= mix_spec(b, a, UNIT - blend));
}

} // verus!
