//! Configurations of the two manufacturing modes and the heights each one
//! slices at.
use crate::Height;
use vstd::arithmetic::div_mod::{lemma_fundamental_div_mod, lemma_mod_pos_bound};
use vstd::prelude::*;

verus! {

/// Settings of additive (layer-by-layer, bottom-up) manufacturing.
#[derive(Debug, Clone, Copy)]
pub struct AdditiveConfig {
    pub layer_height: Height,
    pub min_z: Height,
    pub max_z: Height,
}

/// Settings of subtractive (top-down contour pass) manufacturing.
#[derive(Debug, Clone, Copy)]
pub struct SubtractiveConfig {
    pub step_down: Height,
    pub min_z: Height,
    pub max_z: Height,
}

/// Why a configuration is refused.
#[derive(Debug, Clone, Copy, PartialEq, Eq)]
pub enum ConfigError {
    /// The additive layer height is zero or negative.
    NonPositiveLayerHeight,
    /// The subtractive step-down is zero or negative.
    NonPositiveStepDown,
}

/// How many heights lie in `[lo, hi]` when stepping from one end by `step`:
/// `(hi - lo) / step + 1`, or none when the range is empty.
pub open spec fn sample_count(lo: int, hi: int, step: int) -> nat {
    if lo <= hi {
        ((hi - lo) / step + 1) as nat
    } else {
        0
    }
}

/// The heights `lo, lo + step, ...` up to `hi`.
pub open spec fn ascending_heights(lo: int, hi: int, step: int) -> Seq<int> {
    Seq::new(sample_count(lo, hi, step), |k: int| lo + k * step)
}

/// The heights `hi, hi - step, ...` down to `lo`.
pub open spec fn descending_heights(lo: int, hi: int, step: int) -> Seq<int> {
    Seq::new(sample_count(lo, hi, step), |k: int| hi - k * step)
}

/// The heights of a plan, as mathematical integers.
pub open spec fn heights_view(v: Seq<Height>) -> Seq<int> {
    v.map_values(|h: Height| h as int)
}

/// Integer heights as plan heights.
pub open spec fn as_heights(v: Seq<int>) -> Seq<Height> {
    v.map_values(|h: int| h as Height)
}

/// The heights an additive run slices at, bottom up.
pub open spec fn additive_plan(cfg: AdditiveConfig) -> Seq<Height> {
    as_heights(ascending_heights(cfg.min_z as int, cfg.max_z as int, cfg.layer_height as int))
}

/// The heights a subtractive run slices at, top down.
pub open spec fn subtractive_plan(cfg: SubtractiveConfig) -> Seq<Height> {
    as_heights(descending_heights(cfg.min_z as int, cfg.max_z as int, cfg.step_down as int))
}

/// Plan heights are recovered from their integer values.
pub proof fn lemma_as_heights_of_view(v: Seq<Height>)
    ensures
        as_heights(heights_view(v)) == v,
{
    assert(as_heights(heights_view(v)) =~= v);
}

/// Where `k` steps from a range's end still stay within a range of width `w`,
/// and one more step would leave it, `k` is `w / step`.
proof fn lemma_last_step(w: int, k: int, step: int)
    requires
        step > 0,
        0 <= k,
        0 <= w - k * step < step,
    ensures
        w / step == k,
{
    assert(w / step == k) by (nonlinear_arith)
        requires
            step > 0,
            0 <= k,
            0 <= w - k * step < step,
    ;
}

/// A plan over a non-empty range `[lo, hi]` with a positive step holds
/// `(hi - lo) / step + 1` heights. Going up, the last one is at most `hi` and
/// one more step would pass `hi`; going down, the last one is at least `lo`
/// and one more step would pass below `lo`.
pub proof fn lemma_sample_count(lo: int, hi: int, step: int)
    requires
        step > 0,
        lo <= hi,
    ensures
        ascending_heights(lo, hi, step).len() == (hi - lo) / step + 1,
        descending_heights(lo, hi, step).len() == (hi - lo) / step + 1,
        ascending_heights(lo, hi, step).last() <= hi < ascending_heights(lo, hi, step).last() + step,
        descending_heights(lo, hi, step).last() - step < lo <= descending_heights(lo, hi, step).last(),
{
    lemma_fundamental_div_mod(hi - lo, step);
    lemma_mod_pos_bound(hi - lo, step);
    let q = (hi - lo) / step;
    assert(q >= 0) by (nonlinear_arith)
        requires
            hi - lo >= 0,
            step > 0,
            q == (hi - lo) / step,
    ;
    assert(step * q == q * step) by (nonlinear_arith);
    assert(ascending_heights(lo, hi, step).last() == lo + q * step);
    assert(descending_heights(lo, hi, step).last() == hi - q * step);
}

impl AdditiveConfig {
    /// The heights at which the layers are sliced, from `min_z` up to `max_z`
    /// by `layer_height`: `(max_z - min_z) / layer_height + 1` of them, none
    /// when `min_z > max_z`. A layer height of zero or less is refused.
    pub fn layer_heights(&self) -> (r: Result<Vec<Height>, ConfigError>)
        ensures
            self.layer_height > 0 <==> r is Ok,
            r is Err ==> r == Err::<Vec<Height>, ConfigError>(ConfigError::NonPositiveLayerHeight),
            r is Ok ==> heights_view(r->Ok_0@) == ascending_heights(
                self.min_z as int,
                self.max_z as int,
                self.layer_height as int,
            ),
    {
        if self.layer_height <= 0 {
            return Err(ConfigError::NonPositiveLayerHeight);
        }
        let lo = self.min_z;
        let hi = self.max_z;
        let step = self.layer_height;
        let ghost want = ascending_heights(lo as int, hi as int, step as int);
        let mut out: Vec<Height> = Vec::new();
        if lo > hi {
            assert(heights_view(out@) =~= want);
            return Ok(out);
        }
        let mut z: Height = lo;
        let ghost mut k: int = 0;
        loop
            invariant
                step > 0,
                step == self.layer_height,
                lo == self.min_z,
                hi == self.max_z,
                want == ascending_heights(lo as int, hi as int, step as int),
                lo <= z <= hi,
                z == lo + k * step,
                0 <= k,
                k == out@.len(),
                forall|j: int| 0 <= j < k ==> out@[j] == lo + j * step,
            decreases hi - z,
        {
            out.push(z);
            if (hi as i128) - (z as i128) < step as i128 {
                proof {
                    lemma_last_step(hi - lo, k, step as int);
                    assert(heights_view(out@) =~= want);
                }
                return Ok(out);
            }
            z = z + step;
            proof {
                assert((k + 1) * step == k * step + step) by (nonlinear_arith);
                k = k + 1;
            }
        }
    }
}

impl SubtractiveConfig {
    /// The heights of the contour passes, from `max_z` down to `min_z` by
    /// `step_down`: `(max_z - min_z) / step_down + 1` of them, none when
    /// `min_z > max_z`. A step-down of zero or less is refused.
    pub fn pass_heights(&self) -> (r: Result<Vec<Height>, ConfigError>)
        ensures
            self.step_down > 0 <==> r is Ok,
            r is Err ==> r == Err::<Vec<Height>, ConfigError>(ConfigError::NonPositiveStepDown),
            r is Ok ==> heights_view(r->Ok_0@) == descending_heights(
                self.min_z as int,
                self.max_z as int,
                self.step_down as int,
            ),
    {
        if self.step_down <= 0 {
            return Err(ConfigError::NonPositiveStepDown);
        }
        let lo = self.min_z;
        let hi = self.max_z;
        let step = self.step_down;
        let ghost want = descending_heights(lo as int, hi as int, step as int);
        let mut out: Vec<Height> = Vec::new();
        if lo > hi {
            assert(heights_view(out@) =~= want);
            return Ok(out);
        }
        let mut z: Height = hi;
        let ghost mut k: int = 0;
        loop
            invariant
                step > 0,
                step == self.step_down,
                lo == self.min_z,
                hi == self.max_z,
                want == descending_heights(lo as int, hi as int, step as int),
                lo <= z <= hi,
                z == hi - k * step,
                0 <= k,
                k == out@.len(),
                forall|j: int| 0 <= j < k ==> out@[j] == hi - j * step,
            decreases z - lo,
        {
            out.push(z);
            if (z as i128) - (lo as i128) < step as i128 {
                proof {
                    lemma_last_step(hi - lo, k, step as int);
                    assert(heights_view(out@) =~= want);
                }
                return Ok(out);
            }
            z = z - step;
            proof {
                assert((k + 1) * step == k * step + step) by (nonlinear_arith);
                k = k + 1;
            }
        }
    }
}

} // verus!
