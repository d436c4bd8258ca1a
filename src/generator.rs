//! The two toolpath generators, both thin drivers over one sweep that slices a
//! solid at each height of a plan.
use csgrs::vertex::Vertex;
use crate::config::{
    AdditiveConfig, ConfigError, SubtractiveConfig, additive_plan, ascending_heights,
    descending_heights, heights_view, lemma_as_heights_of_view, subtractive_plan,
};
use crate::geometry::Solid;
use crate::slicer::{
    ToolpathSegment, cross_section_loops, emitted_at, lift_loops, lifted, section_loops,
};
use crate::Height;
use vstd::prelude::*;

verus! {

/// All the segments of one generation run, layer after layer in the order the
/// heights were visited.
#[derive(Debug, Clone)]
pub struct ToolpathSet {
    pub segments: Vec<ToolpathSegment>,
}

/// The segments of a sweep over `heights`, where `found[k]` are the
/// cross-section loops found at `heights[k]`: each height's segments in turn.
pub open spec fn swept(found: Seq<Seq<Vec<Vertex>>>, heights: Seq<Height>) -> Seq<ToolpathSegment>
    decreases heights.len(),
{
    if heights.len() == 0 || found.len() == 0 {
        Seq::empty()
    } else {
        swept(found.drop_last(), heights.drop_last()) + lifted(found.last(), heights.last())
    }
}

/// The cross-section loops of `model` at each of `heights`.
pub open spec fn sections_at(model: Solid, heights: Seq<Height>) -> Seq<Seq<Vec<Vertex>>> {
    Seq::new(heights.len(), |k: int| section_loops(model, heights[k]))
}

/// The toolpaths of `model` sliced at each of `heights` in turn.
pub open spec fn sweep_of(model: Solid, heights: Seq<Height>) -> Seq<ToolpathSegment> {
    swept(sections_at(model, heights), heights)
}

/// Every segment has at least three points and lies at one of `heights`.
pub open spec fn all_emitted_within(segments: Seq<ToolpathSegment>, heights: Seq<Height>) -> bool {
    forall|i: int|
        0 <= i < segments.len() ==> exists|k: int|
            0 <= k < heights.len() && emitted_at(#[trigger] segments[i], heights[k])
}

/// `a` comes no later than `b` in a sweep upward (`up`) or downward.
pub open spec fn no_later(a: Height, b: Height, up: bool) -> bool {
    if up {
        a <= b
    } else {
        a >= b
    }
}

/// The heights strictly rise (`up`) or strictly fall, one after another.
pub open spec fn strictly_monotone(heights: Seq<Height>, up: bool) -> bool {
    forall|a: int, b: int|
        0 <= a < b < heights.len() ==> #[trigger] no_later(heights[a], heights[b], up)
            && heights[a] != heights[b]
}

/// The segments come layer by layer in the direction of the sweep.
pub open spec fn in_layer_order(segments: Seq<ToolpathSegment>, up: bool) -> bool {
    forall|i: int, j: int|
        0 <= i < j < segments.len() ==> #[trigger] no_later(segments[i].z, segments[j].z, up)
}

/// The loops of each layer, as sequences.
pub open spec fn loops_view(found: Seq<Vec<Vec<Vertex>>>) -> Seq<Seq<Vec<Vertex>>> {
    found.map_values(|l: Vec<Vec<Vertex>>| l@)
}

/// Gathers the segments of a sweep from the loops `found[k]` met at each
/// `heights[k]`: each height's loops are lifted to it, and each height's
/// segments follow those of the heights before it.
pub fn gather_layers(found: Vec<Vec<Vec<Vertex>>>, heights: &Vec<Height>) -> (r: ToolpathSet)
    requires
        found@.len() == heights@.len(),
    ensures
        r.segments@ == swept(loops_view(found@), heights@),
        all_emitted_within(r.segments@, heights@),
        strictly_monotone(heights@, true) ==> in_layer_order(r.segments@, true),
        strictly_monotone(heights@, false) ==> in_layer_order(r.segments@, false),
{
    let ghost all = loops_view(found@);
    let mut rest = found;
    let mut out: Vec<ToolpathSegment> = Vec::new();
    let mut k: usize = 0;
    while k < heights.len()
        invariant
            k <= heights@.len(),
            all.len() == heights@.len(),
            loops_view(rest@) == all.skip(k as int),
            out@ == swept(all.take(k as int), heights@.take(k as int)),
            all_emitted_within(out@, heights@.take(k as int)),
            strictly_monotone(heights@, true) ==> in_layer_order(out@, true),
            strictly_monotone(heights@, false) ==> in_layer_order(out@, false),
        decreases heights@.len() - k,
    {
        let z = heights[k];
        let ghost rest_before = rest@;
        assert(loops_view(rest@).len() == rest@.len());
        let loops = rest.remove(0);
        proof {
            assert(loops_view(rest_before)[0] == rest_before[0]@);
            assert(loops_view(rest@) =~= loops_view(rest_before).drop_first());
            assert(all.skip(k as int + 1) =~= all.skip(k as int).drop_first());
        }
        let mut layer = lift_loops(loops, z);
        let ghost before = out@;
        let ghost layer_segments = layer@;
        out.append(&mut layer);
        proof {
            let hs = heights@.take(k as int + 1);
            let grown = all.take(k as int + 1);
            assert(grown.drop_last() =~= all.take(k as int));
            assert(grown.last() == all[k as int]);
            assert(hs.drop_last() =~= heights@.take(k as int));
            assert(hs.last() == z);
            assert(out@ == swept(grown, hs));
            assert forall|i: int| 0 <= i < out@.len() implies exists|j: int|
                0 <= j < hs.len() && emitted_at(#[trigger] out@[i], hs[j]) by {
                if i >= before.len() {
                    assert(out@[i] == layer_segments[i - before.len()]);
                    assert(emitted_at(out@[i], hs[k as int]));
                } else {
                    assert(out@[i] == before[i]);
                    let j = choose|j: int|
                        0 <= j < k && emitted_at(before[i], heights@.take(k as int)[j]);
                    assert(hs[j] == heights@.take(k as int)[j]);
                }
            }
            assert forall|up: bool| strictly_monotone(heights@, up) implies in_layer_order(
                out@,
                up,
            ) by {
                assert forall|i: int, j: int| 0 <= i < j < out@.len() implies #[trigger] no_later(
                    out@[i].z,
                    out@[j].z,
                    up,
                ) by {
                    if j >= before.len() {
                        assert(out@[j] == layer_segments[j - before.len()]);
                        if i >= before.len() {
                            assert(out@[i] == layer_segments[i - before.len()]);
                        } else {
                            assert(out@[i] == before[i]);
                            let a = choose|a: int|
                                0 <= a < k && emitted_at(before[i], heights@.take(k as int)[a]);
                            assert(no_later(heights@[a], heights@[k as int], up));
                        }
                    } else {
                        assert(out@[i] == before[i]);
                        assert(out@[j] == before[j]);
                    }
                }
            }
        }
        k = k + 1;
    }
    proof {
        assert(heights@.take(k as int) =~= heights@);
        assert(all.take(k as int) =~= all);
    }
    ToolpathSet { segments: out }
}

/// Slices `model` at each of `heights` in turn and gathers the segments,
/// those of each height after those of the heights before it.
pub fn sweep(model: &Solid, heights: &Vec<Height>) -> (r: ToolpathSet)
    ensures
        r.segments@ == sweep_of(*model, heights@),
        all_emitted_within(r.segments@, heights@),
        strictly_monotone(heights@, true) ==> in_layer_order(r.segments@, true),
        strictly_monotone(heights@, false) ==> in_layer_order(r.segments@, false),
{
    let mut found: Vec<Vec<Vec<Vertex>>> = Vec::new();
    let mut k: usize = 0;
    while k < heights.len()
        invariant
            k <= heights@.len(),
            found@.len() == k,
            forall|j: int| 0 <= j < k ==> #[trigger] found@[j]@ == section_loops(*model, heights@[j]),
        decreases heights@.len() - k,
    {
        found.push(cross_section_loops(model, heights[k]));
        k = k + 1;
    }
    assert(loops_view(found@) =~= sections_at(*model, heights@));
    gather_layers(found, heights)
}

/// Heights that step by a positive `step` from one end of a range are
/// strictly monotone: rising from the bottom, falling from the top.
proof fn lemma_plan_monotone(heights: Seq<Height>, lo: int, hi: int, step: int, up: bool)
    requires
        step > 0,
        up ==> heights_view(heights) == ascending_heights(lo, hi, step),
        !up ==> heights_view(heights) == descending_heights(lo, hi, step),
    ensures
        strictly_monotone(heights, up),
{
    assert forall|a: int, b: int| 0 <= a < b < heights.len() implies #[trigger] no_later(
        heights[a],
        heights[b],
        up,
    ) && heights[a] != heights[b] by {
        assert(heights_view(heights).len() == heights.len());
        assert(heights_view(heights)[a] == heights[a] as int);
        assert(heights_view(heights)[b] == heights[b] as int);
        if up {
            assert(heights[a] == lo + a * step);
            assert(heights[b] == lo + b * step);
        } else {
            assert(heights[a] == hi - a * step);
            assert(heights[b] == hi - b * step);
        }
        assert(a * step < b * step) by (nonlinear_arith)
            requires
                a < b,
                step > 0,
        ;
    }
}

/// A generation run's toolpaths depend on the model and the configuration
/// alone: two additive runs, or two subtractive runs, on the same model and
/// configuration give the same segments, point for point.
pub proof fn lemma_generation_deterministic(
    model: Solid,
    additive: AdditiveConfig,
    subtractive: SubtractiveConfig,
    first: Seq<ToolpathSegment>,
    second: Seq<ToolpathSegment>,
)
    ensures
        first == sweep_of(model, additive_plan(additive)) && second == sweep_of(
            model,
            additive_plan(additive),
        ) ==> first == second,
        first == sweep_of(model, subtractive_plan(subtractive)) && second == sweep_of(
            model,
            subtractive_plan(subtractive),
        ) ==> first == second,
{
}

/// A manufacturing mode: turns a solid and the mode's settings into toolpaths.
pub trait ToolpathGenerator {
    type Config;

    /// Generates the toolpaths of `model` under `config`.
    fn generate_toolpaths(&self, model: &Solid, config: &Self::Config) -> Result<
        ToolpathSet,
        ConfigError,
    >;
}

/// Additive manufacturing: one slice per layer, from the bottom up.
pub struct AdditiveToolpathGenerator;

/// Subtractive manufacturing: one contour pass per level, from the top down.
pub struct SubtractiveToolpathGenerator;

impl ToolpathGenerator for AdditiveToolpathGenerator {
    type Config = AdditiveConfig;

    /// Slices `model` at each height of `config.layer_heights()`, bottom up.
    fn generate_toolpaths(&self, model: &Solid, config: &AdditiveConfig) -> (r: Result<
        ToolpathSet,
        ConfigError,
    >)
        ensures
            config.layer_height > 0 <==> r is Ok,
            r is Err ==> r == Err::<ToolpathSet, ConfigError>(ConfigError::NonPositiveLayerHeight),
            r is Ok ==> r->Ok_0.segments@ == sweep_of(*model, additive_plan(*config)),
            r is Ok ==> all_emitted_within(r->Ok_0.segments@, additive_plan(*config)),
            r is Ok ==> in_layer_order(r->Ok_0.segments@, true),
    {
        match config.layer_heights() {
            Err(e) => Err(e),
            Ok(heights) => {
                proof {
                    lemma_plan_monotone(
                        heights@,
                        config.min_z as int,
                        config.max_z as int,
                        config.layer_height as int,
                        true,
                    );
                    lemma_as_heights_of_view(heights@);
                }
                Ok(sweep(model, &heights))
            },
        }
    }
}

impl ToolpathGenerator for SubtractiveToolpathGenerator {
    type Config = SubtractiveConfig;

    /// Slices `model` at each height of `config.pass_heights()`, top down.
    fn generate_toolpaths(&self, model: &Solid, config: &SubtractiveConfig) -> (r: Result<
        ToolpathSet,
        ConfigError,
    >)
        ensures
            config.step_down > 0 <==> r is Ok,
            r is Err ==> r == Err::<ToolpathSet, ConfigError>(ConfigError::NonPositiveStepDown),
            r is Ok ==> r->Ok_0.segments@ == sweep_of(*model, subtractive_plan(*config)),
            r is Ok ==> all_emitted_within(r->Ok_0.segments@, subtractive_plan(*config)),
            r is Ok ==> in_layer_order(r->Ok_0.segments@, false),
    {
        match config.pass_heights() {
            Err(e) => Err(e),
            Ok(heights) => {
                proof {
                    lemma_plan_monotone(
                        heights@,
                        config.min_z as int,
                        config.max_z as int,
                        config.step_down as int,
                        false,
                    );
                    lemma_as_heights_of_view(heights@);
                }
                Ok(sweep(model, &heights))
            },
        }
    }
}

} // verus!
