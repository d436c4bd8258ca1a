//! The plane-sweep step: the cross-section of a solid at one height, as
//! boundary loops lifted back to that height.
use csgrs::vertex::Vertex;
use crate::geometry::{
    Solid, ground_section, loops_of, polygon_loops, slice_at_ground, translated,
    translated_along_z,
};
use crate::Height;
use vstd::prelude::*;

verus! {

/// Fewest vertices a boundary loop needs to be kept as a toolpath.
pub const MIN_LOOP_VERTICES: usize = 3;

/// One continuous path: a loop of vertices in a horizontal plane, at height `z`.
/// Each path point is the vertex's `x` and `y`, with `z` as its height.
#[derive(Debug, Clone)]
pub struct ToolpathSegment {
    pub vertices: Vec<Vertex>,
    pub z: Height,
}

/// The toolpath made of one cross-section loop at height `z`.
pub open spec fn segment_at(l: Vec<Vertex>, z: Height) -> ToolpathSegment {
    ToolpathSegment { vertices: l, z }
}

/// The segments lifted from `loops` at height `z`: the loops with at least
/// three vertices, in their order, each one at height `z`.
pub open spec fn lifted(loops: Seq<Vec<Vertex>>, z: Height) -> Seq<ToolpathSegment>
    decreases loops.len(),
{
    if loops.len() == 0 {
        Seq::empty()
    } else {
        let rest = lifted(loops.drop_last(), z);
        if loops.last()@.len() >= MIN_LOOP_VERTICES {
            rest.push(segment_at(loops.last(), z))
        } else {
            rest
        }
    }
}

/// A segment as the slicer emits it at height `z`.
pub open spec fn emitted_at(s: ToolpathSegment, z: Height) -> bool {
    s.z == z && s.vertices@.len() >= MIN_LOOP_VERTICES
}

/// Every segment lifted at height `z` lies at `z` and has at least three points.
pub proof fn lemma_lifted_emitted(loops: Seq<Vec<Vertex>>, z: Height)
    ensures
        forall|i: int| 0 <= i < lifted(loops, z).len() ==> emitted_at(#[trigger] lifted(loops, z)[i], z),
    decreases loops.len(),
{
    if loops.len() > 0 {
        let rest = lifted(loops.drop_last(), z);
        lemma_lifted_emitted(loops.drop_last(), z);
        if loops.last()@.len() >= MIN_LOOP_VERTICES {
            let all = rest.push(segment_at(loops.last(), z));
            assert forall|i: int| 0 <= i < all.len() implies emitted_at(#[trigger] all[i], z) by {
                if i < rest.len() {
                    assert(all[i] == rest[i]);
                }
            }
        }
    }
}

/// Turns the loops of a cross-section taken at height `z` into toolpath
/// segments: loops with fewer than three vertices are dropped, the others keep
/// their order and are placed at height `z`.
pub fn lift_loops(loops: Vec<Vec<Vertex>>, z: Height) -> (r: Vec<ToolpathSegment>)
    ensures
        r@ == lifted(loops@, z),
        forall|i: int| 0 <= i < r@.len() ==> emitted_at(#[trigger] r@[i], z),
{
    let ghost all = loops@;
    assert(all.len() == loops.len());
    let mut rest = loops;
    let mut out: Vec<ToolpathSegment> = Vec::new();
    let mut i: usize = 0;
    while rest.len() > 0
        invariant
            i + rest@.len() == all.len(),
            all.len() <= usize::MAX,
            rest@ == all.skip(i as int),
            out@ == lifted(all.take(i as int), z),
        decreases rest@.len(),
    {
        let l = rest.remove(0);
        proof {
            assert(all.take(i as int + 1).drop_last() =~= all.take(i as int));
            assert(all.take(i as int + 1).last() == all[i as int]);
            assert(rest@ =~= all.skip(i as int + 1));
        }
        if l.len() >= MIN_LOOP_VERTICES {
            out.push(ToolpathSegment { vertices: l, z });
        }
        i = i + 1;
    }
    proof {
        assert(all.take(i as int) =~= all);
        lemma_lifted_emitted(all, z);
    }
    out
}

/// The loops of the cross-section of `model` at height `z`: the model moved by
/// `-z`, cut by the plane `z = 0`, and each polygon of the cut taken as its
/// vertex loop.
pub open spec fn section_loops(model: Solid, z: Height) -> Seq<Vec<Vertex>> {
    loops_of(ground_section(translated(model, -(z as int))))
}

/// The boundary loops of the cross-section of `model` at height `z`, in the
/// order the solid-model library gives them. The model is moved by `-z` so
/// that the cut falls on the plane `z = 0`; `model` itself is not changed.
pub fn cross_section_loops(model: &Solid, z: Height) -> (r: Vec<Vec<Vertex>>)
    ensures
        r@ == section_loops(*model, z),
{
    let shifted = translated_along_z(model, -(z as i128));
    let section = slice_at_ground(&shifted);
    polygon_loops(&section)
}

/// The cross-section of `model` at height `z`, as toolpath segments at that
/// height: its loops of at least three vertices, lifted back to `z`.
pub fn slice_at(model: &Solid, z: Height) -> (r: Vec<ToolpathSegment>)
    ensures
        forall|i: int| 0 <= i < r@.len() ==> emitted_at(#[trigger] r@[i], z),
        r@ == lifted(section_loops(*model, z), z),
{
    let loops = cross_section_loops(model, z);
    lift_loops(loops, z)
}

} // verus!
