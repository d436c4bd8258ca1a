//! The solid-model library seen from the verified code: its types are opaque,
//! and each call it offers stands behind one trusted function.
use csgrs::csg::CSG;
use csgrs::polygon::Polygon;
use csgrs::vertex::Vertex;
use csgrs::plane::Plane;
use csgrs::float_types::Real;
use nalgebra::Vector3;
use vstd::prelude::*;

verus! {

#[verifier::external_type_specification]
#[verifier::external_body]
#[verifier::reject_recursive_types(S)]
pub struct ExCsg<S: Clone>(CSG<S>);

#[verifier::external_type_specification]
#[verifier::external_body]
pub struct ExVertex(Vertex);

/// The solid models this library slices: csgrs solids without per-polygon metadata.
pub type Solid = CSG<()>;

/// The solid `model` moved by `dz` along the z axis, as csgrs translates it.
pub uninterp spec fn translated(model: Solid, dz: int) -> Solid;

/// The cross-section csgrs's slice gives of `model` with the plane `z = 0`.
pub uninterp spec fn ground_section(model: Solid) -> Solid;

/// The vertex loops of the polygons of `section`, in their stored order.
pub uninterp spec fn loops_of(section: Solid) -> Seq<Vec<Vertex>>;

/// Relies on `CSG::translate`: a translated copy of `model`, moved by `dz`
/// along the z axis; `model` itself is left as it is. The offset vector is
/// converted to the library's scalar type by nalgebra's `cast`.
#[verifier::external_body]
pub(crate) fn translated_along_z(model: &Solid, dz: i128) -> (r: Solid)
    ensures
        r == translated(*model, dz as int),
{
    model.translate(Vector3::new(0i128, 0i128, dz).cast::<Real>())
}

/// Relies on `CSG::slice` with the plane `z = 0` (normal `+z`, offset zero):
/// the cross-section of `model` with that plane, as a set of polygons.
#[verifier::external_body]
pub(crate) fn slice_at_ground(model: &Solid) -> (r: Solid)
    ensures
        r == ground_section(*model),
{
    model.slice(Plane { normal: Vector3::z(), w: nalgebra::zero() })
}

/// Relies on `CSG::to_polygons`: the vertex loop of each polygon of
/// `section`, in the order the polygons are stored.
#[verifier::external_body]
pub(crate) fn polygon_loops(section: &Solid) -> (r: Vec<Vec<Vertex>>)
    ensures
        r@ == loops_of(*section),
{
    section.to_polygons().iter().map(|p: &Polygon<()>| p.vertices.clone()).collect()
}

} // verus!
