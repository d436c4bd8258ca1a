use vstd::prelude::*;

pub mod config;
pub mod generator;
pub mod geometry;
pub mod slicer;

verus! {

/// Height of a slicing plane, in whole units of the model's z axis. Heights
/// are exact, so a plan of layers needs no tolerance; for layers finer than
/// one unit, scale the model along z before slicing.
pub type Height = i64;

} // verus!

pub use config::{AdditiveConfig, ConfigError, SubtractiveConfig};
pub use generator::{
    AdditiveToolpathGenerator, SubtractiveToolpathGenerator, ToolpathGenerator, ToolpathSet,
    gather_layers, sweep,
};
pub use geometry::Solid;
pub use slicer::{ToolpathSegment, cross_section_loops, lift_loops, slice_at};
