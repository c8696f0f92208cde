//! Handles into the render-resource arena.

use vstd::prelude::*;

verus! {

/// What one draw uses: a pipeline, a mesh and bind groups, by their indices.
pub struct RenderRef {
    pub pipeline: usize,
    pub mesh: usize,
    pub bind_groups: Vec<usize>,
}

/// The index of a render pipeline.
pub struct RenderPipelineIndex(pub usize);

/// The index of a mesh.
pub struct MeshIndex(pub usize);

/// The index of a bind group.
pub struct BindGroupIndex(pub usize);

/// The indices of several bind groups.
pub struct BindGroupListIndex(pub Vec<usize>);

/// The plane that a generated plane mesh lies in.
#[derive(Debug, Clone, Copy, PartialEq, Eq, Structural)]
pub enum PlaneAlign {
    XY,
    XZ,
    YZ,
}

} // verus!
