//! Voxel-world chunk storage and mesh generation.
//!
//! A world is a set of fixed-size chunks, each a padded voxel grid:
//! a 16x16x16 authoritative interior wrapped in a one-voxel ghost shell
//! that mirrors the adjoining neighbours' boundary layers. The library
//! turns a chunk's grid into renderable unit-quad geometry with
//! atlas-derived texture coordinates, and keeps adjacent chunks' edge
//! geometry consistent as chunks are inserted or edited.

use vstd::prelude::*;

pub mod atlas;
pub mod block;
pub mod chunk;
pub mod chunks;
pub mod face;
pub mod grid;
pub mod mesh;

pub use atlas::AtlasView;
pub use atlas::BlockAtlas;
pub use atlas::Rect;
pub use atlas::TextureAtlasLayout;
pub use atlas::atlas_lookup;
pub use block::AIR_BLOCK;
pub use block::Block;
pub use block::BlockBuilderError;
pub use block::BlockRegistry;
pub use block::TileEntityBlock;
pub use block::TileEntityBlockBuilder;
pub use block::VoxelBlock;
pub use block::VoxelBlockBuilder;
pub use block::VoxelVisibility;
pub use chunk::Chunk;
pub use chunk::ChunkView;
pub use chunk::INTERIOR_VOLUME;
pub use chunk::LAYER_AREA;
pub use chunks::ChunkEntity;
pub use chunks::Chunks;
pub use chunks::EntityView;
pub use chunks::nbr_pos;
pub use chunks::pos_in_bounds;
pub use face::ChunkFace;
pub use face::Opposite;
pub use grid::delinearize;
pub use grid::linearize;
pub use mesh::Geometry;
pub use mesh::GeometryView;
pub use mesh::chunk_resolves;
pub use mesh::face_visible;
pub use mesh::mesh_spec;
pub use mesh::visible_seq;

verus! {

/// Chunk edge length in voxels; the padded grid adds one ghost voxel
/// on each side.
pub const CHUNK_SIZE: u32 = 16;

/// A lattice or voxel position: three signed integer coordinates.
///
/// Chunk positions are in lattice units (one unit per 16-voxel chunk
/// edge); world voxel positions are in voxel units.
#[derive(Clone, Copy, Debug, PartialEq, Eq, Structural)]
pub struct IVec3 {
    pub x: i32,
    pub y: i32,
    pub z: i32,
}

impl IVec3 {
    /// A position from its three components.
    pub fn new(x: i32, y: i32, z: i32) -> (r: IVec3)
        ensures
            r == (IVec3 { x, y, z }),
    {
        IVec3 { x, y, z }
    }
}

/// The error cases of the chunk world.
#[derive(Clone, Copy, Debug, PartialEq, Eq, Structural)]
pub enum ChunkError {
    /// A referenced chunk position is not in the registry. Recoverable,
    /// scoped to the single operation.
    ChunkNotFound,
    /// A block reference or the texture of a visible face could not be
    /// resolved at mesh-generation time: an upstream loader bug.
    UnresolvedAsset,
    /// A chunk record's voxel count matches neither the padded volume
    /// nor the interior volume; rejected before it reaches a grid.
    MalformedRecord,
}

} // verus!
