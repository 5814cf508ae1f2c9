//! Block definitions and the block registry.
//!
//! A block definition is either a voxel block, meshed cube-face by
//! cube-face, or a tile-entity block rendered from a static mesh and
//! excluded from chunk geometry. Chunks never store definitions; they
//! store [`u32`] block references into a [`BlockRegistry`], which
//! resolves a reference to its definition. Texture and mesh assets are
//! referred to by [`u64`] asset identifiers chosen by the host.

use vstd::prelude::*;

verus! {

/// How a voxel block influences face visibility.
#[derive(Clone, Copy, Debug, PartialEq, Eq, Structural)]
pub enum VoxelVisibility {
    /// Blocks no faces and produces none.
    Empty,
    /// Produces faces towards empty neighbours; blocks no faces.
    Translucent,
    /// Produces faces towards empty neighbours and blocks the
    /// neighbour's face in between.
    Opaque,
}

/// A cube-shaped block meshed by the chunk mesh generator.
#[derive(Debug)]
pub struct VoxelBlock {
    pub name: String,
    /// Texture asset of the block's faces; required as soon as a face
    /// of the block becomes visible.
    pub texture: Option<u64>,
    pub visibility: VoxelVisibility,
}

/// A block rendered from its own static mesh, not from chunk geometry.
#[derive(Debug)]
pub struct TileEntityBlock {
    /// Mesh asset of the block.
    pub mesh: u64,
    pub name: String,
    /// Texture asset of the block's mesh.
    pub texture: u64,
}

/// A block definition.
#[derive(Debug)]
pub enum Block {
    Voxel(VoxelBlock),
    TileEntity(TileEntityBlock),
}

/// Whether `b` is the air block: an empty voxel block named "Air"
/// with no texture.
pub open spec fn is_air(b: &Block) -> bool {
    &&& b is Voxel
    &&& b->Voxel_0.name@ == "Air"@
    &&& b->Voxel_0.texture is None
    &&& b->Voxel_0.visibility == VoxelVisibility::Empty
}

impl Block {
    /// The visibility class the mesh generator sees: a voxel block's
    /// own class; a tile-entity block is treated as empty.
    pub open spec fn spec_visibility(&self) -> VoxelVisibility {
        match self {
            Block::Voxel(v) => v.visibility,
            Block::TileEntity(_) => VoxelVisibility::Empty,
        }
    }

    /// The texture of the block when meshed as a voxel.
    pub open spec fn spec_voxel_texture(&self) -> Option<u64> {
        match self {
            Block::Voxel(v) => v.texture,
            Block::TileEntity(_) => None,
        }
    }

    /// The air block.
    pub fn air() -> (r: Block)
        ensures
            is_air(&r),
    {
        Block::Voxel(VoxelBlock {
            name: String::from_str("Air"),
            texture: None,
            visibility: VoxelVisibility::Empty,
        })
    }

    /// Whether this is a voxel block.
    pub fn is_voxel(&self) -> (r: bool)
        ensures
            r == (self is Voxel),
    {
        matches!(self, Block::Voxel(_))
    }

    /// The texture of a voxel block, `None` for a tile entity.
    pub fn voxel_texture(&self) -> (r: Option<u64>)
        ensures
            r == self.spec_voxel_texture(),
    {
        match self {
            Block::Voxel(v) => v.texture,
            Block::TileEntity(_) => None,
        }
    }

    /// The texture of a tile-entity block, `None` for a voxel.
    pub fn tile_entity_texture(&self) -> (r: Option<u64>)
        ensures
            r == (match self {
                Block::TileEntity(t) => Some(t.texture),
                Block::Voxel(_) => None::<u64>,
            }),
    {
        match self {
            Block::TileEntity(t) => Some(t.texture),
            Block::Voxel(_) => None,
        }
    }

    /// The static mesh of a tile-entity block, `None` for a voxel.
    pub fn tile_entity_mesh(&self) -> (r: Option<u64>)
        ensures
            r == (match self {
                Block::TileEntity(t) => Some(t.mesh),
                Block::Voxel(_) => None::<u64>,
            }),
    {
        match self {
            Block::TileEntity(t) => Some(t.mesh),
            Block::Voxel(_) => None,
        }
    }

    /// The static mesh of a tile-entity block, `None` for a voxel.
    pub fn get_mesh(&self) -> (r: Option<u64>)
        ensures
            r == (match self {
                Block::TileEntity(t) => Some(t.mesh),
                Block::Voxel(_) => None::<u64>,
            }),
    {
        self.tile_entity_mesh()
    }

    /// The visibility class the mesh generator sees.
    pub fn get_voxel_visibility(&self) -> (r: VoxelVisibility)
        ensures
            r == self.spec_visibility(),
    {
        match self {
            Block::Voxel(v) => v.visibility,
            Block::TileEntity(_) => VoxelVisibility::Empty,
        }
    }

    /// The block's name.
    pub fn get_name(&self) -> (r: &String)
        ensures
            r@ == (match self {
                Block::Voxel(v) => v.name@,
                Block::TileEntity(t) => t.name@,
            }),
    {
        match self {
            Block::Voxel(v) => &v.name,
            Block::TileEntity(t) => &t.name,
        }
    }
}

impl Default for Block {
    /// The default block is air.
    fn default() -> (r: Block)
        ensures
            is_air(&r),
    {
        Block::air()
    }
}

/// The block reference that always resolves to air: a fresh registry
/// holds air in its first slot.
pub const AIR_BLOCK: u32 = 0;

/// The block resolution service: maps a block reference, as chunks
/// store it, to its definition. References are indices into the order
/// of registration.
pub struct BlockRegistry {
    blocks: Vec<Block>,
}

impl View for BlockRegistry {
    type V = Seq<Block>;

    closed spec fn view(&self) -> Seq<Block> {
        self.blocks@
    }
}

impl BlockRegistry {
    /// A fresh registry, holding only air at reference [`AIR_BLOCK`].
    pub fn new() -> (r: BlockRegistry)
        ensures
            r@.len() == 1,
            is_air(&r@[0]),
    {
        let mut blocks: Vec<Block> = Vec::new();
        blocks.push(Block::air());
        BlockRegistry { blocks }
    }

    /// Registers a definition and returns its reference.
    pub fn register(&mut self, block: Block) -> (id: u32)
        requires
            old(self)@.len() < u32::MAX,
        ensures
            final(self)@ == old(self)@.push(block),
            id == old(self)@.len(),
    {
        let id = self.blocks.len() as u32;
        self.blocks.push(block);
        id
    }

    /// Resolves a reference; `None` if it was never registered.
    pub fn get(&self, id: u32) -> (r: Option<&Block>)
        ensures
            match r {
                Some(b) => id < self@.len() && *b == self@[id as int],
                None => id >= self@.len(),
            },
    {
        if (id as usize) < self.blocks.len() {
            Some(&self.blocks[id as usize])
        } else {
            None
        }
    }

    /// Number of registered definitions.
    pub fn len(&self) -> (r: usize)
        ensures
            r == self@.len(),
    {
        self.blocks.len()
    }
}

/// What a block builder rejects.
#[derive(Clone, Copy, Debug, PartialEq, Eq, Structural)]
pub enum BlockBuilderError {
    UnsetNameForVoxel,
    UnsetNameForTileEntity,
    UnsetVisbility,
    UnsetTextureForVoxel,
    UnsetTextureForTileEntity,
    UnsetModelForTileEntity,
    VisbilityNoneTexture,
}

/// Step-by-step construction of a voxel block.
#[derive(Default)]
pub struct VoxelBlockBuilder {
    pub name: Option<String>,
    pub texture: Option<u64>,
    pub visibility: Option<VoxelVisibility>,
}

impl VoxelBlockBuilder {
    /// A builder with nothing set.
    pub fn new() -> (r: VoxelBlockBuilder)
        ensures
            r == (VoxelBlockBuilder { name: None, texture: None, visibility: None }),
    {
        VoxelBlockBuilder { name: None, texture: None, visibility: None }
    }

    /// Sets the visibility class. Rejected for an empty block that
    /// already carries a texture.
    pub fn visibility(&mut self, visibility: VoxelVisibility) -> (r: Result<
        (),
        BlockBuilderError,
    >)
        ensures
            match r {
                Ok(()) => {
                    &&& !(visibility == VoxelVisibility::Empty && old(self).texture is Some)
                    &&& final(self).visibility == Some(visibility)
                    &&& final(self).name == old(self).name
                    &&& final(self).texture == old(self).texture
                },
                Err(e) => {
                    &&& visibility == VoxelVisibility::Empty && old(self).texture is Some
                    &&& e == BlockBuilderError::UnsetTextureForVoxel
                    &&& *final(self) == *old(self)
                },
            },
    {
        match visibility {
            VoxelVisibility::Empty if self.texture.is_some() => Err(
                BlockBuilderError::UnsetTextureForVoxel,
            ),
            _ => {
                self.visibility = Some(visibility);
                Ok(())
            },
        }
    }

    /// Sets the name.
    pub fn name(&mut self, name: String)
        ensures
            final(self).name == Some(name),
            final(self).texture == old(self).texture,
            final(self).visibility == old(self).visibility,
    {
        self.name = Some(name);
    }

    /// Sets the texture asset.
    pub fn texture(&mut self, texture: u64)
        ensures
            final(self).texture == Some(texture),
            final(self).name == old(self).name,
            final(self).visibility == old(self).visibility,
    {
        self.texture = Some(texture);
    }

    /// Finishes the block. Name and visibility must have been set.
    pub fn finish(self) -> (r: Result<Block, BlockBuilderError>)
        ensures
            match r {
                Ok(b) => {
                    &&& self.name matches Some(n) && self.visibility matches Some(v) && b
                        == Block::Voxel(
                        VoxelBlock { name: n, texture: self.texture, visibility: v },
                    )
                },
                Err(e) => {
                    if self.name is None {
                        e == BlockBuilderError::UnsetNameForVoxel
                    } else {
                        self.visibility is None && e == BlockBuilderError::UnsetVisbility
                    }
                },
            },
    {
        let VoxelBlockBuilder { name, texture, visibility } = self;
        let name = match name {
            Some(n) => n,
            None => {
                return Err(BlockBuilderError::UnsetNameForVoxel);
            },
        };
        let visibility = match visibility {
            Some(v) => v,
            None => {
                return Err(BlockBuilderError::UnsetVisbility);
            },
        };
        Ok(Block::Voxel(VoxelBlock { name, texture, visibility }))
    }
}

/// Step-by-step construction of a tile-entity block.
#[derive(Default)]
pub struct TileEntityBlockBuilder {
    pub mesh: Option<u64>,
    pub name: Option<String>,
    pub texture: Option<u64>,
}

impl TileEntityBlockBuilder {
    /// A builder with nothing set.
    pub fn new() -> (r: TileEntityBlockBuilder)
        ensures
            r == (TileEntityBlockBuilder { mesh: None, name: None, texture: None }),
    {
        TileEntityBlockBuilder { mesh: None, name: None, texture: None }
    }

    /// Sets the name.
    pub fn name(&mut self, name: String)
        ensures
            final(self).name == Some(name),
            final(self).mesh == old(self).mesh,
            final(self).texture == old(self).texture,
    {
        self.name = Some(name);
    }

    /// Sets the mesh asset.
    pub fn mesh(&mut self, mesh: u64)
        ensures
            final(self).mesh == Some(mesh),
            final(self).name == old(self).name,
            final(self).texture == old(self).texture,
    {
        self.mesh = Some(mesh);
    }

    /// Sets the texture asset.
    pub fn texture(&mut self, texture: u64)
        ensures
            final(self).texture == Some(texture),
            final(self).name == old(self).name,
            final(self).mesh == old(self).mesh,
    {
        self.texture = Some(texture);
    }

    /// Finishes the block. Name, texture and mesh must have been set.
    pub fn finish(self) -> (r: Result<Block, BlockBuilderError>)
        ensures
            match r {
                Ok(b) => {
                    &&& self.name matches Some(n) && self.texture matches Some(t)
                        && self.mesh matches Some(m) && b == Block::TileEntity(
                        TileEntityBlock { mesh: m, name: n, texture: t },
                    )
                },
                Err(e) => {
                    if self.name is None {
                        e == BlockBuilderError::UnsetNameForTileEntity
                    } else if self.texture is None {
                        e == BlockBuilderError::UnsetTextureForTileEntity
                    } else {
                        self.mesh is None && e == BlockBuilderError::UnsetModelForTileEntity
                    }
                },
            },
    {
        let TileEntityBlockBuilder { mesh, name, texture } = self;
        let name = match name {
            Some(n) => n,
            None => {
                return Err(BlockBuilderError::UnsetNameForTileEntity);
            },
        };
        let texture = match texture {
            Some(t) => t,
            None => {
                return Err(BlockBuilderError::UnsetTextureForTileEntity);
            },
        };
        let mesh = match mesh {
            Some(m) => m,
            None => {
                return Err(BlockBuilderError::UnsetModelForTileEntity);
            },
        };
        Ok(Block::TileEntity(TileEntityBlock { mesh, name, texture }))
    }
}

} // verus!
