//! Mesh-generation behaviour: visibility, quad layout, texture
//! coordinates, and record validation.

use cubizm::AIR_BLOCK;
use cubizm::Block;
use cubizm::BlockBuilderError;
use cubizm::BlockRegistry;
use cubizm::Chunk;
use cubizm::ChunkError;
use cubizm::ChunkFace;
use cubizm::IVec3;
use cubizm::Opposite;
use cubizm::Rect;
use cubizm::TextureAtlasLayout;
use cubizm::TileEntityBlock;
use cubizm::TileEntityBlockBuilder;
use cubizm::VoxelBlock;
use cubizm::VoxelBlockBuilder;
use cubizm::VoxelVisibility;
use cubizm::delinearize;
use cubizm::linearize;

fn dirt_block() -> Block {
    Block::Voxel(VoxelBlock {
        name: String::from("Dirt"),
        texture: Some(7),
        visibility: VoxelVisibility::Opaque,
    })
}

fn test_atlas() -> TextureAtlasLayout {
    let mut atlas = TextureAtlasLayout::new(64, 96);
    atlas.add_texture(7, Rect { min_x: 4, min_y: 6, max_x: 10, max_y: 30 });
    atlas
}

fn interior_only(fill: u32) -> Vec<u32> {
    vec![fill; 4096]
}

fn local_slot(x: usize, y: usize, z: usize) -> usize {
    x + 16 * y + 256 * z
}

#[test]
fn round_trip_of_grid_coordinates() {
    for &(x, y, z) in &[(0, 0, 0), (17, 17, 17), (1, 16, 9), (5, 0, 17)] {
        let i = linearize(x, y, z);
        assert_eq!(delinearize(i), (x, y, z));
    }
    assert_eq!(linearize(17, 17, 17), 5831);
    assert_eq!(linearize(1, 0, 0), 1);
    assert_eq!(linearize(0, 1, 0), 18);
    assert_eq!(linearize(0, 0, 1), 324);
}

#[test]
fn opposite_is_involutive() {
    let faces = [
        ChunkFace::Front,
        ChunkFace::Back,
        ChunkFace::Top,
        ChunkFace::Bottom,
        ChunkFace::Left,
        ChunkFace::Right,
    ];
    for f in faces {
        assert_eq!(f.opposite().opposite(), f);
    }
    assert_eq!(ChunkFace::Front.opposite(), ChunkFace::Back);
    assert_eq!(ChunkFace::Top.opposite(), ChunkFace::Bottom);
    assert_eq!(ChunkFace::Left.opposite(), ChunkFace::Right);
}

#[test]
fn face_index_tables_walk_the_layers() {
    let own = Chunk::get_own_face_indicies(ChunkFace::Front);
    assert_eq!(own.len(), 324);
    assert_eq!(own[0], linearize(0, 0, 1) as u32);
    assert_eq!(own[1], linearize(0, 1, 1) as u32);
    assert_eq!(own[18], linearize(1, 0, 1) as u32);
    assert_eq!(own[323], linearize(17, 17, 1) as u32);

    let other = Chunk::get_other_face_indicies(ChunkFace::Front);
    assert_eq!(other[0], linearize(0, 0, 0) as u32);
    assert_eq!(other[323], linearize(17, 17, 0) as u32);

    let top_own = Chunk::get_own_face_indicies(ChunkFace::Top);
    assert_eq!(top_own[0], linearize(0, 16, 0) as u32);
    assert_eq!(top_own[1], linearize(0, 16, 1) as u32);
    let right_other = Chunk::get_other_face_indicies(ChunkFace::Right);
    assert_eq!(right_other[0], linearize(17, 0, 0) as u32);
}

#[test]
fn malformed_record_is_rejected() {
    let mut reg = BlockRegistry::new();
    let _dirt = reg.register(dirt_block());
    assert!(matches!(
        Chunk::from_blocks(IVec3::new(0, 0, 0), vec![AIR_BLOCK; 100]),
        Err(ChunkError::MalformedRecord)
    ));
    assert!(matches!(
        Chunk::from_blocks(IVec3::new(0, 0, 0), vec![AIR_BLOCK; 4095]),
        Err(ChunkError::MalformedRecord)
    ));
    assert!(Chunk::from_blocks(IVec3::new(0, 0, 0), vec![AIR_BLOCK; 4096]).is_ok());
    assert!(Chunk::from_blocks(IVec3::new(0, 0, 0), vec![AIR_BLOCK; 5832]).is_ok());
}

#[test]
fn interior_record_is_padded_with_air() {
    let mut reg = BlockRegistry::new();
    let dirt = reg.register(dirt_block());
    let mut v = interior_only(AIR_BLOCK);
    v[local_slot(0, 0, 0)] = dirt;
    v[local_slot(15, 15, 15)] = dirt;
    let chunk = Chunk::from_blocks(IVec3::new(0, 0, 0), v).unwrap();
    assert_eq!(chunk.blocks.len(), 5832);
    assert_eq!(chunk.blocks[linearize(1, 1, 1)], dirt);
    assert_eq!(chunk.blocks[linearize(16, 16, 16)], dirt);
    assert_eq!(chunk.blocks[linearize(0, 0, 0)], AIR_BLOCK);
    assert_eq!(chunk.blocks[linearize(17, 8, 8)], AIR_BLOCK);
}

#[test]
fn void_chunk_has_no_quads() {
    let reg = BlockRegistry::new();
    let atlas = test_atlas();
    let chunk = Chunk::from_blocks(IVec3::new(0, 0, 0), interior_only(AIR_BLOCK)).unwrap();
    let g = chunk.gen_geometry(&atlas, &reg).unwrap();
    assert_eq!(g.positions.len(), 0);
    assert_eq!(g.normals.len(), 0);
    assert_eq!(g.uvs.len(), 0);
    assert_eq!(g.indices.len(), 0);
}

#[test]
fn opaque_chunk_shows_exactly_the_shell() {
    let mut reg = BlockRegistry::new();
    let dirt = reg.register(dirt_block());
    let atlas = test_atlas();
    let chunk = Chunk::from_blocks(IVec3::new(0, 0, 0), interior_only(dirt)).unwrap();
    let g = chunk.gen_geometry(&atlas, &reg).unwrap();
    // 16 * 16 quads per face, 6 faces, no interior faces
    assert_eq!(g.positions.len(), 1536 * 12);
    assert_eq!(g.normals.len(), 1536 * 12);
    assert_eq!(g.uvs.len(), 1536 * 8);
    assert_eq!(g.indices.len(), 1536 * 6);
}

#[test]
fn adjacent_opaque_voxels_share_no_face() {
    let mut reg = BlockRegistry::new();
    let dirt = reg.register(dirt_block());
    let atlas = test_atlas();
    let mut v = interior_only(AIR_BLOCK);
    v[local_slot(0, 0, 0)] = dirt;
    v[local_slot(1, 0, 0)] = dirt;
    let chunk = Chunk::from_blocks(IVec3::new(0, 0, 0), v).unwrap();
    let g = chunk.gen_geometry(&atlas, &reg).unwrap();
    // two cubes, minus the two hidden faces in between
    assert_eq!(g.positions.len(), 10 * 12);
}

#[test]
fn single_voxel_quads_are_exact() {
    let mut reg = BlockRegistry::new();
    let dirt = reg.register(dirt_block());
    let atlas = test_atlas();
    let mut v = interior_only(AIR_BLOCK);
    v[local_slot(0, 0, 0)] = dirt;
    let chunk = Chunk::from_blocks(IVec3::new(0, 0, 0), v).unwrap();
    let g = chunk.gen_geometry(&atlas, &reg).unwrap();

    // one quad per face of the voxel at grid cell (1, 1, 1), grouped
    // in the order -X, -Y, -Z, +X, +Y, +Z
    assert_eq!(
        g.positions,
        vec![
            1, 1, 1, 1, 1, 2, 1, 2, 1, 1, 2, 2, // left
            1, 1, 1, 1, 1, 2, 2, 1, 1, 2, 1, 2, // bottom
            1, 1, 1, 2, 1, 1, 1, 2, 1, 2, 2, 1, // front
            2, 1, 1, 2, 1, 2, 2, 2, 1, 2, 2, 2, // right
            1, 2, 1, 1, 2, 2, 2, 2, 1, 2, 2, 2, // top
            1, 1, 2, 2, 1, 2, 1, 2, 2, 2, 2, 2, // back
        ]
    );
    assert_eq!(
        g.normals,
        vec![
            -1, 0, 0, -1, 0, 0, -1, 0, 0, -1, 0, 0, //
            0, -1, 0, 0, -1, 0, 0, -1, 0, 0, -1, 0, //
            0, 0, -1, 0, 0, -1, 0, 0, -1, 0, 0, -1, //
            1, 0, 0, 1, 0, 0, 1, 0, 0, 1, 0, 0, //
            0, 1, 0, 0, 1, 0, 0, 1, 0, 0, 1, 0, //
            0, 0, 1, 0, 0, 1, 0, 0, 1, 0, 0, 1,
        ]
    );
    assert_eq!(
        g.indices,
        vec![
            0, 1, 2, 1, 3, 2, // counter-clockwise
            4, 6, 5, 5, 6, 7, // clockwise
            8, 10, 9, 9, 10, 11, //
            12, 14, 13, 13, 14, 15, //
            16, 17, 18, 17, 19, 18, //
            20, 21, 22, 21, 23, 22,
        ]
    );
    // rectangle (4, 6)-(10, 30) in a 64 x 96 atlas: width 6, height
    // 24; the face number picks one sixth of the rectangle
    assert_eq!(
        g.uvs,
        vec![
            10, 132, 4, 132, 10, 108, 4, 108, // left, sixth no. 4
            10, 156, 4, 156, 10, 132, 4, 132, // bottom, no. 5
            10, 180, 4, 180, 10, 156, 4, 156, // front, no. 6
            10, 60, 4, 60, 10, 36, 4, 36, // right, no. 1
            10, 84, 4, 84, 10, 60, 4, 60, // top, no. 2
            10, 108, 4, 108, 10, 84, 4, 84, // back, no. 3
        ]
    );
    assert_eq!(g.uv_denom_u, 64);
    assert_eq!(g.uv_denom_v, 576);
}

#[test]
fn translucent_voxel_blocks_no_face() {
    let mut reg = BlockRegistry::new();
    let dirt = reg.register(dirt_block());
    let glass = reg.register(Block::Voxel(VoxelBlock {
        name: String::from("Glass"),
        texture: Some(7),
        visibility: VoxelVisibility::Translucent,
    }));
    let atlas = test_atlas();
    let mut v = interior_only(AIR_BLOCK);
    v[local_slot(4, 4, 4)] = dirt;
    v[local_slot(5, 4, 4)] = glass;
    let chunk = Chunk::from_blocks(IVec3::new(0, 0, 0), v).unwrap();
    let g = chunk.gen_geometry(&atlas, &reg).unwrap();
    // a face is visible only towards an empty neighbour: the dirt
    // face against the glass is hidden, and so is the glass face
    // against the dirt: 5 + 5 quads
    assert_eq!(g.positions.len(), 10 * 12);
}

#[test]
fn unregistered_reference_is_unresolved() {
    let reg = BlockRegistry::new();
    let atlas = test_atlas();
    let chunk = Chunk::from_blocks(IVec3::new(0, 0, 0), interior_only(99)).unwrap();
    assert!(matches!(chunk.gen_geometry(&atlas, &reg), Err(ChunkError::UnresolvedAsset)));
}

#[test]
fn visible_face_without_texture_is_unresolved() {
    let mut reg = BlockRegistry::new();
    let bare = reg.register(Block::Voxel(VoxelBlock {
        name: String::from("Bare"),
        texture: None,
        visibility: VoxelVisibility::Opaque,
    }));
    let atlas = test_atlas();
    let mut v = interior_only(AIR_BLOCK);
    v[local_slot(3, 3, 3)] = bare;
    let chunk = Chunk::from_blocks(IVec3::new(0, 0, 0), v).unwrap();
    assert!(matches!(chunk.gen_geometry(&atlas, &reg), Err(ChunkError::UnresolvedAsset)));
}

#[test]
fn texture_missing_from_atlas_is_unresolved() {
    let mut reg = BlockRegistry::new();
    let dirt = reg.register(dirt_block());
    let atlas = TextureAtlasLayout::new(64, 96);
    let mut v = interior_only(AIR_BLOCK);
    v[local_slot(3, 3, 3)] = dirt;
    let chunk = Chunk::from_blocks(IVec3::new(0, 0, 0), v).unwrap();
    assert!(matches!(chunk.gen_geometry(&atlas, &reg), Err(ChunkError::UnresolvedAsset)));
}

#[test]
fn tile_entity_is_excluded_from_chunk_geometry() {
    let mut reg = BlockRegistry::new();
    let stand = reg.register(Block::TileEntity(TileEntityBlock {
        mesh: 11,
        name: String::from("Stand"),
        texture: 7,
    }));
    let atlas = test_atlas();
    let mut v = interior_only(AIR_BLOCK);
    v[local_slot(2, 2, 2)] = stand;
    let chunk = Chunk::from_blocks(IVec3::new(0, 0, 0), v).unwrap();
    let g = chunk.gen_geometry(&atlas, &reg).unwrap();
    assert_eq!(g.positions.len(), 0);
}

#[test]
fn mesh_regeneration_is_idempotent() {
    let mut reg = BlockRegistry::new();
    let dirt = reg.register(dirt_block());
    let atlas = test_atlas();
    let mut v = interior_only(AIR_BLOCK);
    v[local_slot(7, 3, 9)] = dirt;
    let chunk = Chunk::from_blocks(IVec3::new(0, 0, 0), v).unwrap();
    let g1 = chunk.gen_geometry(&atlas, &reg).unwrap();
    let g2 = chunk.gen_geometry(&atlas, &reg).unwrap();
    assert_eq!(g1.positions, g2.positions);
    assert_eq!(g1.normals, g2.normals);
    assert_eq!(g1.uvs, g2.uvs);
    assert_eq!(g1.indices, g2.indices);
}

#[test]
fn block_accessors_follow_the_variant() {
    let dirt = dirt_block();
    assert!(dirt.is_voxel());
    assert_eq!(dirt.voxel_texture(), Some(7));
    assert_eq!(dirt.tile_entity_texture(), None);
    assert_eq!(dirt.tile_entity_mesh(), None);
    assert_eq!(dirt.get_voxel_visibility(), VoxelVisibility::Opaque);
    assert_eq!(dirt.get_name().as_str(), "Dirt");

    let stand = Block::TileEntity(TileEntityBlock {
        mesh: 11,
        name: String::from("Stand"),
        texture: 9,
    });
    assert!(!stand.is_voxel());
    assert_eq!(stand.voxel_texture(), None);
    assert_eq!(stand.tile_entity_texture(), Some(9));
    assert_eq!(stand.tile_entity_mesh(), Some(11));
    assert_eq!(stand.get_mesh(), Some(11));
    assert_eq!(stand.get_voxel_visibility(), VoxelVisibility::Empty);

    let air = Block::default();
    assert!(air.is_voxel());
    assert_eq!(air.get_name().as_str(), "Air");
    assert_eq!(air.get_voxel_visibility(), VoxelVisibility::Empty);
}

#[test]
fn voxel_builder_validates_its_fields() {
    let b = VoxelBlockBuilder::new();
    assert!(matches!(b.finish(), Err(BlockBuilderError::UnsetNameForVoxel)));

    let mut b = VoxelBlockBuilder::new();
    b.name(String::from("Dirt"));
    assert!(matches!(b.finish(), Err(BlockBuilderError::UnsetVisbility)));

    let mut b = VoxelBlockBuilder::new();
    b.name(String::from("Dirt"));
    b.texture(7);
    assert!(matches!(
        b.visibility(VoxelVisibility::Empty),
        Err(BlockBuilderError::UnsetTextureForVoxel)
    ));

    let mut b = VoxelBlockBuilder::new();
    b.name(String::from("Dirt"));
    b.texture(7);
    b.visibility(VoxelVisibility::Opaque).unwrap();
    let block = b.finish().unwrap();
    assert!(block.is_voxel());
    assert_eq!(block.voxel_texture(), Some(7));
    assert_eq!(block.get_voxel_visibility(), VoxelVisibility::Opaque);
}

#[test]
fn tile_entity_builder_validates_its_fields() {
    let b = TileEntityBlockBuilder::new();
    assert!(matches!(b.finish(), Err(BlockBuilderError::UnsetNameForTileEntity)));

    let mut b = TileEntityBlockBuilder::new();
    b.name(String::from("Stand"));
    assert!(matches!(b.finish(), Err(BlockBuilderError::UnsetTextureForTileEntity)));

    let mut b = TileEntityBlockBuilder::new();
    b.name(String::from("Stand"));
    b.texture(9);
    assert!(matches!(b.finish(), Err(BlockBuilderError::UnsetModelForTileEntity)));

    let mut b = TileEntityBlockBuilder::new();
    b.name(String::from("Stand"));
    b.texture(9);
    b.mesh(11);
    let block = b.finish().unwrap();
    assert_eq!(block.tile_entity_mesh(), Some(11));
    assert_eq!(block.tile_entity_texture(), Some(9));
}

#[test]
fn atlas_lookup_returns_the_first_match() {
    let mut atlas = TextureAtlasLayout::new(32, 32);
    let i0 = atlas.add_texture(7, Rect { min_x: 0, min_y: 0, max_x: 8, max_y: 8 });
    let i1 = atlas.add_texture(9, Rect { min_x: 8, min_y: 0, max_x: 16, max_y: 8 });
    let i2 = atlas.add_texture(7, Rect { min_x: 16, min_y: 0, max_x: 24, max_y: 8 });
    assert_eq!((i0, i1, i2), (0, 1, 2));
    assert_eq!(atlas.get_texture_index(7), Some(0));
    assert_eq!(atlas.get_texture_index(9), Some(1));
    assert_eq!(atlas.get_texture_index(5), None);
    let r = atlas.rect_at(1);
    assert_eq!((r.min_x, r.min_y, r.max_x, r.max_y), (8, 0, 16, 8));
    assert_eq!(atlas.size(), (32, 32));
}
