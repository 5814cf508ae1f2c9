//! Chunk-world behaviour: insertion, border synchronization and edit
//! propagation between adjacent chunks.

use cubizm::AIR_BLOCK;
use cubizm::Block;
use cubizm::BlockAtlas;
use cubizm::BlockRegistry;
use cubizm::Chunk;
use cubizm::ChunkError;
use cubizm::ChunkFace;
use cubizm::Chunks;
use cubizm::IVec3;
use cubizm::Rect;
use cubizm::TextureAtlasLayout;
use cubizm::VoxelBlock;
use cubizm::VoxelVisibility;
use cubizm::linearize;

fn world_atlas() -> TextureAtlasLayout {
    let mut atlas = TextureAtlasLayout::new(64, 96);
    atlas.add_texture(7, Rect { min_x: 0, min_y: 0, max_x: 16, max_y: 96 });
    atlas
}

fn world_registry() -> (BlockRegistry, u32) {
    let mut reg = BlockRegistry::new();
    let dirt = reg.register(Block::Voxel(VoxelBlock {
        name: String::from("Dirt"),
        texture: Some(7),
        visibility: VoxelVisibility::Opaque,
    }));
    (reg, dirt)
}

fn solid_chunk(position: IVec3, id: u32) -> Chunk {
    Chunk::from_blocks(position, vec![id; 4096]).unwrap()
}

fn quad_count(positions_len: usize) -> usize {
    positions_len / 12
}

fn count_quads_with_normal(normals: &[i32], n: (i32, i32, i32)) -> usize {
    let mut count = 0;
    let mut k = 0;
    while 12 * k < normals.len() {
        if (normals[12 * k], normals[12 * k + 1], normals[12 * k + 2]) == n {
            count += 1;
        }
        k += 1;
    }
    count
}

#[test]
fn missing_chunk_is_a_recoverable_error() {
    let (reg, _dirt) = world_registry();
    let atlas = world_atlas();
    let mut world = Chunks::new();
    assert!(matches!(
        world.regenerate_chunk_at(IVec3::new(0, 0, 0), &atlas, &reg),
        Err(ChunkError::ChunkNotFound)
    ));
    assert!(matches!(
        world.set_block(IVec3::new(3, 3, 3), AIR_BLOCK, &reg, &atlas),
        Err(ChunkError::ChunkNotFound)
    ));
}

#[test]
fn insert_generates_a_mesh_with_void_borders() {
    let (reg, dirt) = world_registry();
    let atlas = world_atlas();
    let mut world = Chunks::new();
    let p = IVec3::new(0, 0, 0);
    world.insert_chunk(solid_chunk(p, dirt), p, &atlas, &reg).unwrap();
    let e = world.get(p).unwrap();
    assert_eq!(quad_count(e.mesh.positions.len()), 1536);
}

#[test]
fn insert_with_unresolved_chunk_fails() {
    let (reg, _dirt) = world_registry();
    let atlas = world_atlas();
    let mut world = Chunks::new();
    let p = IVec3::new(0, 0, 0);
    let r = world.insert_chunk(solid_chunk(p, 42), p, &atlas, &reg);
    assert!(matches!(r, Err(ChunkError::UnresolvedAsset)));
    assert!(world.get(p).is_none());
}

#[test]
fn duplicate_insertion_overwrites() {
    let (reg, dirt) = world_registry();
    let atlas = world_atlas();
    let mut world = Chunks::new();
    let p = IVec3::new(2, -1, 5);
    world.insert_chunk(solid_chunk(p, dirt), p, &atlas, &reg).unwrap();
    world.insert_chunk(solid_chunk(p, AIR_BLOCK), p, &atlas, &reg).unwrap();
    let e = world.get(p).unwrap();
    assert_eq!(e.chunk.blocks[linearize(8, 8, 8)], AIR_BLOCK);
    assert_eq!(e.mesh.positions.len(), 0);
}

#[test]
fn get_neighbour_uses_the_face_offsets() {
    let (reg, dirt) = world_registry();
    let atlas = world_atlas();
    let mut world = Chunks::new();
    let p = IVec3::new(0, 0, 0);
    let front = IVec3::new(0, 0, -1);
    let top = IVec3::new(0, 1, 0);
    world.insert_chunk(solid_chunk(p, dirt), p, &atlas, &reg).unwrap();
    world.insert_chunk(solid_chunk(front, dirt), front, &atlas, &reg).unwrap();
    world.insert_chunk(solid_chunk(top, dirt), top, &atlas, &reg).unwrap();
    assert!(world.get_neighbour(p, ChunkFace::Front).is_some());
    assert!(world.get_neighbour(p, ChunkFace::Top).is_some());
    assert!(world.get_neighbour(p, ChunkFace::Back).is_none());
    assert!(world.get_neighbour(p, ChunkFace::Left).is_none());
    assert_eq!(
        world.get_neighbour(p, ChunkFace::Front).unwrap().chunk.position,
        front
    );
}

#[test]
fn synchronized_chunks_mirror_their_boundaries() {
    let (reg, dirt) = world_registry();
    let atlas = world_atlas();
    let mut world = Chunks::new();
    let a = IVec3::new(0, 0, 0);
    let b = IVec3::new(1, 0, 0);
    world
        .insert_chunk_and_regenerate(solid_chunk(a, dirt), a, &atlas, &reg)
        .unwrap();
    world
        .insert_chunk_and_regenerate(solid_chunk(b, dirt), b, &atlas, &reg)
        .unwrap();
    let ea = world.get(a).unwrap();
    let eb = world.get(b).unwrap();
    for y in 0..18 {
        for z in 0..18 {
            // a's padding towards +x mirrors b's own boundary layer
            assert_eq!(
                ea.chunk.blocks[linearize(17, y, z)],
                eb.chunk.blocks[linearize(1, y, z)]
            );
            // and b's padding towards -x mirrors a's
            assert_eq!(
                eb.chunk.blocks[linearize(0, y, z)],
                ea.chunk.blocks[linearize(16, y, z)]
            );
        }
    }
}

#[test]
fn shared_boundary_of_two_solid_chunks_is_hidden() {
    let (reg, dirt) = world_registry();
    let atlas = world_atlas();
    let mut world = Chunks::new();
    let a = IVec3::new(0, 0, 0);
    let b = IVec3::new(1, 0, 0);
    world
        .insert_chunk_and_regenerate(solid_chunk(a, dirt), a, &atlas, &reg)
        .unwrap();
    world
        .insert_chunk_and_regenerate(solid_chunk(b, dirt), b, &atlas, &reg)
        .unwrap();
    let ea = world.get(a).unwrap();
    let eb = world.get(b).unwrap();
    // five outward faces stay fully meshed, the shared boundary shows
    // zero faces
    assert_eq!(quad_count(ea.mesh.positions.len()), 5 * 256);
    assert_eq!(quad_count(eb.mesh.positions.len()), 5 * 256);
    assert_eq!(count_quads_with_normal(&ea.mesh.normals, (1, 0, 0)), 0);
    assert_eq!(count_quads_with_normal(&eb.mesh.normals, (-1, 0, 0)), 0);
    assert_eq!(count_quads_with_normal(&ea.mesh.normals, (-1, 0, 0)), 256);
    assert_eq!(count_quads_with_normal(&ea.mesh.normals, (0, 1, 0)), 256);
    assert_eq!(count_quads_with_normal(&eb.mesh.normals, (0, 0, -1)), 256);
}

#[test]
fn inner_edit_leaves_the_neighbour_untouched() {
    let (reg, dirt) = world_registry();
    let atlas = world_atlas();
    let mut world = Chunks::new();
    let a = IVec3::new(0, 0, 0);
    let b = IVec3::new(1, 0, 0);
    world
        .insert_chunk_and_regenerate(solid_chunk(a, dirt), a, &atlas, &reg)
        .unwrap();
    world
        .insert_chunk_and_regenerate(solid_chunk(b, dirt), b, &atlas, &reg)
        .unwrap();
    let before = world.get(b).unwrap();
    let blocks_before = before.chunk.blocks.clone();
    let mesh_before = before.mesh.positions.clone();
    let normals_before = before.mesh.normals.clone();

    // carve a hole strictly inside a's interior
    world
        .set_block(IVec3::new(5, 5, 5), AIR_BLOCK, &reg, &atlas)
        .unwrap();

    let after = world.get(b).unwrap();
    assert_eq!(after.chunk.blocks, blocks_before);
    assert_eq!(after.mesh.positions, mesh_before);
    assert_eq!(after.mesh.normals, normals_before);
    // while a itself gained the six faces the hole uncovered
    let ea = world.get(a).unwrap();
    assert_eq!(ea.chunk.blocks[linearize(6, 6, 6)], AIR_BLOCK);
    assert_eq!(quad_count(ea.mesh.positions.len()), 5 * 256 + 6);
}

#[test]
fn boundary_edit_propagates_to_the_neighbour() {
    let (reg, dirt) = world_registry();
    let atlas = world_atlas();
    let mut world = Chunks::new();
    let a = IVec3::new(0, 0, 0);
    let b = IVec3::new(1, 0, 0);
    world
        .insert_chunk_and_regenerate(solid_chunk(a, dirt), a, &atlas, &reg)
        .unwrap();
    world
        .insert_chunk_and_regenerate(solid_chunk(b, dirt), b, &atlas, &reg)
        .unwrap();

    // carve out a boundary voxel of a, adjacent to b
    world
        .set_block(IVec3::new(15, 3, 4), AIR_BLOCK, &reg, &atlas)
        .unwrap();

    // b's padding now holds the new void
    let eb = world.get(b).unwrap();
    assert_eq!(eb.chunk.blocks[linearize(0, 4, 5)], AIR_BLOCK);
    // and b's regenerated mesh shows exactly the one face the void
    // uncovered on the shared boundary
    assert_eq!(count_quads_with_normal(&eb.mesh.normals, (-1, 0, 0)), 1);
    assert_eq!(quad_count(eb.mesh.positions.len()), 5 * 256 + 1);
}

#[test]
fn set_block_floor_divides_negative_positions() {
    let (reg, dirt) = world_registry();
    let atlas = world_atlas();
    let mut world = Chunks::new();
    let p = IVec3::new(-1, 0, 0);
    world
        .insert_chunk_and_regenerate(solid_chunk(p, dirt), p, &atlas, &reg)
        .unwrap();
    // world voxel (-1, 2, 3) lies in chunk (-1, 0, 0) at local
    // offset (15, 2, 3)
    world
        .set_block(IVec3::new(-1, 2, 3), AIR_BLOCK, &reg, &atlas)
        .unwrap();
    let e = world.get(p).unwrap();
    assert_eq!(e.chunk.blocks[linearize(16, 3, 4)], AIR_BLOCK);
}

#[test]
fn block_atlas_hands_out_its_parts() {
    let layout = world_atlas();
    let atlas = BlockAtlas::new(5, layout);
    assert_eq!(atlas.clone_image(), 5);
    assert_eq!(atlas.get_texture_atlas_layout().size(), (64, 96));
    assert_eq!(atlas.get_texture_atlas_layout().get_texture_index(7), Some(0));
}

#[test]
fn block_registry_resolves_references() {
    let (reg, dirt) = world_registry();
    assert_eq!(reg.len(), 2);
    assert!(reg.get(AIR_BLOCK).is_some());
    assert_eq!(
        reg.get(AIR_BLOCK).unwrap().get_voxel_visibility(),
        VoxelVisibility::Empty
    );
    assert_eq!(reg.get(dirt).unwrap().voxel_texture(), Some(7));
    assert!(reg.get(99).is_none());
}
