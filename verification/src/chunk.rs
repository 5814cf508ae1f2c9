//! The chunk: a padded voxel grid at a lattice position.
//!
//! A chunk owns a flat array of `PADDED_VOLUME` block references under
//! the linearization of [`crate::grid`]: a 16-voxel-edge authoritative
//! interior (coordinates 1 through 16 on each axis) wrapped in a
//! one-voxel ghost shell. The shell mirrors the adjoining neighbours'
//! boundary layers — or holds air where no neighbour exists — so the
//! mesh generator can test face visibility without edge cases.

use vstd::prelude::*;

use crate::ChunkError;
use crate::IVec3;
use crate::block::AIR_BLOCK;
use crate::face::ChunkFace;
use crate::face::Opposite;
use crate::face::in_pad_layer;
use crate::face::layer_slot;
use crate::face::mirror_coord;
use crate::face::own_layer_coord;
use crate::face::other_layer_coord;
use crate::grid::PADDED_VOLUME;
use crate::grid::coord_of;
use crate::grid::in_grid;
use crate::grid::lin;
use crate::grid::linearize;
use vstd::arithmetic::div_mod::lemma_div_denominator;
use vstd::arithmetic::div_mod::lemma_fundamental_div_mod;

verus! {

/// Number of voxels in the authoritative interior of a chunk.
pub const INTERIOR_VOLUME: usize = 4096;

/// Number of slots in one boundary layer: a full 18 by 18 slice of
/// the padded grid.
pub const LAYER_AREA: usize = 324;

/// Specification view of a [`Chunk`]: its block references and its
/// lattice position.
pub struct ChunkView {
    pub blocks: Seq<u32>,
    pub position: IVec3,
}

/// Grid coordinate of slot `j` of the interior, walked in flat-index
/// order: x varies fastest, then y, then z.
pub open spec fn interior_coord(j: int) -> (int, int, int) {
    (1 + j % 16, 1 + (j / 16) % 16, 1 + j / 256)
}

/// A fixed-size cuboid of voxels: the unit of storage and meshing.
#[derive(Debug)]
pub struct Chunk {
    /// Block references of the padded grid, `PADDED_VOLUME` of them,
    /// resolved by a [`crate::BlockRegistry`].
    pub blocks: Vec<u32>,
    /// Lattice position, in units of one 16-voxel chunk edge.
    pub position: IVec3,
}

impl View for Chunk {
    type V = ChunkView;

    open spec fn view(&self) -> ChunkView {
        ChunkView { blocks: self.blocks@, position: self.position }
    }
}

impl Clone for Chunk {
    /// Clones the chunk; the copy holds the same grid and position.
    fn clone(&self) -> (r: Chunk)
        ensures
            r@ == self@,
    {
        let mut blocks: Vec<u32> = Vec::new();
        let n = self.blocks.len();
        for i in 0..n
            invariant
                n == self.blocks@.len(),
                blocks@ == self.blocks@.take(i as int),
        {
            blocks.push(self.blocks[i]);
            proof {
                assert(blocks@ =~= self.blocks@.take(i + 1));
            }
        }
        proof {
            assert(blocks@ =~= self.blocks@);
        }
        Chunk { blocks, position: self.position }
    }
}

impl Chunk {
    /// Whether the grid has exactly the padded volume.
    pub open spec fn wf(&self) -> bool {
        self.blocks@.len() == PADDED_VOLUME
    }

    /// A chunk from a record's block references.
    ///
    /// A record either carries the full padded volume, taken as the
    /// grid as it stands, or the interior volume alone, in interior
    /// flat-index order, wrapped in an air ghost shell. Any other
    /// count is a malformed record and is rejected before it reaches
    /// a grid.
    pub fn from_blocks(position: IVec3, blocks: Vec<u32>) -> (r: Result<Chunk, ChunkError>)
        ensures
            match r {
                Ok(c) => {
                    &&& c.wf()
                    &&& c.position == position
                    &&& blocks@.len() == PADDED_VOLUME || blocks@.len() == INTERIOR_VOLUME
                    &&& blocks@.len() == PADDED_VOLUME ==> c.blocks@ == blocks@
                    &&& blocks@.len() == INTERIOR_VOLUME ==> {
                        &&& forall|j: int|
                            0 <= j < INTERIOR_VOLUME ==> c.blocks@[#[trigger] interior_lin(j)]
                                == blocks@[j]
                        &&& forall|i: int|
                            0 <= i < PADDED_VOLUME && !is_interior_index(i) ==> c.blocks@[i]
                                == AIR_BLOCK
                    }
                },
                Err(e) => {
                    &&& e == ChunkError::MalformedRecord
                    &&& blocks@.len() != PADDED_VOLUME && blocks@.len() != INTERIOR_VOLUME
                },
            },
    {
        if blocks.len() == PADDED_VOLUME {
            Ok(Chunk { blocks, position })
        } else if blocks.len() == INTERIOR_VOLUME {
            let mut grid: Vec<u32> = Vec::new();
            for i in 0..PADDED_VOLUME
                invariant
                    grid@.len() == i,
                    forall|k: int| 0 <= k < i ==> grid@[k] == AIR_BLOCK,
            {
                grid.push(AIR_BLOCK);
            }
            for j in 0..INTERIOR_VOLUME
                invariant
                    blocks@.len() == INTERIOR_VOLUME,
                    grid@.len() == PADDED_VOLUME,
                    forall|k: int|
                        0 <= k < j ==> grid@[#[trigger] interior_lin(k)] == blocks@[k],
                    forall|i: int|
                        0 <= i < PADDED_VOLUME && !is_interior_index(i) ==> grid@[i] == AIR_BLOCK,
            {
                let x: usize = 1 + j % 16;
                let y: usize = 1 + (j / 16) % 16;
                let z: usize = 1 + j / 256;
                let i = linearize(x, y, z);
                proof {
                    lemma_interior_lin_is_interior(j as int);
                }
                grid[i] = blocks[j];
                proof {
                    assert forall|k: int| 0 <= k < j + 1 implies grid@[#[trigger] interior_lin(k)]
                        == blocks@[k] by {
                        if k < j {
                            lemma_interior_lin_injective(k, j as int);
                        }
                    }
                }
            }
            Ok(Chunk { blocks: grid, position })
        } else {
            Err(ChunkError::MalformedRecord)
        }
    }

    /// Flat indices of the own boundary layer towards `face`: the
    /// outermost interior slice, in layer-slot order.
    pub fn get_own_face_indicies(face: ChunkFace) -> (r: Vec<u32>)
        ensures
            r@.len() == LAYER_AREA,
            forall|k: int|
                0 <= k < LAYER_AREA ==> #[trigger] r@[k] == own_index(face, k),
    {
        let mut r: Vec<u32> = Vec::new();
        for k in 0..LAYER_AREA
            invariant
                r@.len() == k,
                forall|k2: int| 0 <= k2 < k ==> #[trigger] r@[k2] == own_index(face, k2),
        {
            let a: usize = k / 18;
            let b: usize = k % 18;
            let (x, y, z): (usize, usize, usize) = match face {
                ChunkFace::Front => (a, b, 1),
                ChunkFace::Back => (a, b, 16),
                ChunkFace::Top => (a, 16, b),
                ChunkFace::Bottom => (a, 1, b),
                ChunkFace::Right => (16, a, b),
                ChunkFace::Left => (1, a, b),
            };
            r.push(linearize(x, y, z) as u32);
        }
        r
    }

    /// Flat indices of the padding layer towards `face`: the ghost
    /// slice just outside the own boundary layer, in layer-slot order.
    pub fn get_other_face_indicies(face: ChunkFace) -> (r: Vec<u32>)
        ensures
            r@.len() == LAYER_AREA,
            forall|k: int|
                0 <= k < LAYER_AREA ==> #[trigger] r@[k] == other_index(face, k),
    {
        let mut r: Vec<u32> = Vec::new();
        for k in 0..LAYER_AREA
            invariant
                r@.len() == k,
                forall|k2: int| 0 <= k2 < k ==> #[trigger] r@[k2] == other_index(face, k2),
        {
            let a: usize = k / 18;
            let b: usize = k % 18;
            let (x, y, z): (usize, usize, usize) = match face {
                ChunkFace::Front => (a, b, 0),
                ChunkFace::Back => (a, b, 17),
                ChunkFace::Top => (a, 17, b),
                ChunkFace::Bottom => (a, 0, b),
                ChunkFace::Right => (17, a, b),
                ChunkFace::Left => (0, a, b),
            };
            r.push(linearize(x, y, z) as u32);
        }
        r
    }
}

/// Flat index of slot `j` of the interior, in interior flat-index
/// order.
pub open spec fn interior_lin(j: int) -> int {
    lin(interior_coord(j).0, interior_coord(j).1, interior_coord(j).2)
}

/// Whether flat index `i` names an interior cell: every coordinate
/// between 1 and 16.
pub open spec fn is_interior_index(i: int) -> bool {
    let x = i % 18;
    let y = (i / 18) % 18;
    let z = i / 324;
    1 <= x <= 16 && 1 <= y <= 16 && 1 <= z <= 16
}

/// Flat index of slot `k` of the own boundary layer towards `face`.
pub open spec fn own_index(face: ChunkFace, k: int) -> int {
    let (x, y, z) = own_layer_coord(face, k);
    lin(x, y, z)
}

/// Flat index of slot `k` of the padding layer towards `face`.
pub open spec fn other_index(face: ChunkFace, k: int) -> int {
    let (x, y, z) = other_layer_coord(face, k);
    lin(x, y, z)
}

/// Interior slots have interior flat indices.
pub proof fn lemma_interior_lin_is_interior(j: int)
    requires
        0 <= j < INTERIOR_VOLUME,
    ensures
        0 <= interior_lin(j) < PADDED_VOLUME,
        is_interior_index(interior_lin(j)),
{
    let (x, y, z) = interior_coord(j);
    crate::grid::lemma_lin_round_trip(x, y, z);
}

/// Facts about the two boundary layers of a face, slot by slot: both
/// coordinates lie in the grid, the padding slot lies in the face's
/// padding layer while the own slot does not, the slot number is
/// recovered from the padding coordinate, and the padding slot mirrors
/// the own slot of the opposite face inside the neighbour.
pub proof fn lemma_layer_coords(f: ChunkFace, k: int)
    requires
        0 <= k < LAYER_AREA,
    ensures
        in_grid(own_layer_coord(f, k).0, own_layer_coord(f, k).1, own_layer_coord(f, k).2),
        in_grid(other_layer_coord(f, k).0, other_layer_coord(f, k).1, other_layer_coord(f, k).2),
        0 <= own_index(f, k) < PADDED_VOLUME,
        0 <= other_index(f, k) < PADDED_VOLUME,
        coord_of(own_index(f, k)) == own_layer_coord(f, k),
        coord_of(other_index(f, k)) == other_layer_coord(f, k),
        in_pad_layer(
            f,
            other_layer_coord(f, k).0,
            other_layer_coord(f, k).1,
            other_layer_coord(f, k).2,
        ),
        !in_pad_layer(f, own_layer_coord(f, k).0, own_layer_coord(f, k).1, own_layer_coord(f, k).2),
        layer_slot(f, other_layer_coord(f, k).0, other_layer_coord(f, k).1, other_layer_coord(f, k).2)
            == k,
        lin(
            mirror_coord(f, other_layer_coord(f, k).0, other_layer_coord(f, k).1, other_layer_coord(f, k).2).0,
            mirror_coord(f, other_layer_coord(f, k).0, other_layer_coord(f, k).1, other_layer_coord(f, k).2).1,
            mirror_coord(f, other_layer_coord(f, k).0, other_layer_coord(f, k).1, other_layer_coord(f, k).2).2,
        ) == own_index(f.spec_opposite(), k),
{
    lemma_fundamental_div_mod(k, 18);
    let a = k / 18;
    let b = k % 18;
    let (ox, oy, oz) = own_layer_coord(f, k);
    crate::grid::lemma_lin_round_trip(ox, oy, oz);
    let (px, py, pz) = other_layer_coord(f, k);
    crate::grid::lemma_lin_round_trip(px, py, pz);
}

/// A padding-layer cell is the padding slot of its layer-slot number.
pub proof fn lemma_pad_cell_slot(f: ChunkFace, i: int)
    requires
        0 <= i < PADDED_VOLUME,
        in_pad_layer(f, coord_of(i).0, coord_of(i).1, coord_of(i).2),
    ensures
        0 <= layer_slot(f, coord_of(i).0, coord_of(i).1, coord_of(i).2) < LAYER_AREA,
        other_index(f, layer_slot(f, coord_of(i).0, coord_of(i).1, coord_of(i).2)) == i,
{
    let (x, y, z) = coord_of(i);
    crate::grid::lemma_coord_of_lin_inverse(i);
    let k = layer_slot(f, x, y, z);
    lemma_fundamental_div_mod(k, 18);
    crate::grid::lemma_lin_round_trip(x, y, z);
}

/// Copies one boundary layer between two grids: for every layer slot,
/// the cell of `dst`'s padding layer towards `dst_face` receives the
/// cell of `src`'s own boundary layer towards `src_face`. No other
/// cell of `dst` changes.
pub(crate) fn copy_layer(dst: &mut Vec<u32>, dst_face: ChunkFace, src: &Vec<u32>, src_face: ChunkFace)
    requires
        old(dst)@.len() == PADDED_VOLUME,
        src@.len() == PADDED_VOLUME,
    ensures
        final(dst)@.len() == PADDED_VOLUME,
        forall|k: int|
            0 <= k < LAYER_AREA ==> final(dst)@[#[trigger] other_index(dst_face, k)] == src@[own_index(
                src_face,
                k,
            )],
        forall|i: int|
            0 <= i < PADDED_VOLUME && !in_pad_layer(
                dst_face,
                coord_of(i).0,
                coord_of(i).1,
                coord_of(i).2,
            ) ==> final(dst)@[i] == old(dst)@[i],
{
    let ghost dst0 = dst@;
    let own_idx = Chunk::get_own_face_indicies(src_face);
    let other_idx = Chunk::get_other_face_indicies(dst_face);
    for k in 0..LAYER_AREA
        invariant
            dst@.len() == PADDED_VOLUME,
            src@.len() == PADDED_VOLUME,
            own_idx@.len() == LAYER_AREA,
            other_idx@.len() == LAYER_AREA,
            forall|k2: int|
                0 <= k2 < LAYER_AREA ==> #[trigger] own_idx@[k2] == own_index(src_face, k2),
            forall|k2: int|
                0 <= k2 < LAYER_AREA ==> #[trigger] other_idx@[k2] == other_index(dst_face, k2),
            forall|k2: int|
                0 <= k2 < k ==> dst@[#[trigger] other_index(dst_face, k2)] == src@[own_index(
                    src_face,
                    k2,
                )],
            forall|i: int|
                0 <= i < PADDED_VOLUME && !(in_pad_layer(
                    dst_face,
                    coord_of(i).0,
                    coord_of(i).1,
                    coord_of(i).2,
                ) && layer_slot(dst_face, coord_of(i).0, coord_of(i).1, coord_of(i).2) < k)
                    ==> dst@[i] == dst0[i],
    {
        proof {
            lemma_layer_coords(dst_face, k as int);
            lemma_layer_coords(src_face, k as int);
        }
        let i_w = other_idx[k] as usize;
        let i_r = own_idx[k] as usize;
        dst[i_w] = src[i_r];
        proof {
            assert forall|k2: int|
                0 <= k2 < k + 1 implies dst@[#[trigger] other_index(dst_face, k2)] == src@[own_index(
                src_face,
                k2,
            )] by {
                if k2 < k {
                    lemma_layer_coords(dst_face, k2);
                    if other_index(dst_face, k2) == other_index(dst_face, k as int) {
                        let (x1, y1, z1) = other_layer_coord(dst_face, k2);
                        let (x2, y2, z2) = other_layer_coord(dst_face, k as int);
                        crate::grid::lemma_lin_injective(x1, y1, z1, x2, y2, z2);
                    }
                }
            }
        }
    }
    proof {
        assert forall|i: int|
            0 <= i < PADDED_VOLUME && !in_pad_layer(
                dst_face,
                coord_of(i).0,
                coord_of(i).1,
                coord_of(i).2,
            ) implies dst@[i] == dst0[i] by {}
    }
}

/// An interior slot number is recovered from its grid coordinate.
pub proof fn lemma_interior_slot_round_trip(j: int)
    requires
        0 <= j < INTERIOR_VOLUME,
    ensures
        ({
            let (x, y, z) = interior_coord(j);
            j == (x - 1) + 16 * (y - 1) + 256 * (z - 1)
        }),
{
    lemma_fundamental_div_mod(j, 16);
    lemma_fundamental_div_mod(j / 16, 16);
    lemma_div_denominator(j, 16, 16);
}

/// Every interior flat index is some interior slot's index: the
/// inverse direction of [`lemma_interior_lin_is_interior`].
pub proof fn lemma_interior_index_has_slot(i: int)
    requires
        0 <= i < PADDED_VOLUME,
        is_interior_index(i),
    ensures
        ({
            let (x, y, z) = coord_of(i);
            let j = (x - 1) + 16 * (y - 1) + 256 * (z - 1);
            0 <= j < INTERIOR_VOLUME && interior_lin(j) == i
        }),
{
    let (x, y, z) = coord_of(i);
    let j = (x - 1) + 16 * (y - 1) + 256 * (z - 1);
    crate::grid::lemma_coord_of_lin_inverse(i);
    lemma_fundamental_div_mod(j, 16);
    lemma_fundamental_div_mod(j / 16, 16);
    lemma_div_denominator(j, 16, 16);
    assert(interior_coord(j) == (x, y, z));
}

/// Distinct interior slots have distinct flat indices.
pub proof fn lemma_interior_lin_injective(j1: int, j2: int)
    requires
        0 <= j1 < INTERIOR_VOLUME,
        0 <= j2 < INTERIOR_VOLUME,
        j1 != j2,
    ensures
        interior_lin(j1) != interior_lin(j2),
{
    let (x1, y1, z1) = interior_coord(j1);
    let (x2, y2, z2) = interior_coord(j2);
    if interior_lin(j1) == interior_lin(j2) {
        crate::grid::lemma_lin_injective(x1, y1, z1, x2, y2, z2);
        lemma_interior_slot_round_trip(j1);
        lemma_interior_slot_round_trip(j2);
    }
}

} // verus!
