//! The six face directions of a chunk.
//!
//! A face names both a side of the cuboid grid and the direction of the
//! adjoining neighbour chunk: `Front` is towards negative z, `Back`
//! positive z, `Top` positive y, `Bottom` negative y, `Right` positive x
//! and `Left` negative x.
//!
//! For every face the padded grid holds two distinguished layers:
//! the *own* boundary layer, the outermost slice of the authoritative
//! interior (coordinate 1 or 16 on the face's axis), and the *other*
//! (padding) layer, the ghost slice just outside it (coordinate 0
//! or 17). Border synchronization copies a neighbour's own layer into
//! this chunk's padding layer and vice versa.

use vstd::prelude::*;

verus! {

/// One of the six axis directions of a chunk.
#[derive(Clone, Copy, Debug, PartialEq, Eq, Structural)]
pub enum ChunkFace {
    Front,
    Back,
    Top,
    Bottom,
    Left,
    Right,
}

/// Types with an involutive opposite direction.
pub trait Opposite: Sized {
    /// The opposite direction, as a specification-level value.
    spec fn spec_opposite(&self) -> Self;

    /// The opposite direction.
    fn opposite(&self) -> (r: Self)
        ensures
            r == self.spec_opposite(),
    ;
}

impl Opposite for ChunkFace {
    open spec fn spec_opposite(&self) -> ChunkFace {
        match self {
            ChunkFace::Back => ChunkFace::Front,
            ChunkFace::Bottom => ChunkFace::Top,
            ChunkFace::Left => ChunkFace::Right,
            ChunkFace::Front => ChunkFace::Back,
            ChunkFace::Top => ChunkFace::Bottom,
            ChunkFace::Right => ChunkFace::Left,
        }
    }

    fn opposite(&self) -> (r: ChunkFace) {
        match self {
            ChunkFace::Back => ChunkFace::Front,
            ChunkFace::Bottom => ChunkFace::Top,
            ChunkFace::Left => ChunkFace::Right,
            ChunkFace::Front => ChunkFace::Back,
            ChunkFace::Top => ChunkFace::Bottom,
            ChunkFace::Right => ChunkFace::Left,
        }
    }
}

/// Taking the opposite twice returns the original face.
pub proof fn lemma_opposite_involutive(f: ChunkFace)
    ensures
        f.spec_opposite().spec_opposite() == f,
{
}

/// Lattice offset of the neighbour chunk behind face `f`.
pub open spec fn face_offset(f: ChunkFace) -> (int, int, int) {
    match f {
        ChunkFace::Front => (0, 0, -1),
        ChunkFace::Back => (0, 0, 1),
        ChunkFace::Top => (0, 1, 0),
        ChunkFace::Bottom => (0, -1, 0),
        ChunkFace::Right => (1, 0, 0),
        ChunkFace::Left => (-1, 0, 0),
    }
}

/// Grid coordinate of slot `k` of the own boundary layer towards `f`:
/// the outermost interior slice, walked with the first plane axis
/// varying slowest.
pub open spec fn own_layer_coord(f: ChunkFace, k: int) -> (int, int, int) {
    let a = k / 18;
    let b = k % 18;
    match f {
        ChunkFace::Front => (a, b, 1),
        ChunkFace::Back => (a, b, 16),
        ChunkFace::Top => (a, 16, b),
        ChunkFace::Bottom => (a, 1, b),
        ChunkFace::Right => (16, a, b),
        ChunkFace::Left => (1, a, b),
    }
}

/// Grid coordinate of slot `k` of the padding layer towards `f`:
/// the ghost slice just outside the own boundary layer.
pub open spec fn other_layer_coord(f: ChunkFace, k: int) -> (int, int, int) {
    let a = k / 18;
    let b = k % 18;
    match f {
        ChunkFace::Front => (a, b, 0),
        ChunkFace::Back => (a, b, 17),
        ChunkFace::Top => (a, 17, b),
        ChunkFace::Bottom => (a, 0, b),
        ChunkFace::Right => (17, a, b),
        ChunkFace::Left => (0, a, b),
    }
}

/// Whether `(x, y, z)` lies in the padding layer towards `f`.
pub open spec fn in_pad_layer(f: ChunkFace, x: int, y: int, z: int) -> bool {
    match f {
        ChunkFace::Front => z == 0,
        ChunkFace::Back => z == 17,
        ChunkFace::Top => y == 17,
        ChunkFace::Bottom => y == 0,
        ChunkFace::Right => x == 17,
        ChunkFace::Left => x == 0,
    }
}

/// Layer-slot number of a cell of one of `f`'s two layers: the
/// inverse of the slot-to-coordinate walk of [`own_layer_coord`] and
/// [`other_layer_coord`].
pub open spec fn layer_slot(f: ChunkFace, x: int, y: int, z: int) -> int {
    match f {
        ChunkFace::Front => x * 18 + y,
        ChunkFace::Back => x * 18 + y,
        ChunkFace::Top => x * 18 + z,
        ChunkFace::Bottom => x * 18 + z,
        ChunkFace::Right => y * 18 + z,
        ChunkFace::Left => y * 18 + z,
    }
}

/// Coordinate inside the neighbour chunk behind `f` that a padding cell
/// `(x, y, z)` of this chunk mirrors: the matching slot of the
/// neighbour's own boundary layer towards the opposite face.
pub open spec fn mirror_coord(f: ChunkFace, x: int, y: int, z: int) -> (int, int, int) {
    match f {
        ChunkFace::Front => (x, y, 16),
        ChunkFace::Back => (x, y, 1),
        ChunkFace::Top => (x, 1, z),
        ChunkFace::Bottom => (x, 16, z),
        ChunkFace::Right => (1, y, z),
        ChunkFace::Left => (16, y, z),
    }
}

} // verus!
