//! Linearization of the padded voxel grid.
//!
//! A chunk stores its voxels in one flat array of `PADDED_VOLUME` slots.
//! A grid coordinate `(x, y, z)`, each component below `PADDED_SIZE`,
//! maps to the flat index `x + PADDED_SIZE * y + PADDED_SIZE^2 * z`:
//! `x` varies fastest, then `y`, then `z`.

use vstd::prelude::*;

verus! {

/// Edge length of the padded grid: the 16-voxel interior plus one
/// ghost voxel on each side.
pub const PADDED_SIZE: usize = 18;

/// Number of voxel slots in one padded grid.
pub const PADDED_VOLUME: usize = 5832;

/// Flat index of the grid coordinate `(x, y, z)`.
pub open spec fn lin(x: int, y: int, z: int) -> int {
    x + 18 * y + 324 * z
}

/// Whether `(x, y, z)` lies inside the padded grid.
pub open spec fn in_grid(x: int, y: int, z: int) -> bool {
    0 <= x < 18 && 0 <= y < 18 && 0 <= z < 18
}

/// Grid coordinate of the flat index `i`.
pub open spec fn coord_of(i: int) -> (int, int, int) {
    (i % 18, (i / 18) % 18, i / 324)
}

/// Flat index of a padded-grid coordinate.
pub fn linearize(x: usize, y: usize, z: usize) -> (i: usize)
    requires
        in_grid(x as int, y as int, z as int),
    ensures
        i == lin(x as int, y as int, z as int),
        i < PADDED_VOLUME,
{
    x + 18 * y + 324 * z
}

/// Padded-grid coordinate of a flat index.
pub fn delinearize(i: usize) -> (r: (usize, usize, usize))
    requires
        i < PADDED_VOLUME,
    ensures
        r == (
            coord_of(i as int).0 as usize,
            coord_of(i as int).1 as usize,
            coord_of(i as int).2 as usize,
        ),
        in_grid(r.0 as int, r.1 as int, r.2 as int),
        lin(r.0 as int, r.1 as int, r.2 as int) == i,
{
    proof {
        lemma_coord_of_lin_inverse(i as int);
    }
    (i % 18, (i / 18) % 18, i / 324)
}

/// A flat index decodes back to the coordinate that produced it:
/// `coord_of` is a left inverse of `lin` on the padded grid.
pub proof fn lemma_lin_round_trip(x: int, y: int, z: int)
    requires
        in_grid(x, y, z),
    ensures
        0 <= lin(x, y, z) < PADDED_VOLUME,
        coord_of(lin(x, y, z)) == (x, y, z),
{
}

/// `lin` is a right inverse of `coord_of` on flat indices.
pub proof fn lemma_coord_of_lin_inverse(i: int)
    requires
        0 <= i < PADDED_VOLUME,
    ensures
        in_grid(coord_of(i).0, coord_of(i).1, coord_of(i).2),
        lin(coord_of(i).0, coord_of(i).1, coord_of(i).2) == i,
{
}

/// Distinct grid coordinates have distinct flat indices.
pub proof fn lemma_lin_injective(x1: int, y1: int, z1: int, x2: int, y2: int, z2: int)
    requires
        in_grid(x1, y1, z1),
        in_grid(x2, y2, z2),
        lin(x1, y1, z1) == lin(x2, y2, z2),
    ensures
        x1 == x2 && y1 == y2 && z1 == z2,
{
    lemma_lin_round_trip(x1, y1, z1);
    lemma_lin_round_trip(x2, y2, z2);
}

} // verus!
