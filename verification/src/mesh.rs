//! Mesh generation: from a padded voxel grid to unit-quad geometry.
//!
//! For each of the six face directions every interior voxel is tested:
//! a face is visible exactly when the voxel's visibility class is not
//! empty and the immediate neighbour in that direction is empty. Each
//! visible face becomes one unit quad: four vertex positions in
//! chunk-local space, a repeated face normal, two triangles (six
//! indices), and texture coordinates derived from the voxel texture's
//! atlas rectangle.
//!
//! Geometry is exact-arithmetic: positions and normals are integers,
//! and a texture coordinate is an integer numerator over a fixed
//! denominator pair — `uv_denom_u` for the first component and
//! `uv_denom_v` for the second. Each texture is divided into six
//! stacked sub-rectangles of a sixth of its height, chosen by the face
//! direction in the order +X, +Y, +Z, -X, -Y, -Z.
//!
//! Quads are emitted grouped by direction, in the order -X, -Y, -Z,
//! +X, +Y, +Z; inside a group the grid is scanned in flat-index order.

use vstd::prelude::*;

use crate::ChunkError;
use crate::atlas::AtlasView;
use crate::atlas::Rect;
use crate::atlas::TextureAtlasLayout;
use crate::atlas::atlas_lookup;
use crate::atlas::rect_wf;
use crate::block::Block;
use crate::block::BlockRegistry;
use crate::block::VoxelVisibility;
use crate::chunk::Chunk;
use crate::chunk::INTERIOR_VOLUME;
use crate::chunk::interior_coord;
use crate::chunk::interior_lin;
use crate::chunk::is_interior_index;
use crate::face::ChunkFace;
use crate::face::face_offset;
use crate::grid::PADDED_VOLUME;
use crate::grid::coord_of;
use crate::grid::lin;
use crate::grid::linearize;
use vstd::pervasive::unreached;

verus! {

/// Specification view of a [`Geometry`]: the flattened vertex buffers.
pub struct GeometryView {
    /// Vertex positions, three components per vertex.
    pub positions: Seq<u32>,
    /// Vertex normals, three components per vertex.
    pub normals: Seq<i32>,
    /// Texture-coordinate numerators, two components per vertex.
    pub uvs: Seq<u64>,
    /// Triangle-list indices, six per quad.
    pub indices: Seq<u32>,
    /// Denominator of the first texture-coordinate component.
    pub uv_denom_u: u64,
    /// Denominator of the second texture-coordinate component.
    pub uv_denom_v: u64,
}

/// A triangle-list mesh of unit quads, in exact integer arithmetic.
///
/// A renderer divides each texture-coordinate numerator by the
/// matching denominator to recover the conventional fractional
/// coordinates.
#[derive(Debug)]
pub struct Geometry {
    /// Vertex positions, three components per vertex.
    pub positions: Vec<u32>,
    /// Vertex normals, three components per vertex.
    pub normals: Vec<i32>,
    /// Texture-coordinate numerators, two components per vertex.
    pub uvs: Vec<u64>,
    /// Triangle-list indices, six per quad.
    pub indices: Vec<u32>,
    /// Denominator of the first texture-coordinate component: the
    /// atlas image width.
    pub uv_denom_u: u64,
    /// Denominator of the second texture-coordinate component: six
    /// times the atlas image height.
    pub uv_denom_v: u64,
}

impl View for Geometry {
    type V = GeometryView;

    open spec fn view(&self) -> GeometryView {
        GeometryView {
            positions: self.positions@,
            normals: self.normals@,
            uvs: self.uvs@,
            indices: self.indices@,
            uv_denom_u: self.uv_denom_u,
            uv_denom_v: self.uv_denom_v,
        }
    }
}

/// Visibility class of the grid cell at flat index `i`: the class of
/// the block its reference resolves to, empty when the index or the
/// reference is out of range.
pub open spec fn vis_of(reg: Seq<Block>, grid: Seq<u32>, i: int) -> VoxelVisibility {
    if 0 <= i < grid.len() && grid[i] < reg.len() {
        reg[grid[i] as int].spec_visibility()
    } else {
        VoxelVisibility::Empty
    }
}

/// Whether interior slot `j` shows a visible face towards `f`: the
/// voxel is not empty and its immediate neighbour in that direction
/// is.
pub open spec fn face_visible(reg: Seq<Block>, grid: Seq<u32>, j: int, f: ChunkFace) -> bool {
    let (x, y, z) = interior_coord(j);
    let (dx, dy, dz) = face_offset(f);
    &&& vis_of(reg, grid, lin(x, y, z)) != VoxelVisibility::Empty
    &&& vis_of(reg, grid, lin(x + dx, y + dy, z + dz)) == VoxelVisibility::Empty
}

/// The visible faces towards `f` among the first `n` interior slots,
/// in slot order.
pub open spec fn scan(reg: Seq<Block>, grid: Seq<u32>, f: ChunkFace, n: int) -> Seq<
    (int, ChunkFace),
>
    decreases n,
{
    if n <= 0 {
        Seq::empty()
    } else {
        let s = scan(reg, grid, f, n - 1);
        if face_visible(reg, grid, n - 1, f) {
            s.push((n - 1, f))
        } else {
            s
        }
    }
}

/// The face direction of emission group `d`: the groups run -X, -Y,
/// -Z, +X, +Y, +Z.
pub open spec fn dir_face(d: int) -> ChunkFace {
    if d == 0 {
        ChunkFace::Left
    } else if d == 1 {
        ChunkFace::Bottom
    } else if d == 2 {
        ChunkFace::Front
    } else if d == 3 {
        ChunkFace::Right
    } else if d == 4 {
        ChunkFace::Top
    } else {
        ChunkFace::Back
    }
}

/// All visible faces of the first `d` emission groups, in emission
/// order.
pub open spec fn vf_up_to(reg: Seq<Block>, grid: Seq<u32>, d: int) -> Seq<(int, ChunkFace)>
    decreases d,
{
    if d <= 0 {
        Seq::empty()
    } else {
        vf_up_to(reg, grid, d - 1) + scan(reg, grid, dir_face(d - 1), INTERIOR_VOLUME as int)
    }
}

/// All visible faces of the grid, in emission order.
pub open spec fn visible_seq(reg: Seq<Block>, grid: Seq<u32>) -> Seq<(int, ChunkFace)> {
    vf_up_to(reg, grid, 6)
}

/// The stacked sub-rectangle a face direction selects inside its
/// texture, counting from one in the order +X, +Y, +Z, -X, -Y, -Z.
pub open spec fn face_no(f: ChunkFace) -> int {
    match f {
        ChunkFace::Right => 1,
        ChunkFace::Top => 2,
        ChunkFace::Back => 3,
        ChunkFace::Left => 4,
        ChunkFace::Bottom => 5,
        ChunkFace::Front => 6,
    }
}

/// Whether the two triangles of a quad towards `f` are wound
/// counter-clockwise in the vertex order of [`quad_positions`].
pub open spec fn quad_ccw(f: ChunkFace) -> bool {
    match f {
        ChunkFace::Left => true,
        ChunkFace::Top => true,
        ChunkFace::Back => true,
        ChunkFace::Bottom => false,
        ChunkFace::Front => false,
        ChunkFace::Right => false,
    }
}

/// The twelve position components of the quad of voxel `(x, y, z)`
/// towards `f`: four unit-square corners in the plane just outside
/// the voxel in that direction.
pub open spec fn quad_positions(f: ChunkFace, x: int, y: int, z: int) -> Seq<u32> {
    match f {
        ChunkFace::Left => seq![
            x as u32, y as u32, z as u32,
            x as u32, y as u32, (z + 1) as u32,
            x as u32, (y + 1) as u32, z as u32,
            x as u32, (y + 1) as u32, (z + 1) as u32,
        ],
        ChunkFace::Bottom => seq![
            x as u32, y as u32, z as u32,
            x as u32, y as u32, (z + 1) as u32,
            (x + 1) as u32, y as u32, z as u32,
            (x + 1) as u32, y as u32, (z + 1) as u32,
        ],
        ChunkFace::Front => seq![
            x as u32, y as u32, z as u32,
            (x + 1) as u32, y as u32, z as u32,
            x as u32, (y + 1) as u32, z as u32,
            (x + 1) as u32, (y + 1) as u32, z as u32,
        ],
        ChunkFace::Right => seq![
            (x + 1) as u32, y as u32, z as u32,
            (x + 1) as u32, y as u32, (z + 1) as u32,
            (x + 1) as u32, (y + 1) as u32, z as u32,
            (x + 1) as u32, (y + 1) as u32, (z + 1) as u32,
        ],
        ChunkFace::Top => seq![
            x as u32, (y + 1) as u32, z as u32,
            x as u32, (y + 1) as u32, (z + 1) as u32,
            (x + 1) as u32, (y + 1) as u32, z as u32,
            (x + 1) as u32, (y + 1) as u32, (z + 1) as u32,
        ],
        ChunkFace::Back => seq![
            x as u32, y as u32, (z + 1) as u32,
            (x + 1) as u32, y as u32, (z + 1) as u32,
            x as u32, (y + 1) as u32, (z + 1) as u32,
            (x + 1) as u32, (y + 1) as u32, (z + 1) as u32,
        ],
    }
}

/// The twelve normal components of a quad towards `f`: the face
/// direction, repeated for each of the four vertices.
pub open spec fn quad_normals(f: ChunkFace) -> Seq<i32> {
    let (dx, dy, dz) = face_offset(f);
    seq![
        dx as i32, dy as i32, dz as i32,
        dx as i32, dy as i32, dz as i32,
        dx as i32, dy as i32, dz as i32,
        dx as i32, dy as i32, dz as i32,
    ]
}

/// The six triangle-list indices of quad number `k`: two triangles
/// over its four vertices, wound by [`quad_ccw`].
pub open spec fn quad_indices(f: ChunkFace, k: int) -> Seq<u32> {
    let b = 4 * k;
    if quad_ccw(f) {
        seq![
            b as u32, (b + 1) as u32, (b + 2) as u32,
            (b + 1) as u32, (b + 3) as u32, (b + 2) as u32,
        ]
    } else {
        seq![
            b as u32, (b + 2) as u32, (b + 1) as u32,
            (b + 1) as u32, (b + 2) as u32, (b + 3) as u32,
        ]
    }
}

/// The eight texture-coordinate numerators of a quad towards `f`
/// textured from rectangle `r`: the face's sixth of the rectangle,
/// scaled by the rectangle and offset by its minimum corner.
///
/// The first component is a numerator over the atlas width, the
/// second over six times the atlas height.
pub open spec fn quad_uvs(r: Rect, f: ChunkFace) -> Seq<u64> {
    let w = r.max_x - r.min_x;
    let h = r.max_y - r.min_y;
    let fno = face_no(f);
    let u_hi = r.min_x + w;
    let u_lo = r.min_x as int;
    let v_hi = fno * h + 6 * r.min_y;
    let v_lo = (fno - 1) * h + 6 * r.min_y;
    seq![
        u_hi as u64, v_hi as u64,
        u_lo as u64, v_hi as u64,
        u_hi as u64, v_lo as u64,
        u_lo as u64, v_lo as u64,
    ]
}

/// The atlas rectangle of the voxel at interior slot `j`; a degenerate
/// rectangle when the voxel's texture is unset or not in the atlas.
pub open spec fn quad_rect(reg: Seq<Block>, grid: Seq<u32>, atlas: AtlasView, j: int) -> Rect {
    let b = reg[grid[interior_lin(j)] as int];
    match b.spec_voxel_texture() {
        Some(t) => match atlas_lookup(atlas.entries, t) {
            Some(r) => r,
            None => Rect { min_x: 0, min_y: 0, max_x: 0, max_y: 0 },
        },
        None => Rect { min_x: 0, min_y: 0, max_x: 0, max_y: 0 },
    }
}

/// Whether every block reference of the grid is registered.
pub open spec fn ids_resolve(reg: Seq<Block>, grid: Seq<u32>) -> bool {
    forall|i: int| 0 <= i < PADDED_VOLUME ==> (#[trigger] grid[i]) < reg.len()
}

/// Whether the voxel at interior slot `j` has a texture that the
/// atlas resolves.
pub open spec fn tex_resolvable(reg: Seq<Block>, grid: Seq<u32>, atlas: AtlasView, j: int) -> bool {
    let b = reg[grid[interior_lin(j)] as int];
    &&& b.spec_voxel_texture() is Some
    &&& atlas_lookup(atlas.entries, b.spec_voxel_texture()->0) is Some
}

/// Whether every visible face's texture resolves in the atlas.
pub open spec fn textures_resolve(reg: Seq<Block>, grid: Seq<u32>, atlas: AtlasView) -> bool {
    forall|j: int, f: ChunkFace|
        0 <= j < INTERIOR_VOLUME && #[trigger] face_visible(reg, grid, j, f) ==> tex_resolvable(
            reg,
            grid,
            atlas,
            j,
        )
}

/// Whether mesh generation succeeds on this grid: every block
/// reference is registered and every visible face's texture resolves.
pub open spec fn chunk_resolves(reg: Seq<Block>, grid: Seq<u32>, atlas: AtlasView) -> bool {
    ids_resolve(reg, grid) && textures_resolve(reg, grid, atlas)
}

/// Position components of the quads of `vf`, concatenated in order.
pub open spec fn positions_acc(vf: Seq<(int, ChunkFace)>) -> Seq<u32>
    decreases vf.len(),
{
    if vf.len() == 0 {
        Seq::empty()
    } else {
        let (j, f) = vf.last();
        let (x, y, z) = interior_coord(j);
        positions_acc(vf.drop_last()) + quad_positions(f, x, y, z)
    }
}

/// Normal components of the quads of `vf`, concatenated in order.
pub open spec fn normals_acc(vf: Seq<(int, ChunkFace)>) -> Seq<i32>
    decreases vf.len(),
{
    if vf.len() == 0 {
        Seq::empty()
    } else {
        let (j, f) = vf.last();
        normals_acc(vf.drop_last()) + quad_normals(f)
    }
}

/// Texture-coordinate numerators of the quads of `vf`, concatenated
/// in order.
pub open spec fn uvs_acc(
    reg: Seq<Block>,
    grid: Seq<u32>,
    atlas: AtlasView,
    vf: Seq<(int, ChunkFace)>,
) -> Seq<u64>
    decreases vf.len(),
{
    if vf.len() == 0 {
        Seq::empty()
    } else {
        let (j, f) = vf.last();
        uvs_acc(reg, grid, atlas, vf.drop_last()) + quad_uvs(quad_rect(reg, grid, atlas, j), f)
    }
}

/// Triangle-list indices of the quads of `vf`, concatenated in order;
/// quad number `k` indexes vertices `4k` through `4k + 3`.
pub open spec fn indices_acc(vf: Seq<(int, ChunkFace)>) -> Seq<u32>
    decreases vf.len(),
{
    if vf.len() == 0 {
        Seq::empty()
    } else {
        let (j, f) = vf.last();
        indices_acc(vf.drop_last()) + quad_indices(f, vf.len() - 1)
    }
}

/// The mesh of a grid against a registry and an atlas: one unit quad
/// per visible face, in emission order.
pub open spec fn mesh_spec(reg: Seq<Block>, grid: Seq<u32>, atlas: AtlasView) -> GeometryView {
    let vf = visible_seq(reg, grid);
    GeometryView {
        positions: positions_acc(vf),
        normals: normals_acc(vf),
        uvs: uvs_acc(reg, grid, atlas, vf),
        indices: indices_acc(vf),
        uv_denom_u: atlas.size_x as u64,
        uv_denom_v: (6 * (atlas.size_y as int)) as u64,
    }
}

/// Appending one visible face extends each buffer by one quad.
proof fn lemma_acc_push(
    reg: Seq<Block>,
    grid: Seq<u32>,
    atlas: AtlasView,
    vf: Seq<(int, ChunkFace)>,
    j: int,
    f: ChunkFace,
)
    ensures
        ({
            let (x, y, z) = interior_coord(j);
            &&& positions_acc(vf.push((j, f))) == positions_acc(vf) + quad_positions(f, x, y, z)
            &&& normals_acc(vf.push((j, f))) == normals_acc(vf) + quad_normals(f)
            &&& uvs_acc(reg, grid, atlas, vf.push((j, f))) == uvs_acc(reg, grid, atlas, vf)
                + quad_uvs(quad_rect(reg, grid, atlas, j), f)
            &&& indices_acc(vf.push((j, f))) == indices_acc(vf) + quad_indices(f, vf.len() as int)
        }),
{
    assert(vf.push((j, f)).drop_last() =~= vf);
    assert(vf.push((j, f)).last() == (j, f));
}

/// A scan of `n` slots yields at most `n` visible faces.
proof fn lemma_scan_len_bound(reg: Seq<Block>, grid: Seq<u32>, f: ChunkFace, n: int)
    ensures
        scan(reg, grid, f, n).len() <= if n <= 0 { 0 } else { n },
    decreases n,
{
    if n > 0 {
        lemma_scan_len_bound(reg, grid, f, n - 1);
    }
}

/// The first `d` emission groups yield at most `d` times the interior
/// volume of visible faces.
proof fn lemma_vf_len_bound(reg: Seq<Block>, grid: Seq<u32>, d: int)
    ensures
        vf_up_to(reg, grid, d).len() <= if d <= 0 { 0 } else { d * INTERIOR_VOLUME },
    decreases d,
{
    if d > 0 {
        lemma_vf_len_bound(reg, grid, d - 1);
        lemma_scan_len_bound(reg, grid, dir_face(d - 1), INTERIOR_VOLUME as int);
    }
}

/// The buffers of `vf` hold twelve position and normal components,
/// eight texture-coordinate numerators and six indices per quad.
pub proof fn lemma_acc_lens(
    reg: Seq<Block>,
    grid: Seq<u32>,
    atlas: AtlasView,
    vf: Seq<(int, ChunkFace)>,
)
    ensures
        positions_acc(vf).len() == 12 * vf.len(),
        normals_acc(vf).len() == 12 * vf.len(),
        uvs_acc(reg, grid, atlas, vf).len() == 8 * vf.len(),
        indices_acc(vf).len() == 6 * vf.len(),
    decreases vf.len(),
{
    if vf.len() > 0 {
        lemma_acc_lens(reg, grid, atlas, vf.drop_last());
    }
}

/// A scan towards `f` over the first `n` slots lists exactly the
/// pairs `(j, f)` with `j` below `n` whose face is visible.
proof fn lemma_scan_contains(
    reg: Seq<Block>,
    grid: Seq<u32>,
    f: ChunkFace,
    n: int,
    j: int,
    f2: ChunkFace,
)
    ensures
        scan(reg, grid, f, n).contains((j, f2)) <==> f2 == f && 0 <= j < n && face_visible(
            reg,
            grid,
            j,
            f,
        ),
    decreases n,
{
    if n > 0 {
        lemma_scan_contains(reg, grid, f, n - 1, j, f2);
        let s = scan(reg, grid, f, n - 1);
        if face_visible(reg, grid, n - 1, f) {
            vstd::seq_lib::lemma_seq_contains_after_push(s, (n - 1, f), (j, f2));
        }
    }
}

/// The visible-face sequence of a grid lists exactly its visible
/// faces: the mesh holds one quad per visible face and no other.
pub proof fn lemma_visible_seq_characterization(
    reg: Seq<Block>,
    grid: Seq<u32>,
    j: int,
    f: ChunkFace,
)
    ensures
        visible_seq(reg, grid).contains((j, f)) <==> 0 <= j < INTERIOR_VOLUME && face_visible(
            reg,
            grid,
            j,
            f,
        ),
{
    let n = INTERIOR_VOLUME as int;
    lemma_scan_contains(reg, grid, dir_face(0), n, j, f);
    lemma_scan_contains(reg, grid, dir_face(1), n, j, f);
    lemma_scan_contains(reg, grid, dir_face(2), n, j, f);
    lemma_scan_contains(reg, grid, dir_face(3), n, j, f);
    lemma_scan_contains(reg, grid, dir_face(4), n, j, f);
    lemma_scan_contains(reg, grid, dir_face(5), n, j, f);
    assert forall|d: int| 0 <= d < 6 implies (vf_up_to(reg, grid, d + 1).contains((j, f)) <==> (
    vf_up_to(reg, grid, d).contains((j, f)) || scan(reg, grid, dir_face(d), n).contains(
        (j, f),
    ))) by {
        vstd::seq_lib::lemma_seq_concat_contains_all_elements(
            vf_up_to(reg, grid, d),
            scan(reg, grid, dir_face(d), n),
            (j, f),
        );
    }
    assert(!vf_up_to(reg, grid, 0).contains((j, f)));
    if face_visible(reg, grid, j, f) && 0 <= j < n {
        let d: int = match f {
            ChunkFace::Left => 0,
            ChunkFace::Bottom => 1,
            ChunkFace::Front => 2,
            ChunkFace::Right => 3,
            ChunkFace::Top => 4,
            ChunkFace::Back => 5,
        };
        assert(dir_face(d) == f);
        assert(scan(reg, grid, dir_face(d), n).contains((j, f)));
    }
}

/// A scan over slots none of which shows a visible face is empty.
proof fn lemma_scan_all_invisible(reg: Seq<Block>, grid: Seq<u32>, f: ChunkFace, n: int)
    requires
        forall|j: int| 0 <= j < n ==> !face_visible(reg, grid, j, f),
    ensures
        scan(reg, grid, f, n).len() == 0,
    decreases n,
{
    if n > 0 {
        lemma_scan_all_invisible(reg, grid, f, n - 1);
    }
}

/// A chunk whose interior is all void produces no quads: no visible
/// face exists, and the generated mesh is empty.
pub proof fn lemma_void_interior_no_quads(reg: Seq<Block>, grid: Seq<u32>, atlas: AtlasView)
    requires
        grid.len() == PADDED_VOLUME,
        forall|j: int|
            0 <= j < INTERIOR_VOLUME ==> vis_of(reg, grid, #[trigger] interior_lin(j))
                == VoxelVisibility::Empty,
    ensures
        visible_seq(reg, grid).len() == 0,
        mesh_spec(reg, grid, atlas).positions.len() == 0,
        mesh_spec(reg, grid, atlas).normals.len() == 0,
        mesh_spec(reg, grid, atlas).uvs.len() == 0,
        mesh_spec(reg, grid, atlas).indices.len() == 0,
{
    assert forall|j: int, f: ChunkFace| 0 <= j < INTERIOR_VOLUME implies !face_visible(
        reg,
        grid,
        j,
        f,
    ) by {
        let (x, y, z) = interior_coord(j);
        assert(interior_lin(j) == lin(x, y, z));
    }
    lemma_scan_all_invisible(reg, grid, dir_face(0), INTERIOR_VOLUME as int);
    lemma_scan_all_invisible(reg, grid, dir_face(1), INTERIOR_VOLUME as int);
    lemma_scan_all_invisible(reg, grid, dir_face(2), INTERIOR_VOLUME as int);
    lemma_scan_all_invisible(reg, grid, dir_face(3), INTERIOR_VOLUME as int);
    lemma_scan_all_invisible(reg, grid, dir_face(4), INTERIOR_VOLUME as int);
    lemma_scan_all_invisible(reg, grid, dir_face(5), INTERIOR_VOLUME as int);
    assert(vf_up_to(reg, grid, 0).len() == 0);
    assert(vf_up_to(reg, grid, 1).len() == 0);
    assert(vf_up_to(reg, grid, 2).len() == 0);
    assert(vf_up_to(reg, grid, 3).len() == 0);
    assert(vf_up_to(reg, grid, 4).len() == 0);
    assert(vf_up_to(reg, grid, 5).len() == 0);
    assert(vf_up_to(reg, grid, 6).len() == 0);
    lemma_acc_lens(reg, grid, atlas, visible_seq(reg, grid));
}

/// Whether interior slot `j` lies on the outer shell of the interior
/// towards `f`: its neighbour in that direction is a padding cell.
pub open spec fn on_shell(j: int, f: ChunkFace) -> bool {
    let (x, y, z) = interior_coord(j);
    match f {
        ChunkFace::Front => z == 1,
        ChunkFace::Back => z == 16,
        ChunkFace::Top => y == 16,
        ChunkFace::Bottom => y == 1,
        ChunkFace::Right => x == 16,
        ChunkFace::Left => x == 1,
    }
}

/// In a chunk whose interior is all opaque and whose padding is all
/// void, exactly the outer-shell faces are visible: no face stands
/// between two adjacent interior voxels.
pub proof fn lemma_opaque_interior_shell_faces(reg: Seq<Block>, grid: Seq<u32>)
    requires
        grid.len() == PADDED_VOLUME,
        forall|i: int|
            0 <= i < PADDED_VOLUME && is_interior_index(i) ==> vis_of(reg, grid, i)
                == VoxelVisibility::Opaque,
        forall|i: int|
            0 <= i < PADDED_VOLUME && !is_interior_index(i) ==> vis_of(reg, grid, i)
                == VoxelVisibility::Empty,
    ensures
        forall|j: int, f: ChunkFace|
            0 <= j < INTERIOR_VOLUME ==> (#[trigger] face_visible(reg, grid, j, f) <==> on_shell(
                j,
                f,
            )),
{
    assert forall|j: int, f: ChunkFace| 0 <= j < INTERIOR_VOLUME implies (#[trigger] face_visible(
        reg,
        grid,
        j,
        f,
    ) <==> on_shell(j, f)) by {
        let (x, y, z) = interior_coord(j);
        let (dx, dy, dz) = face_offset(f);
        crate::chunk::lemma_interior_lin_is_interior(j);
        assert(interior_lin(j) == lin(x, y, z));
        assert(1 <= x <= 16 && 1 <= y <= 16 && 1 <= z <= 16);
        assert(vis_of(reg, grid, lin(x, y, z)) == VoxelVisibility::Opaque);
        let nb = lin(x + dx, y + dy, z + dz);
        crate::grid::lemma_lin_round_trip(x + dx, y + dy, z + dz);
        assert(coord_of(nb) == (x + dx, y + dy, z + dz));
        assert(is_interior_index(nb) <==> !on_shell(j, f));
        if on_shell(j, f) {
            assert(vis_of(reg, grid, nb) == VoxelVisibility::Empty);
        } else {
            assert(vis_of(reg, grid, nb) == VoxelVisibility::Opaque);
        }
    }
}

/// Quad number `k` of the buffers of `vf` is exactly the quad of the
/// `k`-th visible face: its twelve position components, its repeated
/// normal, its eight texture-coordinate numerators and its six
/// indices based at vertex `4k`.
pub proof fn lemma_acc_quad_at(
    reg: Seq<Block>,
    grid: Seq<u32>,
    atlas: AtlasView,
    vf: Seq<(int, ChunkFace)>,
    k: int,
)
    requires
        0 <= k < vf.len(),
    ensures
        ({
            let (j, f) = vf[k];
            let (x, y, z) = interior_coord(j);
            &&& positions_acc(vf).subrange(12 * k, 12 * k + 12) == quad_positions(f, x, y, z)
            &&& normals_acc(vf).subrange(12 * k, 12 * k + 12) == quad_normals(f)
            &&& uvs_acc(reg, grid, atlas, vf).subrange(8 * k, 8 * k + 8) == quad_uvs(
                quad_rect(reg, grid, atlas, j),
                f,
            )
            &&& indices_acc(vf).subrange(6 * k, 6 * k + 6) == quad_indices(f, k)
        }),
    decreases vf.len(),
{
    let (j, f) = vf[k];
    let (x, y, z) = interior_coord(j);
    lemma_acc_lens(reg, grid, atlas, vf);
    lemma_acc_lens(reg, grid, atlas, vf.drop_last());
    if k == vf.len() - 1 {
        assert(positions_acc(vf).subrange(12 * k, 12 * k + 12) =~= quad_positions(f, x, y, z));
        assert(normals_acc(vf).subrange(12 * k, 12 * k + 12) =~= quad_normals(f));
        assert(uvs_acc(reg, grid, atlas, vf).subrange(8 * k, 8 * k + 8) =~= quad_uvs(
            quad_rect(reg, grid, atlas, j),
            f,
        ));
        assert(indices_acc(vf).subrange(6 * k, 6 * k + 6) =~= quad_indices(f, k));
    } else {
        lemma_acc_quad_at(reg, grid, atlas, vf.drop_last(), k);
        assert(vf.drop_last()[k] == vf[k]);
        assert(positions_acc(vf).subrange(12 * k, 12 * k + 12) =~= positions_acc(
            vf.drop_last(),
        ).subrange(12 * k, 12 * k + 12));
        assert(normals_acc(vf).subrange(12 * k, 12 * k + 12) =~= normals_acc(
            vf.drop_last(),
        ).subrange(12 * k, 12 * k + 12));
        assert(uvs_acc(reg, grid, atlas, vf).subrange(8 * k, 8 * k + 8) =~= uvs_acc(
            reg,
            grid,
            atlas,
            vf.drop_last(),
        ).subrange(8 * k, 8 * k + 8));
        assert(indices_acc(vf).subrange(6 * k, 6 * k + 6) =~= indices_acc(
            vf.drop_last(),
        ).subrange(6 * k, 6 * k + 6));
    }
}

/// Appends one quad to the buffers: the unit face of voxel
/// `(x, y, z)` towards `f`, textured from `rect`.
fn emit_quad(g: &mut Geometry, x: usize, y: usize, z: usize, f: ChunkFace, rect: Rect)
    requires
        1 <= x <= 16,
        1 <= y <= 16,
        1 <= z <= 16,
        rect_wf(rect),
        old(g)@.positions.len() % 12 == 0,
        old(g)@.positions.len() <= 12 * 24576,
        old(g)@.indices.len() == 6 * (old(g)@.positions.len() as int / 12),
    ensures
        final(g)@.positions == old(g)@.positions + quad_positions(f, x as int, y as int, z as int),
        final(g)@.normals == old(g)@.normals + quad_normals(f),
        final(g)@.uvs == old(g)@.uvs + quad_uvs(rect, f),
        final(g)@.indices == old(g)@.indices + quad_indices(
            f,
            old(g)@.positions.len() as int / 12,
        ),
        final(g)@.uv_denom_u == old(g)@.uv_denom_u,
        final(g)@.uv_denom_v == old(g)@.uv_denom_v,
{
    let ghost old_positions = g.positions@;
    let ghost old_normals = g.normals@;
    let ghost old_uvs = g.uvs@;
    let ghost old_indices = g.indices@;

    // four corners: base, base + u, base + v, base + u + v
    let (bx, by, bz, ux, uy, uz, vx, vy, vz): (
        usize,
        usize,
        usize,
        usize,
        usize,
        usize,
        usize,
        usize,
        usize,
    ) = match f {
        ChunkFace::Left => (x, y, z, 0, 0, 1, 0, 1, 0),
        ChunkFace::Bottom => (x, y, z, 0, 0, 1, 1, 0, 0),
        ChunkFace::Front => (x, y, z, 1, 0, 0, 0, 1, 0),
        ChunkFace::Right => (x + 1, y, z, 0, 0, 1, 0, 1, 0),
        ChunkFace::Top => (x, y + 1, z, 0, 0, 1, 1, 0, 0),
        ChunkFace::Back => (x, y, z + 1, 1, 0, 0, 0, 1, 0),
    };
    g.positions.push(bx as u32);
    g.positions.push(by as u32);
    g.positions.push(bz as u32);
    g.positions.push((bx + ux) as u32);
    g.positions.push((by + uy) as u32);
    g.positions.push((bz + uz) as u32);
    g.positions.push((bx + vx) as u32);
    g.positions.push((by + vy) as u32);
    g.positions.push((bz + vz) as u32);
    g.positions.push((bx + ux + vx) as u32);
    g.positions.push((by + uy + vy) as u32);
    g.positions.push((bz + uz + vz) as u32);
    proof {
        assert(g.positions@ =~= old_positions + quad_positions(
            f,
            x as int,
            y as int,
            z as int,
        ));
    }

    let (dx, dy, dz): (i32, i32, i32) = match f {
        ChunkFace::Front => (0, 0, -1),
        ChunkFace::Back => (0, 0, 1),
        ChunkFace::Top => (0, 1, 0),
        ChunkFace::Bottom => (0, -1, 0),
        ChunkFace::Right => (1, 0, 0),
        ChunkFace::Left => (-1, 0, 0),
    };
    g.normals.push(dx);
    g.normals.push(dy);
    g.normals.push(dz);
    g.normals.push(dx);
    g.normals.push(dy);
    g.normals.push(dz);
    g.normals.push(dx);
    g.normals.push(dy);
    g.normals.push(dz);
    g.normals.push(dx);
    g.normals.push(dy);
    g.normals.push(dz);
    proof {
        assert(g.normals@ =~= old_normals + quad_normals(f));
    }

    let w: u64 = rect.max_x as u64 - rect.min_x as u64;
    let h: u64 = rect.max_y as u64 - rect.min_y as u64;
    let fno: u64 = match f {
        ChunkFace::Right => 1,
        ChunkFace::Top => 2,
        ChunkFace::Back => 3,
        ChunkFace::Left => 4,
        ChunkFace::Bottom => 5,
        ChunkFace::Front => 6,
    };
    proof {
        assert(fno * h <= 6 * 0xffff_ffffu64) by (nonlinear_arith)
            requires
                1 <= fno <= 6,
                h <= 0xffff_ffffu64,
        ;
        assert((fno - 1) * h <= fno * h) by (nonlinear_arith)
            requires
                1 <= fno,
                0 <= h,
        ;
    }
    let u_hi: u64 = rect.min_x as u64 + w;
    let u_lo: u64 = rect.min_x as u64;
    let v_hi: u64 = fno * h + 6 * (rect.min_y as u64);
    let v_lo: u64 = (fno - 1) * h + 6 * (rect.min_y as u64);
    proof {
        assert(fno == face_no(f));
        assert(quad_uvs(rect, f) =~= seq![u_hi, v_hi, u_lo, v_hi, u_hi, v_lo, u_lo, v_lo]);
    }
    g.uvs.push(u_hi);
    g.uvs.push(v_hi);
    g.uvs.push(u_lo);
    g.uvs.push(v_hi);
    g.uvs.push(u_hi);
    g.uvs.push(v_lo);
    g.uvs.push(u_lo);
    g.uvs.push(v_lo);
    proof {
        assert(g.uvs@ =~= old_uvs + quad_uvs(rect, f));
    }

    let k: usize = g.indices.len() / 6;
    proof {
        vstd::arithmetic::div_mod::lemma_div_multiples_vanish(
            old_positions.len() as int / 12,
            6,
        );
        assert(k == old_positions.len() as int / 12);
    }
    let b: u32 = (4 * k) as u32;
    let ccw = matches!(f, ChunkFace::Left | ChunkFace::Top | ChunkFace::Back);
    if ccw {
        g.indices.push(b);
        g.indices.push(b + 1);
        g.indices.push(b + 2);
        g.indices.push(b + 1);
        g.indices.push(b + 3);
        g.indices.push(b + 2);
    } else {
        g.indices.push(b);
        g.indices.push(b + 2);
        g.indices.push(b + 1);
        g.indices.push(b + 1);
        g.indices.push(b + 2);
        g.indices.push(b + 3);
    }
    proof {
        assert(g.indices@ =~= old_indices + quad_indices(f, old_positions.len() as int / 12));
    }
}

impl Chunk {
    /// Generates the chunk's mesh: one unit quad for every visible
    /// face of the padded grid, with texture coordinates from the
    /// atlas.
    ///
    /// Fails with [`ChunkError::UnresolvedAsset`] exactly when a block
    /// reference of the grid is not registered, or a visible face's
    /// voxel has no texture, or that texture is not in the atlas.
    #[verifier::rlimit(80)]
    pub fn gen_geometry(&self, texture_atlas: &TextureAtlasLayout, blocks: &BlockRegistry) -> (r:
        Result<Geometry, ChunkError>)
        requires
            self.wf(),
            texture_atlas.wf(),
        ensures
            r is Ok <==> chunk_resolves(blocks@, self.blocks@, texture_atlas@),
            r matches Ok(g) ==> g@ == mesh_spec(blocks@, self.blocks@, texture_atlas@),
            r matches Err(e) ==> e == ChunkError::UnresolvedAsset,
    {
        let ghost reg = blocks@;
        let ghost grid = self.blocks@;
        let ghost atlas = texture_atlas@;

        // Every block reference of the grid must be registered.
        for i in 0..PADDED_VOLUME
            invariant
                self.wf(),
                grid == self.blocks@,
                reg == blocks@,
                forall|i2: int| 0 <= i2 < i ==> (#[trigger] grid[i2]) < reg.len(),
        {
            if blocks.get(self.blocks[i]).is_none() {
                proof {
                    assert(!ids_resolve(reg, grid));
                }
                return Err(ChunkError::UnresolvedAsset);
            }
        }

        let (size_x, size_y) = texture_atlas.size();
        let mut g = Geometry {
            positions: Vec::new(),
            normals: Vec::new(),
            uvs: Vec::new(),
            indices: Vec::new(),
            uv_denom_u: size_x as u64,
            uv_denom_v: 6 * (size_y as u64),
        };
        proof {
            assert(g@.positions =~= positions_acc(vf_up_to(reg, grid, 0)));
            assert(g@.normals =~= normals_acc(vf_up_to(reg, grid, 0)));
            assert(g@.uvs =~= uvs_acc(reg, grid, atlas, vf_up_to(reg, grid, 0)));
            assert(g@.indices =~= indices_acc(vf_up_to(reg, grid, 0)));
        }

        let faces: [ChunkFace; 6] = [
            ChunkFace::Left,
            ChunkFace::Bottom,
            ChunkFace::Front,
            ChunkFace::Right,
            ChunkFace::Top,
            ChunkFace::Back,
        ];
        for d in 0..6
            invariant
                self.wf(),
                texture_atlas.wf(),
                grid == self.blocks@,
                reg == blocks@,
                atlas == texture_atlas@,
                ids_resolve(reg, grid),
                forall|k: int| 0 <= k < 6 ==> faces@[k] == dir_face(k),
                g@.positions == positions_acc(vf_up_to(reg, grid, d as int)),
                g@.normals == normals_acc(vf_up_to(reg, grid, d as int)),
                g@.uvs == uvs_acc(reg, grid, atlas, vf_up_to(reg, grid, d as int)),
                g@.indices == indices_acc(vf_up_to(reg, grid, d as int)),
                g@.uv_denom_u == atlas.size_x as u64,
                g@.uv_denom_v == (6 * (atlas.size_y as int)) as u64,
                forall|d2: int, j2: int|
                    0 <= d2 < d && 0 <= j2 < INTERIOR_VOLUME && #[trigger] face_visible(
                        reg,
                        grid,
                        j2,
                        dir_face(d2),
                    ) ==> tex_resolvable(reg, grid, atlas, j2),
        {
            let f = faces[d];
            let ghost pre = vf_up_to(reg, grid, d as int);
            proof {
                assert(pre + scan(reg, grid, f, 0) =~= pre);
            }
            for j in 0..INTERIOR_VOLUME
                invariant
                    self.wf(),
                    texture_atlas.wf(),
                    grid == self.blocks@,
                    reg == blocks@,
                    atlas == texture_atlas@,
                    ids_resolve(reg, grid),
                    0 <= d < 6,
                    f == dir_face(d as int),
                    pre == vf_up_to(reg, grid, d as int),
                    g@.positions == positions_acc(pre + scan(reg, grid, f, j as int)),
                    g@.normals == normals_acc(pre + scan(reg, grid, f, j as int)),
                    g@.uvs == uvs_acc(reg, grid, atlas, pre + scan(reg, grid, f, j as int)),
                    g@.indices == indices_acc(pre + scan(reg, grid, f, j as int)),
                    g@.uv_denom_u == atlas.size_x as u64,
                    g@.uv_denom_v == (6 * (atlas.size_y as int)) as u64,
                    forall|d2: int, j2: int|
                        0 <= d2 < d && 0 <= j2 < INTERIOR_VOLUME && #[trigger] face_visible(
                            reg,
                            grid,
                            j2,
                            dir_face(d2),
                        ) ==> tex_resolvable(reg, grid, atlas, j2),
                    forall|j2: int|
                        0 <= j2 < j && #[trigger] face_visible(reg, grid, j2, f)
                            ==> tex_resolvable(reg, grid, atlas, j2),
            {
                let x: usize = 1 + (j % 16);
                let y: usize = 1 + ((j / 16) % 16);
                let z: usize = 1 + (j / 256);
                proof {
                    assert((x as int, y as int, z as int) == interior_coord(j as int));
                }
                let i_lin = linearize(x, y, z);
                let (nx, ny, nz): (usize, usize, usize) = match f {
                    ChunkFace::Left => (x - 1, y, z),
                    ChunkFace::Right => (x + 1, y, z),
                    ChunkFace::Bottom => (x, y - 1, z),
                    ChunkFace::Top => (x, y + 1, z),
                    ChunkFace::Front => (x, y, z - 1),
                    ChunkFace::Back => (x, y, z + 1),
                };
                let n_lin = linearize(nx, ny, nz);
                let b = match blocks.get(self.blocks[i_lin]) {
                    Some(b) => b,
                    None => unreached(),
                };
                let vis = b.get_voxel_visibility();
                let nb = match blocks.get(self.blocks[n_lin]) {
                    Some(nb) => nb,
                    None => unreached(),
                };
                let nvis = nb.get_voxel_visibility();
                let visible = !matches!(vis, VoxelVisibility::Empty) && matches!(
                    nvis,
                    VoxelVisibility::Empty,
                );
                proof {
                    assert(visible == face_visible(reg, grid, j as int, f));
                }
                if visible {
                    let t = match b.voxel_texture() {
                        Some(t) => t,
                        None => {
                            proof {
                                assert(!tex_resolvable(reg, grid, atlas, j as int));
                                assert(!textures_resolve(reg, grid, atlas));
                            }
                            return Err(ChunkError::UnresolvedAsset);
                        },
                    };
                    let ti = match texture_atlas.get_texture_index(t) {
                        Some(ti) => ti,
                        None => {
                            proof {
                                assert(!tex_resolvable(reg, grid, atlas, j as int));
                                assert(!textures_resolve(reg, grid, atlas));
                            }
                            return Err(ChunkError::UnresolvedAsset);
                        },
                    };
                    let rect = texture_atlas.rect_at(ti);
                    proof {
                        assert(rect == quad_rect(reg, grid, atlas, j as int));
                        assert(rect_wf(rect));
                        lemma_vf_len_bound(reg, grid, d as int);
                        lemma_scan_len_bound(reg, grid, f, j as int);
                        lemma_acc_lens(reg, grid, atlas, pre + scan(reg, grid, f, j as int));
                    }
                    emit_quad(&mut g, x, y, z, f, rect);
                    proof {
                        let s = pre + scan(reg, grid, f, j as int);
                        lemma_acc_push(reg, grid, atlas, s, j as int, f);
                        assert(s.push((j as int, f)) =~= pre + scan(reg, grid, f, j as int + 1));
                        vstd::arithmetic::div_mod::lemma_div_multiples_vanish(s.len() as int, 12);
                        assert(tex_resolvable(reg, grid, atlas, j as int));
                    }
                } else {
                    proof {
                        assert(scan(reg, grid, f, j as int + 1) == scan(reg, grid, f, j as int));
                    }
                }
            }
            proof {
                assert(vf_up_to(reg, grid, d as int + 1) == pre + scan(
                    reg,
                    grid,
                    f,
                    INTERIOR_VOLUME as int,
                ));
                assert forall|d2: int, j2: int|
                    0 <= d2 < d as int + 1 && 0 <= j2 < INTERIOR_VOLUME && #[trigger] face_visible(
                        reg,
                        grid,
                        j2,
                        dir_face(d2),
                    ) implies tex_resolvable(reg, grid, atlas, j2) by {
                    if d2 == d as int {
                        assert(face_visible(reg, grid, j2, f));
                    }
                }
            }
        }
        proof {
            assert forall|j2: int, f2: ChunkFace|
                0 <= j2 < INTERIOR_VOLUME && #[trigger] face_visible(reg, grid, j2, f2)
                    implies tex_resolvable(reg, grid, atlas, j2) by {
                let d2: int = match f2 {
                    ChunkFace::Left => 0,
                    ChunkFace::Bottom => 1,
                    ChunkFace::Front => 2,
                    ChunkFace::Right => 3,
                    ChunkFace::Top => 4,
                    ChunkFace::Back => 5,
                };
                assert(dir_face(d2) == f2);
                assert(face_visible(reg, grid, j2, dir_face(d2)));
            }
            assert(chunk_resolves(reg, grid, atlas));
        }
        Ok(g)
    }
}

} // verus!
