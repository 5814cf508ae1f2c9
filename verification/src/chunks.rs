//! The chunk world: the position-to-chunk registry and its
//! orchestration.
//!
//! A [`Chunks`] value owns every loaded chunk together with its
//! generated mesh, keyed by lattice position (keys unique, order
//! irrelevant). It inserts chunks, looks neighbours up, runs the
//! bidirectional border synchronization, and propagates block edits.
//!
//! Synchronization of a position works face by face, in the order
//! Front, Back, Top, Bottom, Right, Left. For each present neighbour
//! the boundary layers are exchanged symmetrically — the neighbour's
//! padding receives this chunk's own boundary layer as it stood when
//! the pass began, and this chunk's padding receives the neighbour's —
//! and the neighbour's mesh is regenerated once its layer is fully
//! copied. After all six faces, this chunk's own mesh is regenerated
//! exactly once. The pass is strictly one-hop: a neighbour's own
//! neighbours are never touched.

use vstd::prelude::*;

use crate::ChunkError;
use crate::IVec3;
use crate::atlas::AtlasView;
use crate::atlas::TextureAtlasLayout;
use crate::block::Block;
use crate::block::BlockRegistry;
use crate::chunk::Chunk;
use crate::chunk::ChunkView;
use crate::chunk::LAYER_AREA;
use crate::chunk::copy_layer;
use crate::chunk::lemma_layer_coords;
use crate::chunk::lemma_pad_cell_slot;
use crate::chunk::other_index;
use crate::chunk::own_index;
use crate::face::ChunkFace;
use crate::face::Opposite;
use crate::face::face_offset;
use crate::face::in_pad_layer;
use crate::face::layer_slot;
use crate::face::mirror_coord;
use crate::face::other_layer_coord;
use crate::face::own_layer_coord;
use crate::grid::PADDED_VOLUME;
use crate::grid::coord_of;
use crate::grid::lin;
use crate::mesh::Geometry;
use crate::mesh::GeometryView;
use crate::mesh::chunk_resolves;
use crate::mesh::mesh_spec;
use vstd::arithmetic::div_mod::lemma_fundamental_div_mod;

verus! {

/// A chunk together with its generated mesh, as the world stores it.
#[derive(Debug)]
pub struct ChunkEntity {
    pub chunk: Chunk,
    pub mesh: Geometry,
}

/// Specification view of a [`ChunkEntity`].
pub struct EntityView {
    pub chunk: ChunkView,
    pub mesh: GeometryView,
}

impl View for ChunkEntity {
    type V = EntityView;

    open spec fn view(&self) -> EntityView {
        EntityView { chunk: self.chunk@, mesh: self.mesh@ }
    }
}

/// Whether the keys of an entry sequence are pairwise distinct.
pub open spec fn keys_unique(s: Seq<(IVec3, ChunkEntity)>) -> bool {
    forall|i: int, j: int| 0 <= i < j < s.len() ==> (#[trigger] s[i]).0 != (#[trigger] s[j]).0
}

/// The position-to-entity map that an entry sequence denotes; a later
/// entry overrides an earlier one with the same key.
pub open spec fn entries_map(s: Seq<(IVec3, ChunkEntity)>) -> Map<IVec3, EntityView>
    decreases s.len(),
{
    if s.len() == 0 {
        Map::empty()
    } else {
        entries_map(s.drop_last()).insert(s.last().0, s.last().1@)
    }
}

/// With unique keys, entry `k` is in the map under its key.
proof fn lemma_entries_map_at(s: Seq<(IVec3, ChunkEntity)>, k: int)
    requires
        keys_unique(s),
        0 <= k < s.len(),
    ensures
        entries_map(s).dom().contains(s[k].0),
        entries_map(s)[s[k].0] == s[k].1@,
    decreases s.len(),
{
    if k < s.len() - 1 {
        lemma_entries_map_at(s.drop_last(), k);
    }
}

/// A key carried by no entry is not in the map.
proof fn lemma_entries_map_absent(s: Seq<(IVec3, ChunkEntity)>, p: IVec3)
    requires
        forall|k: int| 0 <= k < s.len() ==> (#[trigger] s[k]).0 != p,
    ensures
        !entries_map(s).dom().contains(p),
    decreases s.len(),
{
    if s.len() > 0 {
        lemma_entries_map_absent(s.drop_last(), p);
    }
}

/// Replacing the entity of entry `k` updates its key's mapping and
/// nothing else.
proof fn lemma_entries_map_update(s: Seq<(IVec3, ChunkEntity)>, k: int, e: ChunkEntity)
    requires
        keys_unique(s),
        0 <= k < s.len(),
    ensures
        entries_map(s.update(k, (s[k].0, e))) == entries_map(s).insert(s[k].0, e@),
    decreases s.len(),
{
    let t = s.update(k, (s[k].0, e));
    if k == s.len() - 1 {
        assert(t.drop_last() =~= s.drop_last());
        assert(entries_map(t) == entries_map(s.drop_last()).insert(s[k].0, e@));
        assert(entries_map(s.drop_last()).insert(s[k].0, s[k].1@).insert(s[k].0, e@)
            =~= entries_map(s.drop_last()).insert(s[k].0, e@));
    } else {
        assert(t.drop_last() =~= s.drop_last().update(k, (s[k].0, e)));
        lemma_entries_map_update(s.drop_last(), k, e);
        assert(t.last() == s.last());
        assert(s[k].0 != s.last().0);
        assert(entries_map(s.drop_last()).insert(s[k].0, e@).insert(s.last().0, s.last().1@)
            =~= entries_map(s.drop_last()).insert(s.last().0, s.last().1@).insert(s[k].0, e@));
    }
}

/// Whether every neighbour position of `p` stays within the lattice
/// coordinate range.
pub open spec fn pos_in_bounds(p: IVec3) -> bool {
    &&& i32::MIN < p.x < i32::MAX
    &&& i32::MIN < p.y < i32::MAX
    &&& i32::MIN < p.z < i32::MAX
}

/// Lattice position of the neighbour behind face `f` of `p`.
pub open spec fn nbr_pos(p: IVec3, f: ChunkFace) -> IVec3 {
    let (dx, dy, dz) = face_offset(f);
    IVec3 { x: (p.x + dx) as i32, y: (p.y + dy) as i32, z: (p.z + dz) as i32 }
}

/// The chunk representation of the world: every loaded chunk and its
/// mesh, keyed by lattice position.
pub struct Chunks {
    entries: Vec<(IVec3, ChunkEntity)>,
}

impl View for Chunks {
    type V = Map<IVec3, EntityView>;

    closed spec fn view(&self) -> Map<IVec3, EntityView> {
        entries_map(self.entries@)
    }
}

impl Chunks {
    /// Whether the registry is well formed: keys are unique and every
    /// stored chunk has a full padded grid.
    pub closed spec fn wf(&self) -> bool {
        &&& keys_unique(self.entries@)
        &&& forall|k: int|
            0 <= k < self.entries@.len() ==> (#[trigger] self.entries@[k]).1.chunk.wf()
    }

    /// An empty world.
    pub fn new() -> (r: Chunks)
        ensures
            r.wf(),
            r@ == Map::<IVec3, EntityView>::empty(),
    {
        let r = Chunks { entries: Vec::new() };
        r
    }
}

impl Default for Chunks {
    /// The default world is empty.
    fn default() -> (r: Chunks)
        ensures
            r.wf(),
            r@ == Map::<IVec3, EntityView>::empty(),
    {
        Chunks::new()
    }
}

impl Chunks {
    /// Index of the entry at `position`, if one is registered.
    fn find(&self, position: IVec3) -> (r: Option<usize>)
        requires
            self.wf(),
        ensures
            match r {
                Some(k) => {
                    &&& k < self.entries@.len()
                    &&& self.entries@[k as int].0 == position
                    &&& self@.dom().contains(position)
                    &&& self.entries@[k as int].1@ == self@[position]
                },
                None => {
                    &&& !self@.dom().contains(position)
                    &&& forall|k: int|
                        0 <= k < self.entries@.len() ==> (#[trigger] self.entries@[k]).0
                            != position
                },
            },
    {
        let n = self.entries.len();
        for k in 0..n
            invariant
                self.wf(),
                n == self.entries@.len(),
                forall|k2: int| 0 <= k2 < k ==> (#[trigger] self.entries@[k2]).0 != position,
        {
            if self.entries[k].0 == position {
                proof {
                    lemma_entries_map_at(self.entries@, k as int);
                }
                return Some(k);
            }
        }
        proof {
            lemma_entries_map_absent(self.entries@, position);
        }
        None
    }

    /// The entity registered at a lattice position.
    pub fn get(&self, position: IVec3) -> (r: Option<&ChunkEntity>)
        requires
            self.wf(),
        ensures
            match r {
                Some(e) => self@.dom().contains(position) && e@ == self@[position],
                None => !self@.dom().contains(position),
            },
    {
        match self.find(position) {
            Some(k) => Some(&self.entries[k].1),
            None => None,
        }
    }

    /// The registered chunk behind face `neighbour` of `position`, or
    /// `None` if no chunk is registered there — expected, not an
    /// error, during incremental load.
    pub fn get_neighbour(&self, position: IVec3, neighbour: ChunkFace) -> (r: Option<&ChunkEntity>)
        requires
            self.wf(),
            pos_in_bounds(position),
        ensures
            match r {
                Some(e) => {
                    &&& self@.dom().contains(nbr_pos(position, neighbour))
                    &&& e@ == self@[nbr_pos(position, neighbour)]
                },
                None => !self@.dom().contains(nbr_pos(position, neighbour)),
            },
    {
        let np = neighbour_position(position, neighbour);
        match self.find(np) {
            Some(k) => Some(&self.entries[k].1),
            None => None,
        }
    }

    /// Registers a chunk at a lattice position and generates its mesh
    /// from the grid as it stands — the shell is not final until a
    /// synchronization pass runs. Inserting at an occupied position
    /// overwrites: last write wins.
    ///
    /// Fails with [`ChunkError::UnresolvedAsset`], leaving the world
    /// unchanged, exactly when the chunk does not resolve against the
    /// registry and atlas.
    pub fn insert_chunk(
        &mut self,
        chunk: Chunk,
        position: IVec3,
        texture_atlas: &TextureAtlasLayout,
        blocks: &BlockRegistry,
    ) -> (r: Result<(), ChunkError>)
        requires
            old(self).wf(),
            chunk.wf(),
            texture_atlas.wf(),
        ensures
            final(self).wf(),
            r is Ok <==> chunk_resolves(blocks@, chunk.blocks@, texture_atlas@),
            r matches Err(e) ==> e == ChunkError::UnresolvedAsset && final(self)@ == old(self)@,
            r is Ok ==> final(self)@ == old(self)@.insert(
                position,
                EntityView {
                    chunk: chunk@,
                    mesh: mesh_spec(blocks@, chunk.blocks@, texture_atlas@),
                },
            ),
    {
        let mesh = match chunk.gen_geometry(texture_atlas, blocks) {
            Ok(m) => m,
            Err(e) => {
                return Err(e);
            },
        };
        let ghost s0 = self.entries@;
        match self.find(position) {
            Some(k) => {
                let entity = ChunkEntity { chunk, mesh };
                self.entries[k] = (position, entity);
                proof {
                    let e = self.entries@[k as int].1;
                    lemma_entries_map_update(s0, k as int, e);
                    assert(self.entries@ =~= s0.update(k as int, (s0[k as int].0, e)));
                    assert forall|i: int, j: int|
                        0 <= i < j < self.entries@.len() implies (#[trigger] self.entries@[i]).0
                        != (#[trigger] self.entries@[j]).0 by {
                        assert(s0[i].0 != s0[j].0);
                    }
                }
            },
            None => {
                self.entries.push((position, ChunkEntity { chunk, mesh }));
                proof {
                    assert(self.entries@.drop_last() =~= s0);
                    assert forall|i: int, j: int|
                        0 <= i < j < self.entries@.len() implies (#[trigger] self.entries@[i]).0
                        != (#[trigger] self.entries@[j]).0 by {
                        if j < s0.len() {
                            assert(s0[i].0 != s0[j].0);
                        } else {
                            assert(s0[i].0 != position);
                        }
                    }
                }
            },
        }
        Ok(())
    }
}

/// The face the synchronization pass processes at step `s`.
pub open spec fn proc_face(s: int) -> ChunkFace {
    if s == 0 {
        ChunkFace::Front
    } else if s == 1 {
        ChunkFace::Back
    } else if s == 2 {
        ChunkFace::Top
    } else if s == 3 {
        ChunkFace::Bottom
    } else if s == 4 {
        ChunkFace::Right
    } else {
        ChunkFace::Left
    }
}

/// Whether a chunk is registered behind face `f` of `p`.
pub open spec fn nbr_present(w: Map<IVec3, EntityView>, p: IVec3, f: ChunkFace) -> bool {
    w.dom().contains(nbr_pos(p, f))
}

/// A neighbour's grid after the exchange with the centre chunk along
/// the centre's face `f`: the neighbour's padding layer towards the
/// centre mirrors the centre's own boundary layer; every other cell
/// keeps its value.
pub open spec fn synced_neighbour_blocks(centre: Seq<u32>, nbr: Seq<u32>, f: ChunkFace) -> Seq<
    u32,
> {
    Seq::new(
        PADDED_VOLUME as nat,
        |i: int|
            {
                let (x, y, z) = coord_of(i);
                let g = f.spec_opposite();
                if in_pad_layer(g, x, y, z) {
                    let (mx, my, mz) = mirror_coord(g, x, y, z);
                    centre[lin(mx, my, mz)]
                } else {
                    nbr[i]
                }
            },
    )
}

/// A cell of the centre chunk after the first `s` faces of the pass:
/// a padding cell mirrors the latest-processed present neighbour
/// whose layer covers it; every other cell keeps its value.
pub open spec fn synced_centre_cell(w: Map<IVec3, EntityView>, p: IVec3, i: int, s: int) -> u32 {
    let (x, y, z) = coord_of(i);
    if 5 < s && nbr_present(w, p, ChunkFace::Left) && x == 0 {
        w[nbr_pos(p, ChunkFace::Left)].chunk.blocks[lin(16, y, z)]
    } else if 4 < s && nbr_present(w, p, ChunkFace::Right) && x == 17 {
        w[nbr_pos(p, ChunkFace::Right)].chunk.blocks[lin(1, y, z)]
    } else if 3 < s && nbr_present(w, p, ChunkFace::Bottom) && y == 0 {
        w[nbr_pos(p, ChunkFace::Bottom)].chunk.blocks[lin(x, 16, z)]
    } else if 2 < s && nbr_present(w, p, ChunkFace::Top) && y == 17 {
        w[nbr_pos(p, ChunkFace::Top)].chunk.blocks[lin(x, 1, z)]
    } else if 1 < s && nbr_present(w, p, ChunkFace::Back) && z == 17 {
        w[nbr_pos(p, ChunkFace::Back)].chunk.blocks[lin(x, y, 1)]
    } else if 0 < s && nbr_present(w, p, ChunkFace::Front) && z == 0 {
        w[nbr_pos(p, ChunkFace::Front)].chunk.blocks[lin(x, y, 16)]
    } else {
        w[p].chunk.blocks[i]
    }
}

/// The centre chunk's grid after the first `s` faces of the pass.
pub open spec fn synced_centre_blocks(w: Map<IVec3, EntityView>, p: IVec3, s: int) -> Seq<u32> {
    Seq::new(PADDED_VOLUME as nat, |i: int| synced_centre_cell(w, p, i, s))
}

/// The grid of the neighbour processed at step `s`, after its
/// exchange with the centre.
pub open spec fn nbr_new_blocks(w: Map<IVec3, EntityView>, p: IVec3, s: int) -> Seq<u32> {
    synced_neighbour_blocks(
        w[p].chunk.blocks,
        w[nbr_pos(p, proc_face(s))].chunk.blocks,
        proc_face(s),
    )
}

/// The neighbour processed at step `s`, after its exchange and mesh
/// regeneration.
pub open spec fn nbr_new_entity(
    w: Map<IVec3, EntityView>,
    p: IVec3,
    reg: Seq<Block>,
    atlas: AtlasView,
    s: int,
) -> EntityView {
    let nb = nbr_new_blocks(w, p, s);
    EntityView {
        chunk: ChunkView { blocks: nb, position: w[nbr_pos(p, proc_face(s))].chunk.position },
        mesh: mesh_spec(reg, nb, atlas),
    }
}

/// The centre chunk after the whole pass: its padding synchronized
/// with all present neighbours and its mesh regenerated.
pub open spec fn centre_new_entity(
    w: Map<IVec3, EntityView>,
    p: IVec3,
    reg: Seq<Block>,
    atlas: AtlasView,
) -> EntityView {
    let cb = synced_centre_blocks(w, p, 6);
    EntityView {
        chunk: ChunkView { blocks: cb, position: w[p].chunk.position },
        mesh: mesh_spec(reg, cb, atlas),
    }
}

/// The world after the first `s` publications of a synchronization
/// pass at `p`: steps 0 through 5 publish the present neighbours in
/// face order, step 6 publishes the centre.
pub open spec fn sync_steps(
    w: Map<IVec3, EntityView>,
    p: IVec3,
    reg: Seq<Block>,
    atlas: AtlasView,
    s: int,
) -> Map<IVec3, EntityView>
    decreases s,
{
    if s <= 0 {
        w
    } else {
        let m = sync_steps(w, p, reg, atlas, s - 1);
        if s - 1 < 6 {
            if nbr_present(w, p, proc_face(s - 1)) {
                m.insert(nbr_pos(p, proc_face(s - 1)), nbr_new_entity(w, p, reg, atlas, s - 1))
            } else {
                m
            }
        } else {
            m.insert(p, centre_new_entity(w, p, reg, atlas))
        }
    }
}

/// Whether publication step `s` resolves: an absent neighbour does
/// trivially; a present one, or the centre at step 6, exactly when
/// its synchronized grid resolves against registry and atlas.
pub open spec fn slot_resolves(
    w: Map<IVec3, EntityView>,
    p: IVec3,
    reg: Seq<Block>,
    atlas: AtlasView,
    s: int,
) -> bool {
    if s < 6 {
        !nbr_present(w, p, proc_face(s)) || chunk_resolves(reg, nbr_new_blocks(w, p, s), atlas)
    } else {
        chunk_resolves(reg, synced_centre_blocks(w, p, 6), atlas)
    }
}

/// The first step from `s` on that fails to resolve; 7 when the whole
/// pass resolves.
pub open spec fn first_unresolved_from(
    w: Map<IVec3, EntityView>,
    p: IVec3,
    reg: Seq<Block>,
    atlas: AtlasView,
    s: int,
) -> int
    decreases 7 - s,
{
    if s >= 7 {
        7
    } else if !slot_resolves(w, p, reg, atlas, s) {
        s
    } else {
        first_unresolved_from(w, p, reg, atlas, s + 1)
    }
}

/// The first publication step of a pass at `p` that fails to resolve;
/// 7 when the whole pass resolves.
pub open spec fn first_unresolved(
    w: Map<IVec3, EntityView>,
    p: IVec3,
    reg: Seq<Block>,
    atlas: AtlasView,
) -> int {
    first_unresolved_from(w, p, reg, atlas, 0)
}

/// If the first `s` steps resolve and step `s` does not — or `s` is
/// 7 — then `s` is the first unresolved step.
proof fn lemma_first_unresolved_at(
    w: Map<IVec3, EntityView>,
    p: IVec3,
    reg: Seq<Block>,
    atlas: AtlasView,
    s: int,
    t: int,
)
    requires
        0 <= t <= s <= 7,
        forall|s2: int| 0 <= s2 < s ==> slot_resolves(w, p, reg, atlas, s2),
        s < 7 ==> !slot_resolves(w, p, reg, atlas, s),
    ensures
        first_unresolved_from(w, p, reg, atlas, t) == s,
    decreases s - t,
{
    if t < s {
        lemma_first_unresolved_at(w, p, reg, atlas, s, t + 1);
    }
}

/// The six neighbour positions of `p` are pairwise distinct and
/// distinct from `p`.
proof fn lemma_nbr_pos_distinct(p: IVec3)
    requires
        pos_in_bounds(p),
    ensures
        forall|f1: ChunkFace, f2: ChunkFace|
            f1 != f2 ==> #[trigger] nbr_pos(p, f1) != #[trigger] nbr_pos(p, f2),
        forall|f: ChunkFace| #[trigger] nbr_pos(p, f) != p,
{
}

/// A synchronization pass keeps the set of registered positions.
proof fn lemma_sync_steps_dom(
    w: Map<IVec3, EntityView>,
    p: IVec3,
    reg: Seq<Block>,
    atlas: AtlasView,
    s: int,
)
    requires
        w.dom().contains(p),
    ensures
        sync_steps(w, p, reg, atlas, s).dom() == w.dom(),
    decreases s,
{
    if s > 0 {
        lemma_sync_steps_dom(w, p, reg, atlas, s - 1);
        assert(sync_steps(w, p, reg, atlas, s).dom() =~= w.dom());
    }
}

/// A position that no published step touches keeps its entry.
proof fn lemma_sync_steps_untouched(
    w: Map<IVec3, EntityView>,
    p: IVec3,
    reg: Seq<Block>,
    atlas: AtlasView,
    s: int,
    q: IVec3,
)
    requires
        w.dom().contains(p),
        q != p,
        forall|s2: int| 0 <= s2 < s && s2 < 6 ==> q != nbr_pos(p, #[trigger] proc_face(s2)),
    ensures
        w.dom().contains(q) ==> sync_steps(w, p, reg, atlas, s)[q] == w[q],
    decreases s,
{
    if s > 0 {
        lemma_sync_steps_untouched(w, p, reg, atlas, s - 1, q);
    }
}

/// A layer copy into a neighbour's padding towards the centre yields
/// exactly the synchronized neighbour grid.
proof fn lemma_nbr_step(centre: Seq<u32>, nbr_before: Seq<u32>, nbr_after: Seq<u32>, f: ChunkFace)
    requires
        nbr_before.len() == PADDED_VOLUME,
        nbr_after.len() == PADDED_VOLUME,
        forall|k: int|
            0 <= k < LAYER_AREA ==> nbr_after[#[trigger] other_index(f.spec_opposite(), k)]
                == centre[own_index(f, k)],
        forall|i: int|
            0 <= i < PADDED_VOLUME && !in_pad_layer(
                f.spec_opposite(),
                coord_of(i).0,
                coord_of(i).1,
                coord_of(i).2,
            ) ==> nbr_after[i] == nbr_before[i],
    ensures
        nbr_after =~= synced_neighbour_blocks(centre, nbr_before, f),
{
    let g = f.spec_opposite();
    assert forall|i: int| 0 <= i < PADDED_VOLUME implies nbr_after[i]
        == synced_neighbour_blocks(centre, nbr_before, f)[i] by {
        let (x, y, z) = coord_of(i);
        if in_pad_layer(g, x, y, z) {
            lemma_pad_cell_slot(g, i);
            let k = layer_slot(g, x, y, z);
            lemma_layer_coords(g, k);
            assert(f.spec_opposite().spec_opposite() == f);
        }
    }
}

/// A layer copy into the centre's padding towards face `proc_face(s)`
/// advances the centre grid from step `s` to step `s + 1` of the
/// pass.
#[verifier::rlimit(50)]
proof fn lemma_centre_step(
    w: Map<IVec3, EntityView>,
    p: IVec3,
    s: int,
    own_after: Seq<u32>,
    nbr_after: Seq<u32>,
)
    requires
        0 <= s < 6,
        w.dom().contains(p),
        nbr_present(w, p, proc_face(s)),
        own_after.len() == PADDED_VOLUME,
        nbr_after.len() == PADDED_VOLUME,
        forall|k: int|
            0 <= k < LAYER_AREA ==> own_after[#[trigger] other_index(proc_face(s), k)]
                == nbr_after[own_index(proc_face(s).spec_opposite(), k)],
        forall|i: int|
            0 <= i < PADDED_VOLUME && !in_pad_layer(
                proc_face(s),
                coord_of(i).0,
                coord_of(i).1,
                coord_of(i).2,
            ) ==> own_after[i] == synced_centre_blocks(w, p, s)[i],
        forall|i: int|
            0 <= i < PADDED_VOLUME && !in_pad_layer(
                proc_face(s).spec_opposite(),
                coord_of(i).0,
                coord_of(i).1,
                coord_of(i).2,
            ) ==> nbr_after[i] == w[nbr_pos(p, proc_face(s))].chunk.blocks[i],
    ensures
        own_after =~= synced_centre_blocks(w, p, s + 1),
{
    let f = proc_face(s);
    let g = f.spec_opposite();
    assert forall|i: int| 0 <= i < PADDED_VOLUME implies own_after[i]
        == synced_centre_blocks(w, p, s + 1)[i] by {
        let (x, y, z) = coord_of(i);
        if in_pad_layer(f, x, y, z) {
            lemma_pad_cell_slot(f, i);
            let k = layer_slot(f, x, y, z);
            lemma_layer_coords(f, k);
            lemma_layer_coords(g, k);
            assert(own_after[i] == nbr_after[own_index(g, k)]);
            assert(nbr_after[own_index(g, k)] == w[nbr_pos(p, f)].chunk.blocks[own_index(g, k)]);
            assert(g.spec_opposite() == f);
            assert(own_index(g, k) == lin(
                mirror_coord(f, x, y, z).0,
                mirror_coord(f, x, y, z).1,
                mirror_coord(f, x, y, z).2,
            ));
        } else {
            assert(own_after[i] == synced_centre_cell(w, p, i, s));
        }
    }
}

impl Chunks {
    /// Runs the border synchronization pass at `position` and
    /// regenerates the affected meshes: for each present neighbour,
    /// in face order, the boundary layers are exchanged both ways and
    /// the neighbour's mesh regenerated once; afterwards the centre
    /// chunk's own mesh is regenerated exactly once.
    ///
    /// Fails with [`ChunkError::ChunkNotFound`], leaving the world
    /// unchanged, exactly when no chunk is registered at `position`.
    /// Fails with [`ChunkError::UnresolvedAsset`] when a regenerated
    /// grid does not resolve; neighbours published before the failing
    /// step keep their new state, everything else — every chunk's
    /// authoritative interior included — is unchanged.
    pub fn regenerate_chunk_at(
        &mut self,
        position: IVec3,
        texture_atlas_layout: &TextureAtlasLayout,
        blocks: &BlockRegistry,
    ) -> (r: Result<(), ChunkError>)
        requires
            old(self).wf(),
            texture_atlas_layout.wf(),
            pos_in_bounds(position),
        ensures
            final(self).wf(),
            !old(self)@.dom().contains(position) ==> r == Err::<(), ChunkError>(
                ChunkError::ChunkNotFound,
            ) && final(self)@ == old(self)@,
            old(self)@.dom().contains(position) ==> {
                let ff = first_unresolved(old(self)@, position, blocks@, texture_atlas_layout@);
                &&& final(self)@ == sync_steps(
                    old(self)@,
                    position,
                    blocks@,
                    texture_atlas_layout@,
                    ff,
                )
                &&& (r is Ok <==> ff == 7)
                &&& (ff < 7 ==> r == Err::<(), ChunkError>(ChunkError::UnresolvedAsset))
            },
    {
        let ghost w0 = self@;
        let ghost reg = blocks@;
        let ghost atlas = texture_atlas_layout@;

        let idx = match self.find(position) {
            Some(k) => k,
            None => {
                return Err(ChunkError::ChunkNotFound);
            },
        };
        let mut own = self.entries[idx].1.chunk.clone();
        let snapshot = own.clone();
        proof {
            assert(own@ == w0[position].chunk);
            assert(synced_centre_blocks(w0, position, 0) =~= w0[position].chunk.blocks);
            lemma_nbr_pos_distinct(position);
        }

        let faces: [ChunkFace; 6] = [
            ChunkFace::Front,
            ChunkFace::Back,
            ChunkFace::Top,
            ChunkFace::Bottom,
            ChunkFace::Right,
            ChunkFace::Left,
        ];
        for s in 0..6
            invariant
                texture_atlas_layout.wf(),
                pos_in_bounds(position),
                reg == blocks@,
                atlas == texture_atlas_layout@,
                w0 == old(self)@,
                w0.dom().contains(position),
                w0[position].chunk.blocks.len() == PADDED_VOLUME,
                forall|k: int| 0 <= k < 6 ==> faces@[k] == proc_face(k),
                self.wf(),
                self@ == sync_steps(w0, position, reg, atlas, s as int),
                own.wf(),
                own.blocks@ == synced_centre_blocks(w0, position, s as int),
                own.position == w0[position].chunk.position,
                snapshot.wf(),
                snapshot@ == w0[position].chunk,
                forall|s2: int| 0 <= s2 < s ==> slot_resolves(w0, position, reg, atlas, s2),
        {
            let f = faces[s];
            proof {
                assert(f == proc_face(s as int));
                lemma_nbr_pos_distinct(position);
                lemma_sync_steps_dom(w0, position, reg, atlas, s as int);
            }
            let np = neighbour_position(position, f);
            match self.find(np) {
                Some(nk) => {
                    proof {
                        lemma_sync_steps_untouched(w0, position, reg, atlas, s as int, np);
                        assert(self@[np] == w0[np]);
                    }
                    let mut nbr_chunk = self.entries[nk].1.chunk.clone();
                    let ghost nbr_before = nbr_chunk.blocks@;
                    let g_face = f.opposite();
                    copy_layer(&mut nbr_chunk.blocks, g_face, &snapshot.blocks, f);
                    proof {
                        lemma_nbr_step(
                            w0[position].chunk.blocks,
                            nbr_before,
                            nbr_chunk.blocks@,
                            f,
                        );
                        assert(nbr_chunk.blocks@ == nbr_new_blocks(w0, position, s as int));
                    }
                    let ghost own_before = own.blocks@;
                    copy_layer(&mut own.blocks, f, &nbr_chunk.blocks, g_face);
                    proof {
                        lemma_centre_step(
                            w0,
                            position,
                            s as int,
                            own.blocks@,
                            nbr_chunk.blocks@,
                        );
                        assert(own.blocks@ =~= synced_centre_blocks(w0, position, s as int + 1));
                    }
                    match nbr_chunk.gen_geometry(texture_atlas_layout, blocks) {
                        Ok(m) => {
                            let ghost s0 = self.entries@;
                            let ghost nbv = nbr_chunk.blocks@;
                            let ghost nbp = nbr_chunk.position;
                            self.entries[nk] = (np, ChunkEntity { chunk: nbr_chunk, mesh: m });
                            proof {
                                let e = self.entries@[nk as int].1;
                                lemma_entries_map_update(s0, nk as int, e);
                                assert(self.entries@ =~= s0.update(
                                    nk as int,
                                    (s0[nk as int].0, e),
                                ));
                                assert(e@ == nbr_new_entity(w0, position, reg, atlas, s as int));
                                assert(self@ == sync_steps(w0, position, reg, atlas, s as int + 1));
                                assert forall|i: int, j: int|
                                    0 <= i < j < self.entries@.len() implies (
                                #[trigger] self.entries@[i]).0 != (#[trigger] self.entries@[j]).0 by {
                                    assert(s0[i].0 != s0[j].0);
                                }
                                assert forall|k: int|
                                    0 <= k < self.entries@.len() implies (
                                #[trigger] self.entries@[k]).1.chunk.wf() by {
                                    if k != nk as int {
                                        assert(s0[k].1.chunk.wf());
                                    }
                                }
                            }
                        },
                        Err(_) => {
                            proof {
                                assert(!slot_resolves(w0, position, reg, atlas, s as int));
                                lemma_first_unresolved_at(
                                    w0,
                                    position,
                                    reg,
                                    atlas,
                                    s as int,
                                    0,
                                );
                            }
                            return Err(ChunkError::UnresolvedAsset);
                        },
                    }
                },
                None => {
                    proof {
                        assert(!nbr_present(w0, position, f));
                        assert forall|i: int| 0 <= i < PADDED_VOLUME implies synced_centre_cell(
                            w0,
                            position,
                            i,
                            s as int + 1,
                        ) == synced_centre_cell(w0, position, i, s as int) by {}
                        assert(synced_centre_blocks(w0, position, s as int + 1)
                            =~= synced_centre_blocks(w0, position, s as int));
                        assert(sync_steps(w0, position, reg, atlas, s as int + 1) == sync_steps(
                            w0,
                            position,
                            reg,
                            atlas,
                            s as int,
                        ));
                    }
                },
            }
        }

        match own.gen_geometry(texture_atlas_layout, blocks) {
            Ok(m) => {
                proof {
                    lemma_sync_steps_dom(w0, position, reg, atlas, 6);
                }
                let idx2 = match self.find(position) {
                    Some(k) => k,
                    None => vstd::pervasive::unreached(),
                };
                let ghost s0 = self.entries@;
                self.entries[idx2] = (position, ChunkEntity { chunk: own, mesh: m });
                proof {
                    let e = self.entries@[idx2 as int].1;
                    lemma_entries_map_update(s0, idx2 as int, e);
                    assert(self.entries@ =~= s0.update(idx2 as int, (s0[idx2 as int].0, e)));
                    assert(e@ == centre_new_entity(w0, position, reg, atlas));
                    assert(self@ == sync_steps(w0, position, reg, atlas, 7));
                    assert forall|i: int, j: int|
                        0 <= i < j < self.entries@.len() implies (
                    #[trigger] self.entries@[i]).0 != (#[trigger] self.entries@[j]).0 by {
                        assert(s0[i].0 != s0[j].0);
                    }
                    assert forall|k: int|
                        0 <= k < self.entries@.len() implies (
                    #[trigger] self.entries@[k]).1.chunk.wf() by {
                        if k != idx2 as int {
                            assert(s0[k].1.chunk.wf());
                        }
                    }
                    assert(slot_resolves(w0, position, reg, atlas, 6));
                    lemma_first_unresolved_at(w0, position, reg, atlas, 7, 0);
                }
                Ok(())
            },
            Err(_) => {
                proof {
                    assert(!slot_resolves(w0, position, reg, atlas, 6));
                    lemma_first_unresolved_at(w0, position, reg, atlas, 6, 0);
                }
                Err(ChunkError::UnresolvedAsset)
            },
        }
    }
}

impl Chunks {
    /// Registers a chunk and runs the synchronization pass for it, so
    /// that it and any already-present neighbours end with
    /// boundary-correct meshes. Registration precedes neighbour
    /// lookup.
    pub fn insert_chunk_and_regenerate(
        &mut self,
        chunk: Chunk,
        position: IVec3,
        texture_atlas: &TextureAtlasLayout,
        blocks: &BlockRegistry,
    ) -> (r: Result<(), ChunkError>)
        requires
            old(self).wf(),
            chunk.wf(),
            texture_atlas.wf(),
            pos_in_bounds(position),
        ensures
            final(self).wf(),
            !chunk_resolves(blocks@, chunk.blocks@, texture_atlas@) ==> r == Err::<
                (),
                ChunkError,
            >(ChunkError::UnresolvedAsset) && final(self)@ == old(self)@,
            chunk_resolves(blocks@, chunk.blocks@, texture_atlas@) ==> {
                let w1 = old(self)@.insert(
                    position,
                    EntityView {
                        chunk: chunk@,
                        mesh: mesh_spec(blocks@, chunk.blocks@, texture_atlas@),
                    },
                );
                let ff = first_unresolved(w1, position, blocks@, texture_atlas@);
                &&& final(self)@ == sync_steps(w1, position, blocks@, texture_atlas@, ff)
                &&& (r is Ok <==> ff == 7)
                &&& (ff < 7 ==> r == Err::<(), ChunkError>(ChunkError::UnresolvedAsset))
            },
    {
        match self.insert_chunk(chunk, position, texture_atlas, blocks) {
            Ok(()) => {},
            Err(e) => {
                return Err(e);
            },
        }
        self.regenerate_chunk_at(position, texture_atlas, blocks)
    }

    /// Replaces the interior voxel at a world voxel position — owning
    /// chunk by floor division, cell by remainder — and runs the full
    /// synchronization pass for the owning chunk, propagating the
    /// edit to any neighbour's padding and mesh.
    ///
    /// Fails with [`ChunkError::ChunkNotFound`], leaving the world
    /// unchanged, exactly when no chunk owns the position.
    pub fn set_block(
        &mut self,
        position: IVec3,
        block: u32,
        blocks: &BlockRegistry,
        texture_atlas_layout: &TextureAtlasLayout,
    ) -> (r: Result<(), ChunkError>)
        requires
            old(self).wf(),
            texture_atlas_layout.wf(),
        ensures
            final(self).wf(),
            !old(self)@.dom().contains(chunk_coord_of(position)) ==> r == Err::<
                (),
                ChunkError,
            >(ChunkError::ChunkNotFound) && final(self)@ == old(self)@,
            old(self)@.dom().contains(chunk_coord_of(position)) ==> {
                let cp = chunk_coord_of(position);
                let w1 = world_with_edit(old(self)@, cp, local_index_of(position), block);
                let ff = first_unresolved(w1, cp, blocks@, texture_atlas_layout@);
                &&& final(self)@ == sync_steps(w1, cp, blocks@, texture_atlas_layout@, ff)
                &&& (r is Ok <==> ff == 7)
                &&& (ff < 7 ==> r == Err::<(), ChunkError>(ChunkError::UnresolvedAsset))
            },
    {
        let ghost w0 = self@;
        let (qx, rx) = floor_div_rem_16(position.x);
        let (qy, ry) = floor_div_rem_16(position.y);
        let (qz, rz) = floor_div_rem_16(position.z);
        let chunk_coords = IVec3::new(qx, qy, qz);
        proof {
            assert(chunk_coords == chunk_coord_of(position));
        }
        let k = match self.find(chunk_coords) {
            Some(k) => k,
            None => {
                return Err(ChunkError::ChunkNotFound);
            },
        };
        let index = crate::grid::linearize(rx + 1, ry + 1, rz + 1);
        proof {
            assert(index == local_index_of(position));
        }
        let ghost s0 = self.entries@;
        self.entries[k].1.chunk.blocks[index] = block;
        proof {
            let e = self.entries@[k as int].1;
            lemma_entries_map_update(s0, k as int, e);
            assert(self.entries@ =~= s0.update(k as int, (s0[k as int].0, e)));
            assert(self@ == world_with_edit(w0, chunk_coords, index as int, block));
            assert forall|i: int, j: int|
                0 <= i < j < self.entries@.len() implies (#[trigger] self.entries@[i]).0 != (
            #[trigger] self.entries@[j]).0 by {
                assert(s0[i].0 != s0[j].0);
            }
            assert forall|k2: int|
                0 <= k2 < self.entries@.len() implies (
            #[trigger] self.entries@[k2]).1.chunk.wf() by {
                if k2 != k as int {
                    assert(s0[k2].1.chunk.wf());
                }
            }
        }
        self.regenerate_chunk_at(chunk_coords, texture_atlas_layout, blocks)
    }
}

/// The publication step of the synchronization pass that handles
/// face `d`.
pub open spec fn face_slot(d: ChunkFace) -> int {
    match d {
        ChunkFace::Front => 0,
        ChunkFace::Back => 1,
        ChunkFace::Top => 2,
        ChunkFace::Bottom => 3,
        ChunkFace::Right => 4,
        ChunkFace::Left => 5,
    }
}

/// A position no step in `[t1, t2)` publishes keeps its entry across
/// those steps.
proof fn lemma_sync_steps_preserved(
    w: Map<IVec3, EntityView>,
    p: IVec3,
    reg: Seq<Block>,
    atlas: AtlasView,
    t1: int,
    t2: int,
    q: IVec3,
)
    requires
        0 <= t1 <= t2,
        w.dom().contains(p),
        w.dom().contains(q),
        forall|s2: int| t1 <= s2 < t2 && s2 < 6 ==> q != nbr_pos(p, #[trigger] proc_face(s2)),
        t1 <= 6 < t2 ==> q != p,
    ensures
        sync_steps(w, p, reg, atlas, t2)[q] == sync_steps(w, p, reg, atlas, t1)[q],
    decreases t2 - t1,
{
    if t2 > t1 {
        lemma_sync_steps_preserved(w, p, reg, atlas, t1, t2 - 1, q);
    }
}

/// After the whole pass, the entry of a present neighbour is exactly
/// its published exchange result.
proof fn lemma_sync_steps_nbr_final(
    w: Map<IVec3, EntityView>,
    p: IVec3,
    reg: Seq<Block>,
    atlas: AtlasView,
    d: ChunkFace,
)
    requires
        pos_in_bounds(p),
        w.dom().contains(p),
        nbr_present(w, p, d),
    ensures
        sync_steps(w, p, reg, atlas, 7)[nbr_pos(p, d)] == nbr_new_entity(
            w,
            p,
            reg,
            atlas,
            face_slot(d),
        ),
{
    let s = face_slot(d);
    let np = nbr_pos(p, d);
    lemma_nbr_pos_distinct(p);
    assert(proc_face(s) == d);
    assert(sync_steps(w, p, reg, atlas, s + 1) == sync_steps(w, p, reg, atlas, s).insert(
        np,
        nbr_new_entity(w, p, reg, atlas, s),
    ));
    assert forall|s2: int| s + 1 <= s2 < 7 && s2 < 6 implies np != nbr_pos(
        p,
        #[trigger] proc_face(s2),
    ) by {
        assert(proc_face(s2) != d);
    }
    lemma_sync_steps_preserved(w, p, reg, atlas, s + 1, 7, np);
}

/// After synchronizing a chunk whose only neighbour lies behind face
/// `d`, the chunk's padding towards `d` mirrors the neighbour's own
/// boundary layer towards the opposite face, and the neighbour's
/// padding mirrors the chunk's — slot by slot, in the final state.
#[verifier::rlimit(60)]
pub proof fn lemma_sync_mirror(
    w: Map<IVec3, EntityView>,
    p: IVec3,
    reg: Seq<Block>,
    atlas: AtlasView,
    d: ChunkFace,
    k: int,
)
    requires
        pos_in_bounds(p),
        w.dom().contains(p),
        nbr_present(w, p, d),
        forall|f: ChunkFace| f != d ==> !#[trigger] nbr_present(w, p, f),
        0 <= k < LAYER_AREA,
    ensures
        ({
            let w1 = sync_steps(w, p, reg, atlas, 7);
            let g = d.spec_opposite();
            &&& w1[p].chunk.blocks[other_index(d, k)] == w1[nbr_pos(p, d)].chunk.blocks[own_index(
                g,
                k,
            )]
            &&& w1[nbr_pos(p, d)].chunk.blocks[other_index(g, k)] == w1[p].chunk.blocks[own_index(
                d,
                k,
            )]
        }),
{
    let np = nbr_pos(p, d);
    let g = d.spec_opposite();
    let w1 = sync_steps(w, p, reg, atlas, 7);
    lemma_sync_steps_nbr_final(w, p, reg, atlas, d);
    assert(w1[p] == centre_new_entity(w, p, reg, atlas));
    lemma_layer_coords(d, k);
    lemma_layer_coords(g, k);
    assert(g.spec_opposite() == d);
    assert(w1[p].chunk.blocks[other_index(d, k)] == synced_centre_cell(
        w,
        p,
        other_index(d, k),
        6,
    ));
    assert(w1[np].chunk.blocks[own_index(g, k)] == w[np].chunk.blocks[own_index(g, k)]);
    assert(w1[np].chunk.blocks[other_index(g, k)] == w[p].chunk.blocks[own_index(d, k)]);
    assert(w1[p].chunk.blocks[own_index(d, k)] == synced_centre_cell(w, p, own_index(d, k), 6));
}

/// Whether flat index `i` lies strictly inside the interior: editing
/// it touches no boundary layer of any face.
pub open spec fn is_inner_index(i: int) -> bool {
    let (x, y, z) = coord_of(i);
    2 <= x <= 15 && 2 <= y <= 15 && 2 <= z <= 15
}

/// After editing a cell behind face `f`'s boundary, the published
/// exchange result of the neighbour behind `f` is what it would have
/// been without the edit.
proof fn lemma_edit_inner_same_nbr(
    w: Map<IVec3, EntityView>,
    p: IVec3,
    reg: Seq<Block>,
    atlas: AtlasView,
    i: int,
    b: u32,
    s: int,
)
    requires
        pos_in_bounds(p),
        w.dom().contains(p),
        w[p].chunk.blocks.len() == PADDED_VOLUME,
        0 <= i < PADDED_VOLUME,
        is_inner_index(i),
        0 <= s < 6,
    ensures
        nbr_new_blocks(world_with_edit(w, p, i, b), p, s) == nbr_new_blocks(w, p, s),
        nbr_new_entity(world_with_edit(w, p, i, b), p, reg, atlas, s) == nbr_new_entity(
            w,
            p,
            reg,
            atlas,
            s,
        ),
{
    let we = world_with_edit(w, p, i, b);
    let f = proc_face(s);
    let g = f.spec_opposite();
    let np = nbr_pos(p, f);
    lemma_nbr_pos_distinct(p);
    assert(we[np] == w[np]);
    assert forall|c: int| 0 <= c < PADDED_VOLUME implies nbr_new_blocks(we, p, s)[c]
        == nbr_new_blocks(w, p, s)[c] by {
        let (x, y, z) = coord_of(c);
        if in_pad_layer(g, x, y, z) {
            lemma_pad_cell_slot(g, c);
            let k = layer_slot(g, x, y, z);
            lemma_layer_coords(g, k);
            assert(g.spec_opposite() == f);
            let m = own_index(f, k);
            assert(lin(mirror_coord(g, x, y, z).0, mirror_coord(g, x, y, z).1, mirror_coord(g, x, y, z).2)
                == m);
            if m == i {
                crate::grid::lemma_coord_of_lin_inverse(i);
                let (ox, oy, oz) = own_layer_coord(f, k);
                crate::grid::lemma_lin_injective(
                    ox,
                    oy,
                    oz,
                    coord_of(i).0,
                    coord_of(i).1,
                    coord_of(i).2,
                );
                assert(false);
            }
        }
    }
    assert(nbr_new_blocks(we, p, s) =~= nbr_new_blocks(w, p, s));
}

/// Editing a voxel strictly inside a chunk's interior and re-running
/// the synchronization pass leaves every other chunk — grid, padding
/// and mesh — exactly as it was, provided the world was already
/// synchronized at that chunk: re-running the pass without the edit
/// changes nothing.
pub proof fn lemma_inner_edit_preserves_others(
    w: Map<IVec3, EntityView>,
    p: IVec3,
    reg: Seq<Block>,
    atlas: AtlasView,
    i: int,
    b: u32,
    q: IVec3,
)
    requires
        pos_in_bounds(p),
        w.dom().contains(p),
        w[p].chunk.blocks.len() == PADDED_VOLUME,
        0 <= i < PADDED_VOLUME,
        is_inner_index(i),
        w == sync_steps(w, p, reg, atlas, 7),
        w.dom().contains(q),
        q != p,
    ensures
        sync_steps(world_with_edit(w, p, i, b), p, reg, atlas, 7)[q] == w[q],
{
    let we = world_with_edit(w, p, i, b);
    lemma_nbr_pos_distinct(p);
    assert(we.dom() =~= w.dom());
    if exists|f: ChunkFace| q == nbr_pos(p, #[trigger] proc_face(face_slot(f))) {
        let f = choose|f: ChunkFace| q == nbr_pos(p, #[trigger] proc_face(face_slot(f)));
        assert(proc_face(face_slot(f)) == f);
        assert(q == nbr_pos(p, f));
        assert(nbr_present(w, p, f));
        assert(nbr_present(we, p, f));
        lemma_sync_steps_nbr_final(we, p, reg, atlas, f);
        lemma_sync_steps_nbr_final(w, p, reg, atlas, f);
        lemma_edit_inner_same_nbr(w, p, reg, atlas, i, b, face_slot(f));
    } else {
        assert forall|s2: int| 0 <= s2 < 7 && s2 < 6 implies q != nbr_pos(
            p,
            #[trigger] proc_face(s2),
        ) by {
            let f2 = proc_face(s2);
            assert(proc_face(face_slot(f2)) == f2);
        }
        lemma_sync_steps_preserved(we, p, reg, atlas, 0, 7, q);
        assert(we[q] == w[q]);
    }
}

/// Editing a boundary voxel of a chunk towards a present neighbour
/// and re-running the synchronization pass gives the neighbour's
/// mirroring padding cell the new block, and regenerates the
/// neighbour's mesh from its updated grid.
pub proof fn lemma_boundary_edit_updates_neighbour(
    w: Map<IVec3, EntityView>,
    p: IVec3,
    reg: Seq<Block>,
    atlas: AtlasView,
    d: ChunkFace,
    k: int,
    b: u32,
)
    requires
        pos_in_bounds(p),
        w.dom().contains(p),
        w[p].chunk.blocks.len() == PADDED_VOLUME,
        nbr_present(w, p, d),
        0 <= k < LAYER_AREA,
    ensures
        ({
            let w1 = sync_steps(
                world_with_edit(w, p, own_index(d, k), b),
                p,
                reg,
                atlas,
                7,
            );
            let np = nbr_pos(p, d);
            &&& w1[np].chunk.blocks[other_index(d.spec_opposite(), k)] == b
            &&& w1[np].mesh == mesh_spec(reg, w1[np].chunk.blocks, atlas)
        }),
{
    let i = own_index(d, k);
    let we = world_with_edit(w, p, i, b);
    let g = d.spec_opposite();
    let np = nbr_pos(p, d);
    lemma_nbr_pos_distinct(p);
    assert(we.dom() =~= w.dom());
    lemma_layer_coords(d, k);
    lemma_layer_coords(g, k);
    assert(g.spec_opposite() == d);
    lemma_sync_steps_nbr_final(we, p, reg, atlas, d);
    assert(proc_face(face_slot(d)) == d);
    let w1 = sync_steps(we, p, reg, atlas, 7);
    assert(w1[np].chunk.blocks == nbr_new_blocks(we, p, face_slot(d)));
    assert(w1[np].chunk.blocks[other_index(g, k)] == we[p].chunk.blocks[lin(
        mirror_coord(g, other_layer_coord(g, k).0, other_layer_coord(g, k).1, other_layer_coord(g, k).2).0,
        mirror_coord(g, other_layer_coord(g, k).0, other_layer_coord(g, k).1, other_layer_coord(g, k).2).1,
        mirror_coord(g, other_layer_coord(g, k).0, other_layer_coord(g, k).1, other_layer_coord(g, k).2).2,
    )]);
    assert(we[p].chunk.blocks[i] == b);
}

/// Lattice position of the chunk owning a world voxel position:
/// floor division of each component by the chunk edge length.
pub open spec fn chunk_coord_of(p: IVec3) -> IVec3 {
    IVec3 { x: (p.x as int / 16) as i32, y: (p.y as int / 16) as i32, z: (p.z as int / 16) as i32 }
}

/// Flat grid index of a world voxel position inside its owning
/// chunk: the remainder of each component, shifted into the interior.
pub open spec fn local_index_of(p: IVec3) -> int {
    lin(p.x as int % 16 + 1, p.y as int % 16 + 1, p.z as int % 16 + 1)
}

/// The world after replacing one interior cell of the chunk at `cp`,
/// its mesh untouched.
pub open spec fn world_with_edit(
    w: Map<IVec3, EntityView>,
    cp: IVec3,
    i: int,
    block: u32,
) -> Map<IVec3, EntityView> {
    w.insert(
        cp,
        EntityView {
            chunk: ChunkView {
                blocks: w[cp].chunk.blocks.update(i, block),
                position: w[cp].chunk.position,
            },
            mesh: w[cp].mesh,
        },
    )
}

/// Floor-division quotient and Euclidean remainder of a lattice
/// component by the chunk edge length.
fn floor_div_rem_16(a: i32) -> (r: (i32, usize))
    ensures
        r.0 == a as int / 16,
        r.1 == a as int % 16,
{
    if a >= 0 {
        let ua = a as u32;
        ((ua / 16) as i32, (ua % 16) as usize)
    } else {
        let m = (-(a as i64)) as u64;
        let q0 = m / 16;
        let r0 = m % 16;
        proof {
            lemma_fundamental_div_mod(a as int, 16);
            lemma_fundamental_div_mod(m as int, 16);
        }
        if r0 == 0 {
            ((-(q0 as i64)) as i32, 0)
        } else {
            ((-(q0 as i64) - 1) as i32, (16 - r0) as usize)
        }
    }
}

/// Lattice position of the neighbour behind `face`.
fn neighbour_position(position: IVec3, face: ChunkFace) -> (r: IVec3)
    requires
        pos_in_bounds(position),
    ensures
        r == nbr_pos(position, face),
{
    match face {
        ChunkFace::Front => IVec3::new(position.x, position.y, position.z - 1),
        ChunkFace::Back => IVec3::new(position.x, position.y, position.z + 1),
        ChunkFace::Top => IVec3::new(position.x, position.y + 1, position.z),
        ChunkFace::Bottom => IVec3::new(position.x, position.y - 1, position.z),
        ChunkFace::Right => IVec3::new(position.x + 1, position.y, position.z),
        ChunkFace::Left => IVec3::new(position.x - 1, position.y, position.z),
    }
}

} // verus!
