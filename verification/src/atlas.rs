//! The texture atlas layout: a rectangle-lookup service.
//!
//! All voxel textures live in one packed atlas image. The layout maps
//! a texture asset identifier to the pixel rectangle the texture
//! occupies, together with the atlas image size. How the rectangles
//! are packed is the host's concern; the mesh generator only looks
//! rectangles up.

use vstd::prelude::*;

verus! {

/// A pixel rectangle inside the atlas image.
#[derive(Clone, Copy, Debug, PartialEq, Eq, Structural)]
pub struct Rect {
    pub min_x: u32,
    pub min_y: u32,
    pub max_x: u32,
    pub max_y: u32,
}

/// Whether `r` is a rectangle: its minimum corner does not exceed its
/// maximum corner.
pub open spec fn rect_wf(r: Rect) -> bool {
    r.min_x <= r.max_x && r.min_y <= r.max_y
}

/// Specification view of a [`TextureAtlasLayout`]: the atlas image
/// size in pixels and the registered rectangles in registration order.
pub struct AtlasView {
    pub size_x: u32,
    pub size_y: u32,
    pub entries: Seq<(u64, Rect)>,
}

/// The rectangle registered for `id`: the first entry carrying `id`,
/// `None` if there is none.
pub open spec fn atlas_lookup(entries: Seq<(u64, Rect)>, id: u64) -> Option<Rect>
    decreases entries.len(),
{
    if entries.len() == 0 {
        None
    } else if entries[0].0 == id {
        Some(entries[0].1)
    } else {
        atlas_lookup(entries.drop_first(), id)
    }
}

/// Maps texture asset identifiers to their rectangles in the packed
/// atlas image.
pub struct TextureAtlasLayout {
    size_x: u32,
    size_y: u32,
    entries: Vec<(u64, Rect)>,
}

impl View for TextureAtlasLayout {
    type V = AtlasView;

    closed spec fn view(&self) -> AtlasView {
        AtlasView { size_x: self.size_x, size_y: self.size_y, entries: self.entries@ }
    }
}

impl TextureAtlasLayout {
    /// Whether every registered entry is a rectangle.
    pub open spec fn wf(&self) -> bool {
        forall|i: int| 0 <= i < self@.entries.len() ==> rect_wf(#[trigger] self@.entries[i].1)
    }

    /// An empty layout for an atlas image of the given pixel size.
    pub fn new(size_x: u32, size_y: u32) -> (r: TextureAtlasLayout)
        ensures
            r@ == (AtlasView { size_x, size_y, entries: Seq::<(u64, Rect)>::empty() }),
            r.wf(),
    {
        let r = TextureAtlasLayout { size_x, size_y, entries: Vec::new() };
        proof {
            assert(r@.entries =~= Seq::<(u64, Rect)>::empty());
        }
        r
    }

    /// Registers the rectangle for a texture and returns its index.
    pub fn add_texture(&mut self, id: u64, rect: Rect) -> (i: usize)
        requires
            rect_wf(rect),
        ensures
            final(self)@.entries == old(self)@.entries.push((id, rect)),
            final(self)@.size_x == old(self)@.size_x,
            final(self)@.size_y == old(self)@.size_y,
            i == old(self)@.entries.len(),
            old(self).wf() ==> final(self).wf(),
    {
        let i = self.entries.len();
        self.entries.push((id, rect));
        i
    }

    /// The atlas image size in pixels.
    pub fn size(&self) -> (r: (u32, u32))
        ensures
            r == (self@.size_x, self@.size_y),
    {
        (self.size_x, self.size_y)
    }

    /// Index of the first entry registered for `id`, `None` if the
    /// texture is not in the atlas.
    pub fn get_texture_index(&self, id: u64) -> (r: Option<usize>)
        ensures
            match r {
                Some(i) => {
                    &&& i < self@.entries.len()
                    &&& self@.entries[i as int].0 == id
                    &&& atlas_lookup(self@.entries, id) == Some(self@.entries[i as int].1)
                },
                None => atlas_lookup(self@.entries, id) is None,
            },
    {
        let n = self.entries.len();
        for i in 0..n
            invariant
                n == self@.entries.len(),
                forall|j: int| 0 <= j < i ==> self@.entries[j].0 != id,
        {
            if self.entries[i].0 == id {
                proof {
                    lemma_atlas_lookup_first(self@.entries, id, i as int);
                }
                return Some(i);
            }
        }
        proof {
            lemma_atlas_lookup_absent(self@.entries, id);
        }
        None
    }

    /// The rectangle stored at an entry index.
    pub fn rect_at(&self, i: usize) -> (r: Rect)
        requires
            i < self@.entries.len(),
        ensures
            r == self@.entries[i as int].1,
    {
        self.entries[i].1
    }
}

/// If `k` is the first index carrying `id`, the lookup returns its
/// rectangle.
proof fn lemma_atlas_lookup_first(entries: Seq<(u64, Rect)>, id: u64, k: int)
    requires
        0 <= k < entries.len(),
        entries[k].0 == id,
        forall|j: int| 0 <= j < k ==> entries[j].0 != id,
    ensures
        atlas_lookup(entries, id) == Some(entries[k].1),
    decreases entries.len(),
{
    if k > 0 {
        lemma_atlas_lookup_first(entries.drop_first(), id, k - 1);
    }
}

/// If no entry carries `id`, the lookup returns `None`.
proof fn lemma_atlas_lookup_absent(entries: Seq<(u64, Rect)>, id: u64)
    requires
        forall|j: int| 0 <= j < entries.len() ==> entries[j].0 != id,
    ensures
        atlas_lookup(entries, id) is None,
    decreases entries.len(),
{
    if entries.len() > 0 {
        lemma_atlas_lookup_absent(entries.drop_first(), id);
    }
}

/// The packed block texture atlas: the atlas image asset and its
/// layout.
pub struct BlockAtlas {
    image: u64,
    texture_atlas_layout: TextureAtlasLayout,
}

impl BlockAtlas {
    /// An atlas from its image asset and layout.
    pub fn new(image: u64, texture_atlas_layout: TextureAtlasLayout) -> (r: BlockAtlas)
        ensures
            r.spec_image() == image,
            r.spec_layout() == texture_atlas_layout@,
    {
        BlockAtlas { image, texture_atlas_layout }
    }

    /// The atlas image asset.
    pub closed spec fn spec_image(&self) -> u64 {
        self.image
    }

    /// The layout's view.
    pub closed spec fn spec_layout(&self) -> AtlasView {
        self.texture_atlas_layout@
    }

    /// The atlas image asset identifier.
    pub fn clone_image(&self) -> (r: u64)
        ensures
            r == self.spec_image(),
    {
        self.image
    }

    /// The atlas layout.
    pub fn get_texture_atlas_layout(&self) -> (r: &TextureAtlasLayout)
        ensures
            r@ == self.spec_layout(),
    {
        &self.texture_atlas_layout
    }
}

} // verus!
