//! The document and blob under construction, with the provenance of every entity.

use vstd::prelude::*;
use crate::codec::TextureType;
use crate::document::{Accessor, BufferView, Document, DocumentView};
use crate::words::Vec3;

verus! {

/// Where a rebuilt accessor comes from.
#[derive(Clone, Copy, Debug, PartialEq, Eq)]
pub struct AccessorOrigin {
    /// Index of the accessor in the source document.
    pub source: usize,
    /// The translation that was applied to its records, if any; the bounds that the
    /// source accessor declares have to move by the same amount.
    pub translation: Option<Vec3>,
}

/// Where a rebuilt image comes from.
#[derive(Clone, Copy, Debug, PartialEq, Eq)]
pub struct ImageOrigin {
    /// Index of the image in the source document.
    pub source: usize,
    /// The role of the texture that the image was re-encoded for.
    pub role: TextureType,
}

/// For each rebuilt entity, the index of the source entity it was derived from.
///
/// Meshes, primitives and skins keep their positions, so they need no table.
#[derive(Clone, Debug, PartialEq, Eq)]
pub struct Origins {
    /// `None` marks a view that was made for a re-encoded image.
    pub buffer_views: Vec<Option<usize>>,
    pub accessors: Vec<AccessorOrigin>,
    pub images: Vec<ImageOrigin>,
    pub textures: Vec<usize>,
    pub materials: Vec<usize>,
}

/// The mathematical content of [`Origins`]: one sequence per table.
pub struct OriginsView {
    pub buffer_views: Seq<Option<usize>>,
    pub accessors: Seq<AccessorOrigin>,
    pub images: Seq<ImageOrigin>,
    pub textures: Seq<usize>,
    pub materials: Seq<usize>,
}

impl View for Origins {
    type V = OriginsView;

    open spec fn view(&self) -> OriginsView {
        OriginsView {
            buffer_views: self.buffer_views@,
            accessors: self.accessors@,
            images: self.images@,
            textures: self.textures@,
            materials: self.materials@,
        }
    }
}

/// The new document, the new blob, and the provenance of what they hold.
#[derive(Clone, Debug, PartialEq, Eq)]
pub struct Output {
    pub document: Document,
    pub blob: Vec<u8>,
    pub origins: Origins,
}

/// The mathematical content of an [`Output`].
pub struct OutputView {
    pub document: DocumentView,
    pub blob: Seq<u8>,
    pub origins: OriginsView,
}

impl View for Output {
    type V = OutputView;

    open spec fn view(&self) -> OutputView {
        OutputView { document: self.document@, blob: self.blob@, origins: self.origins@ }
    }
}

impl OutputView {
    /// Buffer view `k` lies in the one buffer of the output; where it was copied
    /// from a source view, it names that view and has its stride; a view made for
    /// an image has no stride.
    pub open spec fn view_traceable(self, source: DocumentView, k: int) -> bool {
        &&& self.document.buffer_views[k].buffer == 0
        &&& match self.origins.buffer_views[k] {
            Some(s) => s < source.buffer_views.len() && self.document.buffer_views[k].byte_stride
                == source.buffer_views[s as int].byte_stride,
            None => self.document.buffer_views[k].byte_stride is None,
        }
    }

    /// Accessor `k` equals its source accessor but for the buffer view, which it
    /// has, and the sparse storage, which it has not.
    pub open spec fn accessor_traceable(self, source: DocumentView, k: int) -> bool {
        let o = self.origins.accessors[k];
        &&& o.source < source.accessors.len()
        &&& self.document.accessors[k].buffer_view is Some
        &&& self.document.accessors[k] == (Accessor {
            buffer_view: self.document.accessors[k].buffer_view,
            sparse: None,
            ..source.accessors[o.source as int]
        })
    }

    /// Image `k` names a source image and is embedded.
    pub open spec fn image_traceable(self, source: DocumentView, k: int) -> bool {
        self.origins.images[k].source < source.images.len()
            && self.document.images[k].buffer_view is Some
    }

    /// Texture `k` names a source texture, and the image it shows comes from the
    /// image that the source texture shows.
    pub open spec fn texture_traceable(self, source: DocumentView, k: int) -> bool {
        let s = self.origins.textures[k];
        let i = self.document.textures[k].source;
        &&& s < source.textures.len()
        &&& i < self.origins.images.len()
        &&& self.origins.images[i as int].source == source.textures[s as int].source
    }

    /// A filled slot of a rebuilt material holds a texture that comes from the
    /// texture in the same slot of the source material.
    pub open spec fn slot_traceable(self, slot: Option<usize>, source_slot: Option<usize>) -> bool {
        slot matches Some(t) ==> t < self.origins.textures.len() && source_slot == Some(
            self.origins.textures[t as int],
        )
    }

    /// Material `k` names a source material, each of its first three slots is
    /// traceable to the same slot of that material, and its occlusion and emissive
    /// slots are empty.
    pub open spec fn material_traceable(self, source: DocumentView, k: int) -> bool {
        let s = self.origins.materials[k];
        let m = self.document.materials[k];
        &&& s < source.materials.len()
        &&& self.slot_traceable(m.base_color_texture, source.materials[s as int].base_color_texture)
        &&& self.slot_traceable(
            m.metallic_roughness_texture,
            source.materials[s as int].metallic_roughness_texture,
        )
        &&& self.slot_traceable(m.normal_texture, source.materials[s as int].normal_texture)
        &&& m.occlusion_texture is None
        &&& m.emissive_texture is None
    }

    /// The provenance tables have one entry per entity, every entry names an entity
    /// of `source`, and each rebuilt entity agrees with its origin on what the
    /// rebuild copies. There is one buffer view for every accessor and every image.
    pub open spec fn traceable(self, source: DocumentView) -> bool {
        &&& self.origins.buffer_views.len() == self.document.buffer_views.len()
        &&& self.origins.accessors.len() == self.document.accessors.len()
        &&& self.origins.images.len() == self.document.images.len()
        &&& self.origins.textures.len() == self.document.textures.len()
        &&& self.origins.materials.len() == self.document.materials.len()
        &&& self.document.buffer_views.len() == self.document.accessors.len()
            + self.document.images.len()
        &&& forall|k: int|
            0 <= k < self.document.buffer_views.len() ==> #[trigger] self.view_traceable(source, k)
        &&& forall|k: int|
            0 <= k < self.document.accessors.len() ==> #[trigger] self.accessor_traceable(source, k)
        &&& forall|k: int|
            0 <= k < self.document.images.len() ==> #[trigger] self.image_traceable(source, k)
        &&& forall|k: int|
            0 <= k < self.document.textures.len() ==> #[trigger] self.texture_traceable(source, k)
        &&& forall|k: int|
            0 <= k < self.document.materials.len() ==> #[trigger] self.material_traceable(source, k)
    }

    /// The invariant of a rebuild in progress: every reference resolves, the buffer
    /// views tile the blob exactly, and every entity can be traced to `source`.
    pub open spec fn wf(self, source: DocumentView) -> bool {
        &&& self.document.closed()
        &&& self.document.tiles(self.blob.len() as int)
        &&& self.traceable(source)
    }

    /// `later` was reached from `self` by appending only: every array and the blob
    /// of `self` is a prefix of its counterpart in `later`.
    pub open spec fn extended_by(self, later: OutputView) -> bool {
        &&& self.blob.is_prefix_of(later.blob)
        &&& self.document.buffers.is_prefix_of(later.document.buffers)
        &&& self.document.buffer_views.is_prefix_of(later.document.buffer_views)
        &&& self.document.accessors.is_prefix_of(later.document.accessors)
        &&& self.document.images.is_prefix_of(later.document.images)
        &&& self.document.textures.is_prefix_of(later.document.textures)
        &&& self.document.materials.is_prefix_of(later.document.materials)
        &&& self.document.meshes.is_prefix_of(later.document.meshes)
        &&& self.document.skins.is_prefix_of(later.document.skins)
        &&& self.document.extensions_used == later.document.extensions_used
        &&& self.document.extensions_required == later.document.extensions_required
        &&& self.origins.buffer_views.is_prefix_of(later.origins.buffer_views)
        &&& self.origins.accessors.is_prefix_of(later.origins.accessors)
        &&& self.origins.images.is_prefix_of(later.origins.images)
        &&& self.origins.textures.is_prefix_of(later.origins.textures)
        &&& self.origins.materials.is_prefix_of(later.origins.materials)
    }
}

/// Appending is transitive.
pub proof fn lemma_extended_by_transitive(a: OutputView, b: OutputView, c: OutputView)
    requires
        a.extended_by(b),
        b.extended_by(c),
    ensures
        a.extended_by(c),
{
}

/// Appending a buffer view that starts at the end of the blob keeps the tiling.
pub proof fn lemma_push_view_tiles(
    before: DocumentView,
    after: DocumentView,
    total: int,
    view: BufferView,
)
    requires
        before.tiles(total),
        after.buffer_views == before.buffer_views.push(view),
        view.start() == total,
    ensures
        after.tiles(total + view.byte_length),
{
    assert forall|k: int| 0 <= k < after.buffer_views.len() implies #[trigger] after.abuts(k) by {
        if k < before.buffer_views.len() {
            assert(before.abuts(k));
        }
    }
}

/// The tiling speaks of the buffer views only.
pub proof fn lemma_tiles_same_views(before: DocumentView, after: DocumentView, total: int)
    requires
        before.tiles(total),
        after.buffer_views == before.buffer_views,
    ensures
        after.tiles(total),
{
    assert forall|k: int| 0 <= k < after.buffer_views.len() implies #[trigger] after.abuts(k) by {
        assert(before.abuts(k));
    }
}

/// Traceability survives appending entities that are themselves traceable.
pub proof fn lemma_traceable_extended(before: OutputView, after: OutputView, source: DocumentView)
    requires
        before.traceable(source),
        before.extended_by(after),
        after.origins.buffer_views.len() == after.document.buffer_views.len(),
        after.origins.accessors.len() == after.document.accessors.len(),
        after.origins.images.len() == after.document.images.len(),
        after.origins.textures.len() == after.document.textures.len(),
        after.origins.materials.len() == after.document.materials.len(),
        after.document.buffer_views.len() == after.document.accessors.len()
            + after.document.images.len(),
        forall|k: int|
            before.document.buffer_views.len() <= k < after.document.buffer_views.len()
                ==> #[trigger] after.view_traceable(source, k),
        forall|k: int|
            before.document.accessors.len() <= k < after.document.accessors.len()
                ==> #[trigger] after.accessor_traceable(source, k),
        forall|k: int|
            before.document.images.len() <= k < after.document.images.len()
                ==> #[trigger] after.image_traceable(source, k),
        forall|k: int|
            before.document.textures.len() <= k < after.document.textures.len()
                ==> #[trigger] after.texture_traceable(source, k),
        forall|k: int|
            before.document.materials.len() <= k < after.document.materials.len()
                ==> #[trigger] after.material_traceable(source, k),
    ensures
        after.traceable(source),
{
    assert forall|k: int| 0 <= k < after.document.buffer_views.len() implies #[trigger] after.view_traceable(
        source,
        k,
    ) by {
        if k < before.document.buffer_views.len() {
            assert(before.view_traceable(source, k));
        }
    }
    assert forall|k: int| 0 <= k < after.document.accessors.len() implies #[trigger] after.accessor_traceable(
        source,
        k,
    ) by {
        if k < before.document.accessors.len() {
            assert(before.accessor_traceable(source, k));
        }
    }
    assert forall|k: int| 0 <= k < after.document.images.len() implies #[trigger] after.image_traceable(
        source,
        k,
    ) by {
        if k < before.document.images.len() {
            assert(before.image_traceable(source, k));
        }
    }
    assert forall|k: int| 0 <= k < after.document.textures.len() implies #[trigger] after.texture_traceable(
        source,
        k,
    ) by {
        if k < before.document.textures.len() {
            assert(before.texture_traceable(source, k));
        }
    }
    assert forall|k: int| 0 <= k < after.document.materials.len() implies #[trigger] after.material_traceable(
        source,
        k,
    ) by {
        if k < before.document.materials.len() {
            assert(before.material_traceable(source, k));
        }
    }
}

/// Where the buffer views tile a blob, every view ends inside the blob.
pub proof fn lemma_tiles_within(doc: DocumentView, total: int, j: int)
    requires
        doc.tiles(total),
        0 <= j < doc.buffer_views.len(),
    ensures
        0 <= doc.buffer_views[j].start(),
        doc.buffer_views[j].end() <= total,
    decreases doc.buffer_views.len() - j,
{
    if j + 1 < doc.buffer_views.len() {
        lemma_tiles_within(doc, total, j + 1);
        assert(doc.abuts(j + 1));
    }
}

/// Where the buffer views tile a blob, an earlier view ends before a later one
/// starts.
pub proof fn lemma_tiles_ordered(doc: DocumentView, total: int, i: int, j: int)
    requires
        doc.tiles(total),
        0 <= i < j < doc.buffer_views.len(),
    ensures
        doc.buffer_views[i].end() <= doc.buffer_views[j].start(),
    decreases j - i,
{
    assert(doc.abuts(j));
    if j > i + 1 {
        lemma_tiles_ordered(doc, total, i, j - 1);
    }
}

/// Non-overlap: where the buffer views tile a blob, the byte ranges of two
/// different views have no byte in common.
pub proof fn lemma_views_disjoint(doc: DocumentView, total: int, i: int, j: int, b: int)
    requires
        doc.tiles(total),
        0 <= i < doc.buffer_views.len(),
        0 <= j < doc.buffer_views.len(),
        i != j,
        doc.buffer_views[i].start() <= b < doc.buffer_views[i].end(),
    ensures
        !(doc.buffer_views[j].start() <= b < doc.buffer_views[j].end()),
{
    if i < j {
        lemma_tiles_ordered(doc, total, i, j);
    } else {
        lemma_tiles_ordered(doc, total, j, i);
    }
}

impl Output {
    /// An output that holds nothing yet.
    pub fn new() -> (r: Output)
        ensures
            r@.document == Document::new_view(),
            r@.blob == Seq::<u8>::empty(),
            r@.origins == (OriginsView {
                buffer_views: Seq::empty(),
                accessors: Seq::empty(),
                images: Seq::empty(),
                textures: Seq::empty(),
                materials: Seq::empty(),
            }),
            forall|source: DocumentView| r@.wf(source),
    {
        Output {
            document: Document::new(),
            blob: Vec::new(),
            origins: Origins {
                buffer_views: Vec::new(),
                accessors: Vec::new(),
                images: Vec::new(),
                textures: Vec::new(),
                materials: Vec::new(),
            },
        }
    }
}

} // verus!
