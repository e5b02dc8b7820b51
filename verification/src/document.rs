//! The scene-graph document as the engine sees it: typed entity arrays whose
//! entries refer to each other by position.
//!
//! Only the fields that the rebuild reads or writes are modelled, among them every
//! reference to a buffer, a buffer view, an accessor, an image, a texture or a
//! material that the entities modelled here hold. Everything else an entity
//! carries (names, extras, samplers and so on) travels outside this crate and is
//! re-attached through the provenance table of the output.

use vstd::prelude::*;

verus! {

/// A byte range of the blob.
#[derive(Clone, Copy, Debug, PartialEq, Eq)]
pub struct BufferView {
    /// The buffer that the range lies in.
    pub buffer: usize,
    /// Where the range starts; absent means zero.
    pub byte_offset: Option<usize>,
    /// How many bytes the range holds.
    pub byte_length: usize,
    /// Distance in bytes between consecutive records; absent means tightly packed.
    pub byte_stride: Option<usize>,
}

impl BufferView {
    /// First byte of the range.
    pub open spec fn start(self) -> int {
        match self.byte_offset {
            Some(o) => o as int,
            None => 0,
        }
    }

    /// One past the last byte of the range.
    pub open spec fn end(self) -> int {
        self.start() + self.byte_length
    }

    /// Distance between records of three packed 32-bit components.
    pub open spec fn record_stride(self) -> int {
        match self.byte_stride {
            Some(s) => s as int,
            None => 12,
        }
    }
}

/// The scalar type of an accessor's components.
#[derive(Clone, Copy, Debug, PartialEq, Eq)]
pub enum ComponentType {
    Byte,
    UnsignedByte,
    Short,
    UnsignedShort,
    UnsignedInt,
    Float,
    Unknown,
}

/// How many components one element of an accessor has.
#[derive(Clone, Copy, Debug, PartialEq, Eq)]
pub enum ElementType {
    Scalar,
    Vec2,
    Vec3,
    Vec4,
    Mat2,
    Mat3,
    Mat4,
    Unknown,
}

/// The buffer views of the sparse storage of an accessor: one for the indices of
/// the records that deviate, one for their values.
#[derive(Clone, Copy, Debug, PartialEq, Eq)]
pub struct Sparse {
    pub indices_view: usize,
    pub values_view: usize,
}

/// A typed, strided array of records inside a buffer view.
///
/// The rebuild relocates the records of the buffer view and drops the sparse
/// storage.
#[derive(Clone, Copy, Debug, PartialEq, Eq)]
pub struct Accessor {
    pub buffer_view: Option<usize>,
    /// Offset of the first record relative to the start of the view; absent means zero.
    pub byte_offset: Option<usize>,
    /// Number of records.
    pub count: usize,
    pub component_type: ComponentType,
    pub element_type: ElementType,
    pub sparse: Option<Sparse>,
}

impl Accessor {
    /// Offset of the first record inside the view.
    pub open spec fn first_record(self) -> int {
        match self.byte_offset {
            Some(o) => o as int,
            None => 0,
        }
    }

    /// Whether every record is three packed 32-bit floating-point components.
    pub open spec fn is_float_vec3(self) -> bool {
        self.component_type == ComponentType::Float && self.element_type == ElementType::Vec3
    }

    /// Executable form of [`Accessor::is_float_vec3`].
    pub fn has_float_vec3_layout(&self) -> (r: bool)
        ensures
            r == self.is_float_vec3(),
    {
        let float = match self.component_type {
            ComponentType::Float => true,
            _ => false,
        };
        let three = match self.element_type {
            ElementType::Vec3 => true,
            _ => false,
        };
        float && three
    }
}

/// An embedded or external picture.
#[derive(Clone, Debug, PartialEq, Eq)]
pub struct Image {
    pub buffer_view: Option<usize>,
    pub mime_type: Option<String>,
    pub name: Option<String>,
    pub uri: Option<String>,
}

/// A texture: a reference to the image that backs it.
#[derive(Clone, Copy, Debug, PartialEq, Eq)]
pub struct Texture {
    pub source: usize,
}

/// The texture slots of a material, each the index of a texture.
///
/// The rebuild converts the textures of the first three slots and empties the
/// last two, whose textures it has no codec settings for.
#[derive(Clone, Copy, Debug, PartialEq, Eq)]
pub struct Material {
    pub base_color_texture: Option<usize>,
    pub metallic_roughness_texture: Option<usize>,
    pub normal_texture: Option<usize>,
    pub occlusion_texture: Option<usize>,
    pub emissive_texture: Option<usize>,
}

/// What a vertex attribute means.
#[derive(Clone, Copy, Debug, PartialEq, Eq)]
pub enum Semantic {
    Positions,
    Normals,
    Tangents,
    Colors(u32),
    TexCoords(u32),
    Joints(u32),
    Weights(u32),
    Unknown,
}

impl Semantic {
    /// Whether the attribute holds vertex positions.
    pub fn is_positions(&self) -> (r: bool)
        ensures
            r == (*self is Positions),
    {
        match self {
            Semantic::Positions => true,
            _ => false,
        }
    }
}

/// One vertex attribute of a primitive.
#[derive(Clone, Copy, Debug, PartialEq, Eq)]
pub struct Attribute {
    pub semantic: Semantic,
    pub accessor: usize,
}

/// The accessors of one morph target of a primitive.
#[derive(Clone, Copy, Debug, PartialEq, Eq)]
pub struct MorphTarget {
    pub positions: Option<usize>,
    pub normals: Option<usize>,
    pub tangents: Option<usize>,
}

impl MorphTarget {
    /// Every accessor that the target names exists.
    pub open spec fn resolves(self, accessors: nat) -> bool {
        &&& self.positions matches Some(a) ==> a < accessors
        &&& self.normals matches Some(a) ==> a < accessors
        &&& self.tangents matches Some(a) ==> a < accessors
    }
}

/// One drawable geometry unit of a mesh.
///
/// The rebuild relocates the indices and the attributes, rebuilds the material,
/// and drops the morph targets.
#[derive(Clone, Debug, PartialEq, Eq)]
pub struct Primitive {
    pub indices: Option<usize>,
    pub attributes: Vec<Attribute>,
    pub material: Option<usize>,
    pub targets: Vec<MorphTarget>,
}

/// A mesh: a list of primitives.
#[derive(Clone, Debug, PartialEq, Eq)]
pub struct Mesh {
    pub primitives: Vec<Primitive>,
}

/// A skin: a reference to the accessor that holds its inverse bind matrices.
#[derive(Clone, Copy, Debug, PartialEq, Eq)]
pub struct Skin {
    pub inverse_bind_matrices: Option<usize>,
}

/// The descriptor of the blob as a whole.
#[derive(Clone, Copy, Debug, PartialEq, Eq)]
pub struct Buffer {
    pub byte_length: usize,
}

/// The entity arrays of one asset.
#[derive(Clone, Debug, PartialEq, Eq)]
pub struct Document {
    pub buffers: Vec<Buffer>,
    pub buffer_views: Vec<BufferView>,
    pub accessors: Vec<Accessor>,
    pub images: Vec<Image>,
    pub textures: Vec<Texture>,
    pub materials: Vec<Material>,
    pub meshes: Vec<Mesh>,
    pub skins: Vec<Skin>,
    pub extensions_used: Vec<String>,
    pub extensions_required: Vec<String>,
}

/// The characters of an optional text.
pub open spec fn text(s: Option<String>) -> Option<Seq<char>> {
    match s {
        Some(t) => Some(t@),
        None => None,
    }
}

/// What an [`Image`] holds, with its texts as character sequences.
pub struct ImageView {
    pub buffer_view: Option<usize>,
    pub mime_type: Option<Seq<char>>,
    pub name: Option<Seq<char>>,
    pub uri: Option<Seq<char>>,
}

impl View for Image {
    type V = ImageView;

    open spec fn view(&self) -> ImageView {
        ImageView {
            buffer_view: self.buffer_view,
            mime_type: text(self.mime_type),
            name: text(self.name),
            uri: text(self.uri),
        }
    }
}

/// What a [`Primitive`] holds, with its attributes as a sequence.
pub struct PrimitiveView {
    pub indices: Option<usize>,
    pub attributes: Seq<Attribute>,
    pub material: Option<usize>,
    pub targets: Seq<MorphTarget>,
}

impl View for Primitive {
    type V = PrimitiveView;

    open spec fn view(&self) -> PrimitiveView {
        PrimitiveView {
            indices: self.indices,
            attributes: self.attributes@,
            material: self.material,
            targets: self.targets@,
        }
    }
}

/// What a [`Mesh`] holds.
pub struct MeshView {
    pub primitives: Seq<PrimitiveView>,
}

impl View for Mesh {
    type V = MeshView;

    open spec fn view(&self) -> MeshView {
        MeshView { primitives: self.primitives@.map_values(|p: Primitive| p@) }
    }
}

/// The mathematical content of a [`Document`]: one sequence per entity array.
pub struct DocumentView {
    pub buffers: Seq<Buffer>,
    pub buffer_views: Seq<BufferView>,
    pub accessors: Seq<Accessor>,
    pub images: Seq<ImageView>,
    pub textures: Seq<Texture>,
    pub materials: Seq<Material>,
    pub meshes: Seq<MeshView>,
    pub skins: Seq<Skin>,
    pub extensions_used: Seq<Seq<char>>,
    pub extensions_required: Seq<Seq<char>>,
}

impl View for Document {
    type V = DocumentView;

    open spec fn view(&self) -> DocumentView {
        DocumentView {
            buffers: self.buffers@,
            buffer_views: self.buffer_views@,
            accessors: self.accessors@,
            images: self.images@.map_values(|i: Image| i@),
            textures: self.textures@,
            materials: self.materials@,
            meshes: self.meshes@.map_values(|m: Mesh| m@),
            skins: self.skins@,
            extensions_used: self.extensions_used@.map_values(|s: String| s@),
            extensions_required: self.extensions_required@.map_values(|s: String| s@),
        }
    }
}

/// No two attributes of `attrs` have the same meaning: the attributes of a
/// primitive are a map from meaning to accessor.
pub open spec fn distinct_semantics(attrs: Seq<Attribute>) -> bool {
    forall|i: int, j: int|
        0 <= i < j < attrs.len() ==> (#[trigger] attrs[i]).semantic != (#[trigger] attrs[j]).semantic
}

impl PrimitiveView {
    /// No two attributes of the primitive have the same meaning.
    pub open spec fn keyed(self) -> bool {
        distinct_semantics(self.attributes)
    }

    /// Every reference of the primitive resolves in arrays of the given lengths.
    pub open spec fn resolves(self, accessors: nat, materials: nat) -> bool {
        &&& self.indices matches Some(a) ==> a < accessors
        &&& self.material matches Some(m) ==> m < materials
        &&& forall|k: int|
            0 <= k < self.attributes.len() ==> (#[trigger] self.attributes[k]).accessor < accessors
        &&& forall|t: int|
            0 <= t < self.targets.len() ==> (#[trigger] self.targets[t]).resolves(accessors)
    }
}

impl MeshView {
    /// In every primitive of the mesh, no two attributes have the same meaning.
    pub open spec fn keyed(self) -> bool {
        forall|p: int| 0 <= p < self.primitives.len() ==> (#[trigger] self.primitives[p]).keyed()
    }

    /// Every primitive of the mesh resolves.
    pub open spec fn resolves(self, accessors: nat, materials: nat) -> bool {
        forall|p: int|
            0 <= p < self.primitives.len() ==> (#[trigger] self.primitives[p]).resolves(
                accessors,
                materials,
            )
    }
}

impl Material {
    /// Every texture slot that is filled names an existing texture.
    pub open spec fn resolves(self, textures: nat) -> bool {
        &&& self.base_color_texture matches Some(t) ==> t < textures
        &&& self.metallic_roughness_texture matches Some(t) ==> t < textures
        &&& self.normal_texture matches Some(t) ==> t < textures
        &&& self.occlusion_texture matches Some(t) ==> t < textures
        &&& self.emissive_texture matches Some(t) ==> t < textures
    }
}

impl DocumentView {
    /// In every primitive of every mesh, no two attributes have the same meaning.
    pub open spec fn keyed(self) -> bool {
        forall|m: int| 0 <= m < self.meshes.len() ==> (#[trigger] self.meshes[m]).keyed()
    }

    /// The buffer views that accessor `a` names exist.
    pub open spec fn accessor_resolves(self, a: int) -> bool {
        &&& self.accessors[a].buffer_view matches Some(v) ==> v < self.buffer_views.len()
        &&& self.accessors[a].sparse matches Some(s) ==> s.indices_view < self.buffer_views.len()
            && s.values_view < self.buffer_views.len()
    }

    /// The buffer view of image `i`, if it has one, exists.
    pub open spec fn image_resolves(self, i: int) -> bool {
        self.images[i].buffer_view matches Some(v) ==> v < self.buffer_views.len()
    }

    /// The image behind texture `t` exists.
    pub open spec fn texture_resolves(self, t: int) -> bool {
        self.textures[t].source < self.images.len()
    }

    /// The textures in the slots of material `m` exist.
    pub open spec fn material_resolves(self, m: int) -> bool {
        self.materials[m].resolves(self.textures.len())
    }

    /// The accessors and materials that the primitives of mesh `m` name exist.
    pub open spec fn mesh_resolves(self, m: int) -> bool {
        self.meshes[m].resolves(self.accessors.len(), self.materials.len())
    }

    /// The accessor that skin `s` names, if any, exists.
    pub open spec fn skin_resolves(self, s: int) -> bool {
        self.skins[s].inverse_bind_matrices matches Some(a) ==> a < self.accessors.len()
    }

    /// Referential closure: every reference held by an entity names an entity that
    /// is present in the same document.
    pub open spec fn closed(self) -> bool {
        &&& forall|a: int| 0 <= a < self.accessors.len() ==> #[trigger] self.accessor_resolves(a)
        &&& forall|i: int| 0 <= i < self.images.len() ==> #[trigger] self.image_resolves(i)
        &&& forall|t: int| 0 <= t < self.textures.len() ==> #[trigger] self.texture_resolves(t)
        &&& forall|m: int| 0 <= m < self.materials.len() ==> #[trigger] self.material_resolves(m)
        &&& forall|m: int| 0 <= m < self.meshes.len() ==> #[trigger] self.mesh_resolves(m)
        &&& forall|s: int| 0 <= s < self.skins.len() ==> #[trigger] self.skin_resolves(s)
    }

    /// Buffer view `k` starts where its predecessor ends, the first one at zero.
    pub open spec fn abuts(self, k: int) -> bool {
        self.buffer_views[k].start() == (if k == 0 {
            0
        } else {
            self.buffer_views[k - 1].end()
        })
    }

    /// The buffer views lie back to back in array order, the first at zero, and
    /// together they cover exactly `total` bytes.
    pub open spec fn tiles(self, total: int) -> bool {
        &&& forall|k: int| 0 <= k < self.buffer_views.len() ==> #[trigger] self.abuts(k)
        &&& total == (if self.buffer_views.len() == 0 {
            0
        } else {
            self.buffer_views.last().end()
        })
    }
}

impl Document {
    /// The content of a document without any entity.
    pub open spec fn new_view() -> DocumentView {
        DocumentView {
            buffers: Seq::empty(),
            buffer_views: Seq::empty(),
            accessors: Seq::empty(),
            images: Seq::empty(),
            textures: Seq::empty(),
            materials: Seq::empty(),
            meshes: Seq::empty(),
            skins: Seq::empty(),
            extensions_used: Seq::empty(),
            extensions_required: Seq::empty(),
        }
    }

    /// An asset without any entity.
    pub fn new() -> (r: Document)
        ensures
            r@ == Document::new_view(),
    {
        let r = Document {
            buffers: Vec::new(),
            buffer_views: Vec::new(),
            accessors: Vec::new(),
            images: Vec::new(),
            textures: Vec::new(),
            materials: Vec::new(),
            meshes: Vec::new(),
            skins: Vec::new(),
            extensions_used: Vec::new(),
            extensions_required: Vec::new(),
        };
        assert(r@.images =~= Seq::empty());
        assert(r@.meshes =~= Seq::empty());
        assert(r@.extensions_used =~= Seq::empty());
        assert(r@.extensions_required =~= Seq::empty());
        r
    }
}

/// A primitive that resolves keeps resolving when the arrays grow.
pub proof fn lemma_primitive_resolves_grows(p: PrimitiveView, a1: nat, m1: nat, a2: nat, m2: nat)
    requires
        p.resolves(a1, m1),
        a1 <= a2,
        m1 <= m2,
    ensures
        p.resolves(a2, m2),
{
    assert forall|k: int| 0 <= k < p.attributes.len() implies (#[trigger] p.attributes[k]).accessor
        < a2 by {}
    assert forall|t: int| 0 <= t < p.targets.len() implies (#[trigger] p.targets[t]).resolves(
        a2,
    ) by {}
}

/// A mesh that resolves keeps resolving when the arrays grow.
pub proof fn lemma_mesh_resolves_grows(mesh: MeshView, a1: nat, m1: nat, a2: nat, m2: nat)
    requires
        mesh.resolves(a1, m1),
        a1 <= a2,
        m1 <= m2,
    ensures
        mesh.resolves(a2, m2),
{
    assert forall|p: int| 0 <= p < mesh.primitives.len() implies (#[trigger] mesh.primitives[p]).resolves(
        a2,
        m2,
    ) by {
        assert(mesh.primitives[p].resolves(a1, m1));
        lemma_primitive_resolves_grows(mesh.primitives[p], a1, m1, a2, m2);
    }
}

/// Closure survives appending entities whose own references resolve.
pub proof fn lemma_closed_extended(before: DocumentView, after: DocumentView)
    requires
        before.closed(),
        before.buffer_views.is_prefix_of(after.buffer_views),
        before.accessors.is_prefix_of(after.accessors),
        before.images.is_prefix_of(after.images),
        before.textures.is_prefix_of(after.textures),
        before.materials.is_prefix_of(after.materials),
        before.meshes.is_prefix_of(after.meshes),
        before.skins.is_prefix_of(after.skins),
        forall|a: int|
            before.accessors.len() <= a < after.accessors.len() ==> #[trigger] after.accessor_resolves(
                a,
            ),
        forall|i: int|
            before.images.len() <= i < after.images.len() ==> #[trigger] after.image_resolves(i),
        forall|t: int|
            before.textures.len() <= t < after.textures.len() ==> #[trigger] after.texture_resolves(
                t,
            ),
        forall|m: int|
            before.materials.len() <= m < after.materials.len() ==> #[trigger] after.material_resolves(
                m,
            ),
        forall|m: int|
            before.meshes.len() <= m < after.meshes.len() ==> #[trigger] after.mesh_resolves(m),
        forall|s: int|
            before.skins.len() <= s < after.skins.len() ==> #[trigger] after.skin_resolves(s),
    ensures
        after.closed(),
{
    assert forall|a: int| 0 <= a < after.accessors.len() implies #[trigger] after.accessor_resolves(
        a,
    ) by {
        if a < before.accessors.len() {
            assert(before.accessor_resolves(a));
        }
    }
    assert forall|i: int| 0 <= i < after.images.len() implies #[trigger] after.image_resolves(
        i,
    ) by {
        if i < before.images.len() {
            assert(before.image_resolves(i));
        }
    }
    assert forall|t: int| 0 <= t < after.textures.len() implies #[trigger] after.texture_resolves(
        t,
    ) by {
        if t < before.textures.len() {
            assert(before.texture_resolves(t));
        }
    }
    assert forall|m: int| 0 <= m < after.materials.len() implies #[trigger] after.material_resolves(
        m,
    ) by {
        if m < before.materials.len() {
            assert(before.material_resolves(m));
        }
    }
    assert forall|m: int| 0 <= m < after.meshes.len() implies #[trigger] after.mesh_resolves(
        m,
    ) by {
        if m < before.meshes.len() {
            assert(before.mesh_resolves(m));
            lemma_mesh_resolves_grows(
                before.meshes[m],
                before.accessors.len(),
                before.materials.len(),
                after.accessors.len(),
                after.materials.len(),
            );
        }
    }
    assert forall|s: int| 0 <= s < after.skins.len() implies #[trigger] after.skin_resolves(s) by {
        if s < before.skins.len() {
            assert(before.skin_resolves(s));
        }
    }
}

/// Mapping a function over a sequence commutes with appending an element.
pub proof fn lemma_map_values_push<A, B>(s: Seq<A>, a: A, f: spec_fn(A) -> B)
    ensures
        s.push(a).map_values(f) == s.map_values(f).push(f(a)),
{
    assert(s.push(a).map_values(f) =~= s.map_values(f).push(f(a)));
}

} // verus!
