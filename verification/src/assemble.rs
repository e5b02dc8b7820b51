//! The document assembler: one pass over the source document that rebuilds every
//! mesh and skin, then packs the blob.

use vstd::prelude::*;
use vstd::string::StringExecFns;
use crate::bounds::{choose_pivot, comparable, pivot_chosen};
use crate::codec::{accepts_jobs, Ktx2Job};
use crate::document::{
    lemma_closed_extended, lemma_map_values_push, lemma_primitive_resolves_grows, Buffer, Document,
    DocumentView, Mesh, MeshView, Primitive, Skin,
};
use crate::growth::{
    accessor_growth, document_growth, grown_by, held_by, keeps_scene, meshes_growth,
    primitives_growth, skins_growth, Growth,
};
use crate::output::{
    lemma_extended_by_transitive, lemma_tiles_ordered, lemma_tiles_same_views, lemma_tiles_within,
    lemma_traceable_extended, Output, OutputView,
};
use crate::primitive::add_primitive;
use crate::rebuilt::{
    failed_on, indices_rebuilt, lemma_indices_rebuilt_stable, lemma_mesh_rebuilt_stable,
    lemma_nothing_to_convert_nothing_to_fail,
    lemma_primitive_rebuilt_stable, material_failed, mesh_rebuilt, primitive_rebuilt,
};
use crate::relocate::{
    add_accessor, callable, faithful, keeps_translations, lemma_faithful_extended,
    lemma_faithful_relocated, lemma_keeps_translations, translations_are,
};
use crate::span::{accessor_range, image_range};
use crate::texture::{failure_caused, lemma_transcoded_extended, transcoded, ConversionError};
use crate::words::Vec3;

verus! {

/// `s` followed by `n` zero bytes.
pub open spec fn zero_padded(s: Seq<u8>, n: nat) -> Seq<u8> {
    s + Seq::new(n, |i: int| 0u8)
}

/// How many bytes are missing from `len` to the next multiple of four.
pub open spec fn padding(len: nat) -> nat {
    ((4 - len % 4) % 4) as nat
}

/// Blob alignment: appends zero bytes until the length is a multiple of four.
pub fn pad_to_4bytes(data: &mut Vec<u8>)
    ensures
        final(data)@ == zero_padded(old(data)@, padding(old(data)@.len())),
        final(data)@.len() % 4 == 0,
{
    let ghost start = data@;
    let rest: usize = data.len() % 4;
    let missing: usize = if rest == 0 {
        0
    } else {
        4 - rest
    };
    let mut i: usize = 0;
    assert(data@ =~= zero_padded(start, 0));
    while i < missing
        invariant
            i <= missing,
            data@ == zero_padded(start, i as nat),
        decreases missing - i,
    {
        data.push(0u8);
        i = i + 1;
        assert(data@ =~= zero_padded(start, i as nat));
    }
}

/// The characters of the name of the extension that a document with KTX2
/// textures uses and requires.
pub open spec fn basisu_extension() -> Seq<char> {
    seq![
        'K',
        'H',
        'R',
        '_',
        't',
        'e',
        'x',
        't',
        'u',
        'r',
        'e',
        '_',
        'b',
        'a',
        's',
        'i',
        's',
        'u',
    ]
}

/// The characters of each text of a list.
pub open spec fn texts(list: Seq<String>) -> Seq<Seq<char>> {
    list.map_values(|s: String| s@)
}

/// `list` with `name` in it: unchanged where `name` is there already, with `name`
/// appended where it is not.
pub open spec fn with_extension(list: Seq<Seq<char>>, name: Seq<char>) -> Seq<Seq<char>> {
    if list.contains(name) {
        list
    } else {
        list.push(name)
    }
}

/// Extension idempotence: making sure of a name twice is the same as doing it
/// once, and a name that occurs once never comes to occur twice.
pub proof fn lemma_with_extension_idempotent(list: Seq<Seq<char>>, name: Seq<char>)
    ensures
        with_extension(list, name).contains(name),
        with_extension(with_extension(list, name), name) == with_extension(list, name),
        forall|i: int, j: int|
            0 <= i < j < with_extension(list, name).len() && with_extension(list, name)[i] == name
                && with_extension(list, name)[j] == name ==> j < list.len(),
{
    let once = with_extension(list, name);
    if !list.contains(name) {
        assert(once[list.len() as int] == name);
    }
}

/// Makes sure that `name` is in `list`, without ever adding it a second time.
pub fn ensure_extension(list: &mut Vec<String>, name: &str)
    ensures
        texts(final(list)@) == with_extension(texts(old(list)@), name@),
{
    let wanted = String::from_str(name);
    let ghost before = texts(list@);
    let mut i: usize = 0;
    while i < list.len()
        invariant
            i <= list@.len(),
            wanted@ == name@,
            before == texts(list@),
            list@ == old(list)@,
            forall|k: int| 0 <= k < i ==> before[k] != name@,
        decreases list@.len() - i,
    {
        if list[i] == wanted {
            assert(before[i as int] == name@);
            return ;
        }
        i = i + 1;
    }
    let ghost unchanged = list@;
    list.push(wanted);
    proof {
        lemma_map_values_push(unchanged, wanted, |s: String| s@);
    }
}

/// A copy of a list of texts.
fn copy_texts(list: &Vec<String>) -> (r: Vec<String>)
    ensures
        r@ == list@,
{
    let mut r: Vec<String> = Vec::new();
    let mut i: usize = 0;
    while i < list.len()
        invariant
            i <= list@.len(),
            r@ == list@.take(i as int),
        decreases list@.len() - i,
    {
        r.push(list[i].clone());
        assert(r@ =~= list@.take(i + 1));
        i = i + 1;
    }
    assert(list@.take(i as int) =~= list@);
    r
}

/// The extension list of the rebuilt document: the list of the source, with the
/// KTX2 extension made sure of where textures are transcoded.
pub open spec fn rebuilt_extensions(list: Seq<Seq<char>>, convert_to_ktx2: bool) -> Seq<Seq<char>> {
    if convert_to_ktx2 {
        with_extension(list, basisu_extension())
    } else {
        list
    }
}

/// Executable form of [`rebuilt_extensions`].
fn rebuild_extensions(list: &Vec<String>, convert_to_ktx2: bool) -> (r: Vec<String>)
    ensures
        texts(r@) == rebuilt_extensions(texts(list@), convert_to_ktx2),
{
    let mut r = copy_texts(list);
    if convert_to_ktx2 {
        ensure_extension(&mut r, "KHR_texture_basisu");
        proof {
            reveal_strlit("KHR_texture_basisu");
            assert("KHR_texture_basisu"@ =~= basisu_extension());
        }
    }
    r
}

/// Extension idempotence for whole rebuilds: the extension list of a rebuild of a
/// rebuild is the extension list of the rebuild.
pub proof fn lemma_rebuilt_extensions_idempotent(list: Seq<Seq<char>>, convert_to_ktx2: bool)
    ensures
        rebuilt_extensions(rebuilt_extensions(list, convert_to_ktx2), convert_to_ktx2)
            == rebuilt_extensions(list, convert_to_ktx2),
{
    lemma_with_extension_idempotent(list, basisu_extension());
}

/// What a rebuild of `source` holds before it turns to skin `s`: what the meshes
/// need, and the accessors of the skins before it.
pub open spec fn skin_base(
    source: DocumentView,
    blob_len: int,
    remove_normal_texture: bool,
    s: int,
) -> Growth {
    meshes_growth(source, blob_len, source.meshes, remove_normal_texture).plus(
        Growth::accessors(skins_growth(source, blob_len, source.skins.take(s))),
    )
}

impl OutputView {
    /// Number of blob bytes that the buffer views cover.
    pub open spec fn content_len(self) -> int {
        if self.document.buffer_views.len() == 0 {
            0
        } else {
            self.document.buffer_views.last().end()
        }
    }

    /// The output holds exactly `growth`, and one buffer view for every accessor
    /// and every image.
    pub open spec fn holds(self, growth: Growth) -> bool {
        &&& held_by(self) == growth
        &&& self.document.buffer_views.len() == growth.accessors + growth.images
    }

    /// The blob is ready to be written: the buffer views tile its content from
    /// zero on, fewer than four zero bytes follow the content and bring the length
    /// to a multiple of four, the one buffer of the document declares that
    /// length, and every buffer view lies in that buffer.
    pub open spec fn packed(self) -> bool {
        &&& self.document.tiles(self.content_len())
        &&& self.content_len() <= self.blob.len() < self.content_len() + 4
        &&& self.blob.len() % 4 == 0
        &&& forall|i: int| self.content_len() <= i < self.blob.len() ==> self.blob[i] == 0u8
        &&& self.document.buffers.len() == 1
        &&& self.document.buffers[0].byte_length == self.blob.len()
        &&& forall|k: int|
            0 <= k < self.document.buffer_views.len() ==> (
            #[trigger] self.document.buffer_views[k]).buffer < self.document.buffers.len()
    }

    /// The output is a complete rebuild of `source`: referentially closed, with no
    /// meaning twice among the attributes of a primitive, packed and traceable; its meshes and skins stand one for one for those of the
    /// source; it holds no entity but those that the meshes and skins need; and
    /// its extension lists are those of the source, with the KTX2 extension made
    /// sure of where textures are transcoded.
    pub open spec fn rebuilds(
        self,
        source: DocumentView,
        blob_len: int,
        pivot: Option<Vec3>,
        remove_normal_texture: bool,
        convert_to_ktx2: bool,
    ) -> bool {
        &&& self.document.closed()
        &&& self.document.keyed()
        &&& self.packed()
        &&& self.traceable(source)
        &&& self.document.meshes.len() == source.meshes.len()
        &&& forall|m: int|
            0 <= m < source.meshes.len() ==> #[trigger] mesh_rebuilt(
                self,
                source,
                blob_len,
                self.document.meshes[m],
                source.meshes[m],
                pivot,
                remove_normal_texture,
                convert_to_ktx2,
                meshes_growth(source, blob_len, source.meshes.take(m), remove_normal_texture),
            )
        &&& self.document.skins.len() == source.skins.len()
        &&& forall|s: int|
            0 <= s < source.skins.len() ==> #[trigger] indices_rebuilt(
                self,
                source,
                blob_len,
                self.document.skins[s].inverse_bind_matrices,
                source.skins[s].inverse_bind_matrices,
                skin_base(source, blob_len, remove_normal_texture, s),
            )
        &&& self.holds(document_growth(source, blob_len, remove_normal_texture))
        &&& self.document.extensions_used == rebuilt_extensions(
            source.extensions_used,
            convert_to_ktx2,
        )
        &&& self.document.extensions_required == rebuilt_extensions(
            source.extensions_required,
            convert_to_ktx2,
        )
    }
}

/// Blob alignment: the blob of a packed output has a length that is a multiple of
/// four.
pub proof fn lemma_packed_aligned(out: OutputView)
    requires
        out.packed(),
    ensures
        out.blob.len() % 4 == 0,
{
}

/// Non-overlap: in a packed output the byte ranges of two different buffer views
/// have no byte in common, and both lie inside the blob.
pub proof fn lemma_packed_views_disjoint(out: OutputView, i: int, j: int)
    requires
        out.packed(),
        0 <= i < out.document.buffer_views.len(),
        0 <= j < out.document.buffer_views.len(),
        i != j,
    ensures
        0 <= out.document.buffer_views[i].start(),
        out.document.buffer_views[i].end() <= out.blob.len(),
        out.document.buffer_views[i].end() <= out.document.buffer_views[j].start()
            || out.document.buffer_views[j].end() <= out.document.buffer_views[i].start(),
{
    lemma_tiles_within(out.document, out.content_len(), i);
    if i < j {
        lemma_tiles_ordered(out.document, out.content_len(), i, j);
    } else {
        lemma_tiles_ordered(out.document, out.content_len(), j, i);
    }
}

/// What a rebuild keeps of the counts: the rebuilt document always has as many
/// meshes and skins as the source, and it has as many materials, textures and
/// images as the source exactly where the primitives of the source name as many
/// materials as the source holds, and their slots as many convertible textures
/// as the source holds textures and images.
pub proof fn lemma_rebuild_keeps_counts(
    out: OutputView,
    source: DocumentView,
    blob_len: int,
    pivot: Option<Vec3>,
    remove_normal_texture: bool,
    convert_to_ktx2: bool,
)
    requires
        out.rebuilds(source, blob_len, pivot, remove_normal_texture, convert_to_ktx2),
    ensures
        out.document.meshes.len() == source.meshes.len(),
        out.document.skins.len() == source.skins.len(),
        out.document.materials.len() == source.materials.len() <==> document_growth(
            source,
            blob_len,
            remove_normal_texture,
        ).materials == source.materials.len(),
        out.document.textures.len() == source.textures.len() <==> document_growth(
            source,
            blob_len,
            remove_normal_texture,
        ).textures == source.textures.len(),
        out.document.images.len() == source.images.len() <==> document_growth(
            source,
            blob_len,
            remove_normal_texture,
        ).images == source.images.len(),
{
}

/// Where the entities of primitive `q` of `mesh` start in an output that held
/// `start` before the mesh was rebuilt.
pub open spec fn primitive_base(
    start: OutputView,
    source: DocumentView,
    blob_len: int,
    mesh: MeshView,
    remove_normal_texture: bool,
    q: int,
) -> Growth {
    held_by(start).plus(
        primitives_growth(source, blob_len, mesh.primitives.take(q), remove_normal_texture),
    )
}

/// Rebuilds mesh `m` of the source document and appends it to the output.
fn rebuild_mesh<A: Fn(u32, u32) -> u32, E: Fn(Ktx2Job) -> Result<Vec<u8>, String>>(
    out: &mut Output,
    o_blob: &[u8],
    o_json: &Document,
    m: usize,
    n_tex_size: u32,
    remove_normal_texture: bool,
    convert_to_ktx2: bool,
    pivot_offset: Option<Vec3>,
    plus: &A,
    compress: &E,
) -> (r: Result<(), ConversionError>)
    requires
        old(out)@.wf(o_json@),
        faithful(old(out)@, o_json@, o_blob@, *plus),
        callable(*plus),
        accepts_jobs(*compress),
        transcoded(old(out)@, o_json@, o_blob@, *compress, n_tex_size, convert_to_ktx2),
        m < o_json@.meshes.len(),
        o_json@.meshes[m as int].keyed(),
    ensures
        final(out)@.wf(o_json@),
        transcoded(final(out)@, o_json@, o_blob@, *compress, n_tex_size, convert_to_ktx2),
        faithful(final(out)@, o_json@, o_blob@, *plus),
        old(out)@.extended_by(final(out)@),
        translations_are(old(out)@, pivot_offset) ==> translations_are(final(out)@, pivot_offset),
        final(out)@.document.skins == old(out)@.document.skins,
        final(out)@.document.buffers == old(out)@.document.buffers,
        r is Ok ==> {
            &&& final(out)@.document.meshes.len() == old(out)@.document.meshes.len() + 1
            &&& final(out)@.document.meshes.last().keyed()
            &&& grown_by(
                old(out)@,
                final(out)@,
                primitives_growth(
                    o_json@,
                    o_blob@.len() as int,
                    o_json@.meshes[m as int].primitives,
                    remove_normal_texture,
                ),
            )
            &&& mesh_rebuilt(
                final(out)@,
                o_json@,
                o_blob@.len() as int,
                final(out)@.document.meshes.last(),
                o_json@.meshes[m as int],
                pivot_offset,
                remove_normal_texture,
                convert_to_ktx2,
                held_by(old(out)@),
            )
        },
        r matches Err(e) ==> failure_caused(
            o_json@,
            o_blob@,
            *compress,
            n_tex_size,
            convert_to_ktx2,
            e,
        ),
        r matches Err(e) ==> failed_on(o_json@, o_blob@.len() as int, remove_normal_texture, e),
{
    let ghost start = out@;
    let ghost source = o_json@;
    let ghost blob_len = o_blob@.len() as int;
    let mesh = &o_json.meshes[m];
    assert(source.meshes[m as int] == mesh@);
    let mut primitives: Vec<Primitive> = Vec::new();
    let mut j: usize = 0;
    assert(mesh@.primitives.take(0) =~= Seq::empty());
    while j < mesh.primitives.len()
        invariant
            j <= mesh.primitives@.len(),
            source == o_json@,
            blob_len == o_blob@.len(),
            source.meshes[m as int] == mesh@,
            m < source.meshes.len(),
            mesh@.keyed(),
            forall|q: int| 0 <= q < j ==> (#[trigger] primitives@[q])@.keyed(),
            start == old(out)@,
            out@.wf(source),
            faithful(out@, source, o_blob@, *plus),
            callable(*plus),
            accepts_jobs(*compress),
            transcoded(out@, o_json@, o_blob@, *compress, n_tex_size, convert_to_ktx2),
            start.extended_by(out@),
            translations_are(start, pivot_offset) ==> translations_are(out@, pivot_offset),
            keeps_scene(start, out@),
            primitives@.len() == j,
            grown_by(
                start,
                out@,
                primitives_growth(
                    source,
                    blob_len,
                    mesh@.primitives.take(j as int),
                    remove_normal_texture,
                ),
            ),
            forall|q: int|
                0 <= q < j ==> #[trigger] primitive_rebuilt(
                    out@,
                    source,
                    blob_len,
                    primitives@[q]@,
                    mesh@.primitives[q],
                    pivot_offset,
                    remove_normal_texture,
                    convert_to_ktx2,
                    primitive_base(start, source, blob_len, mesh@, remove_normal_texture, q),
                ),
            forall|q: int|
                0 <= q < j ==> (#[trigger] primitives@[q])@.resolves(
                    out@.document.accessors.len(),
                    out@.document.materials.len(),
                ),
        decreases mesh.primitives@.len() - j,
    {
        let ghost prev = out@;
        let ghost done = primitives@;
        let p = &mesh.primitives[j];
        assert(mesh@.primitives[j as int] == p@);
        let np = match add_primitive(
            out,
            o_blob,
            o_json,
            p,
            n_tex_size,
            remove_normal_texture,
            convert_to_ktx2,
            pivot_offset,
            plus,
            compress,
        ) {
            Ok(np) => np,
            Err(e) => {
                proof {
                    lemma_extended_by_transitive(start, prev, out@);
                    assert(source.meshes[m as int].primitives[j as int].material == p.material);
                    assert(material_failed(
                        source,
                        blob_len,
                        source.meshes[m as int].primitives[j as int].material,
                        remove_normal_texture,
                        e,
                    ));
                }
                return Err(e);
            },
        };
        primitives.push(np);
        proof {
            let next = mesh@.primitives.take(j + 1);
            assert(next.drop_last() =~= mesh@.primitives.take(j as int));
            assert(next.last() == p@);
            lemma_extended_by_transitive(start, prev, out@);
            assert forall|q: int| 0 <= q < j + 1 implies #[trigger] primitive_rebuilt(
                out@,
                source,
                blob_len,
                primitives@[q]@,
                mesh@.primitives[q],
                pivot_offset,
                remove_normal_texture,
                convert_to_ktx2,
                primitive_base(start, source, blob_len, mesh@, remove_normal_texture, q),
            ) by {
                let base = primitive_base(start, source, blob_len, mesh@, remove_normal_texture, q);
                if q < j {
                    assert(primitive_rebuilt(
                        prev,
                        source,
                        blob_len,
                        done[q]@,
                        mesh@.primitives[q],
                        pivot_offset,
                        remove_normal_texture,
                        convert_to_ktx2,
                        base,
                    ));
                    lemma_primitive_rebuilt_stable(
                        prev,
                        out@,
                        source,
                        blob_len,
                        done[q]@,
                        mesh@.primitives[q],
                        pivot_offset,
                        remove_normal_texture,
                        convert_to_ktx2,
                        base,
                    );
                } else {
                    assert(base == held_by(prev));
                }
            }
            assert forall|q: int| 0 <= q < j + 1 implies (#[trigger] primitives@[q])@.resolves(
                out@.document.accessors.len(),
                out@.document.materials.len(),
            ) by {
                if q < j {
                    assert(done[q]@.resolves(
                        prev.document.accessors.len(),
                        prev.document.materials.len(),
                    ));
                    lemma_primitive_resolves_grows(
                        done[q]@,
                        prev.document.accessors.len(),
                        prev.document.materials.len(),
                        out@.document.accessors.len(),
                        out@.document.materials.len(),
                    );
                }
            }
        }
        j = j + 1;
    }
    assert(mesh@.primitives.take(j as int) =~= mesh@.primitives);
    let ghost built = out@;
    let ghost meshes_before = out.document.meshes@;
    let n_mesh = Mesh { primitives };
    let idx: usize = out.document.meshes.len();
    out.document.meshes.push(n_mesh);
    proof {
        lemma_map_values_push(meshes_before, n_mesh, |x: Mesh| x@);
        assert(out@.document.meshes == built.document.meshes.push(n_mesh@));
        assert(built.extended_by(out@));
        lemma_extended_by_transitive(start, built, out@);
        lemma_tiles_same_views(built.document, out@.document, built.blob.len() as int);
        assert(out@.document.meshes[idx as int] == n_mesh@);
        assert forall|q: int| 0 <= q < n_mesh@.primitives.len() implies (
        #[trigger] n_mesh@.primitives[q]).keyed() by {
            assert(n_mesh.primitives@[q]@.keyed());
        }
        assert forall|q: int| 0 <= q < n_mesh@.primitives.len() implies (
        #[trigger] n_mesh@.primitives[q]).resolves(
            out@.document.accessors.len(),
            out@.document.materials.len(),
        ) by {
            assert(n_mesh.primitives@[q]@.resolves(
                built.document.accessors.len(),
                built.document.materials.len(),
            ));
        }
        assert(out@.document.mesh_resolves(idx as int));
        lemma_closed_extended(built.document, out@.document);
        lemma_traceable_extended(built, out@, source);
        lemma_keeps_translations(built, out@);
        lemma_faithful_extended(built, out@, source, o_blob@, *plus);
        lemma_transcoded_extended(built, out@, o_json@, o_blob@, *compress, n_tex_size, convert_to_ktx2);
        assert forall|q: int| 0 <= q < n_mesh@.primitives.len() implies #[trigger] primitive_rebuilt(
            out@,
            source,
            blob_len,
            n_mesh@.primitives[q],
            mesh@.primitives[q],
            pivot_offset,
            remove_normal_texture,
            convert_to_ktx2,
            held_by(start).plus(
                primitives_growth(
                    source,
                    blob_len,
                    mesh@.primitives.take(q),
                    remove_normal_texture,
                ),
            ),
        ) by {
            let base = primitive_base(start, source, blob_len, mesh@, remove_normal_texture, q);
            assert(primitive_rebuilt(
                built,
                source,
                blob_len,
                n_mesh.primitives@[q]@,
                mesh@.primitives[q],
                pivot_offset,
                remove_normal_texture,
                convert_to_ktx2,
                base,
            ));
            lemma_primitive_rebuilt_stable(
                built,
                out@,
                source,
                blob_len,
                n_mesh@.primitives[q],
                mesh@.primitives[q],
                pivot_offset,
                remove_normal_texture,
                convert_to_ktx2,
                base,
            );
        }
    }
    Ok(())
}

/// Rebuilds skin `s` of the source document and appends it to the output: its
/// inverse-bind-matrix accessor is relocated, or dropped where that fails.
fn rebuild_skin<A: Fn(u32, u32) -> u32>(
    out: &mut Output,
    o_blob: &[u8],
    o_json: &Document,
    s: usize,
    plus: &A,
)
    requires
        old(out)@.wf(o_json@),
        faithful(old(out)@, o_json@, o_blob@, *plus),
        s < o_json@.skins.len(),
    ensures
        final(out)@.wf(o_json@),
        faithful(final(out)@, o_json@, o_blob@, *plus),
        old(out)@.extended_by(final(out)@),
        keeps_translations(old(out)@, final(out)@),
        final(out)@.document.meshes == old(out)@.document.meshes,
        final(out)@.document.buffers == old(out)@.document.buffers,
        final(out)@.document.skins.len() == old(out)@.document.skins.len() + 1,
        grown_by(
            old(out)@,
            final(out)@,
            Growth::accessors(
                accessor_growth(
                    o_json@,
                    o_blob@.len() as int,
                    o_json@.skins[s as int].inverse_bind_matrices,
                ),
            ),
        ),
        indices_rebuilt(
            final(out)@,
            o_json@,
            o_blob@.len() as int,
            final(out)@.document.skins.last().inverse_bind_matrices,
            o_json@.skins[s as int].inverse_bind_matrices,
            held_by(old(out)@),
        ),
{
    let ghost start = out@;
    let ghost source = o_json@;
    let ghost blob_len = o_blob@.len() as int;
    let skin = o_json.skins[s];
    let ibm = match skin.inverse_bind_matrices {
        Some(i) => add_accessor(out, o_blob, o_json, i),
        None => None,
    };
    let blob_size: usize = out.blob.len();
    let view_count: usize = out.document.buffer_views.len();
    proof {
        if skin.inverse_bind_matrices is Some && accessor_range(
            source,
            blob_len,
            skin.inverse_bind_matrices->0 as int,
        ) is Some {
            let i = skin.inverse_bind_matrices->0 as int;
            let range = accessor_range(source, blob_len, i)->0;
            lemma_faithful_relocated(
                start,
                out@,
                source,
                o_blob@,
                *plus,
                i,
                o_blob@.subrange(range.0, range.1),
                None,
            );
        }
    }
    let ghost relocated = out@;
    let idx: usize = out.document.skins.len();
    out.document.skins.push(Skin { inverse_bind_matrices: ibm });
    proof {
        assert(relocated.extended_by(out@));
        lemma_extended_by_transitive(start, relocated, out@);
        lemma_keeps_translations(start, out@);
        lemma_tiles_same_views(relocated.document, out@.document, relocated.blob.len() as int);
        assert(out@.document.skin_resolves(idx as int));
        lemma_closed_extended(relocated.document, out@.document);
        lemma_traceable_extended(relocated, out@, source);
        lemma_faithful_extended(relocated, out@, source, o_blob@, *plus);
        lemma_indices_rebuilt_stable(
            relocated,
            out@,
            source,
            blob_len,
            ibm,
            skin.inverse_bind_matrices,
            held_by(start),
        );
    }
}

/// Pads the blob to a multiple of four bytes and appends the buffer that
/// declares its length.
fn pack<A: Fn(u32, u32) -> u32>(out: &mut Output, o_json: &Document, o_blob: &[u8], plus: &A)
    requires
        old(out)@.wf(o_json@),
        faithful(old(out)@, o_json@, o_blob@, *plus),
        old(out)@.document.buffers.len() == 0,
    ensures
        final(out)@.document.closed(),
        final(out)@.packed(),
        final(out)@.traceable(o_json@),
        faithful(final(out)@, o_json@, o_blob@, *plus),
        old(out)@.extended_by(final(out)@),
        keeps_translations(old(out)@, final(out)@),
        final(out)@.document.meshes == old(out)@.document.meshes,
        final(out)@.document.skins == old(out)@.document.skins,
        grown_by(old(out)@, final(out)@, Growth::zero()),
{
    let ghost content = out@;
    pad_to_4bytes(&mut out.blob);
    let byte_length: usize = out.blob.len();
    out.document.buffers.push(Buffer { byte_length });
    proof {
        assert(content.extended_by(out@));
        lemma_keeps_translations(content, out@);
        lemma_tiles_same_views(content.document, out@.document, content.blob.len() as int);
        lemma_closed_extended(content.document, out@.document);
        lemma_traceable_extended(content, out@, o_json@);
        lemma_faithful_extended(content, out@, o_json@, o_blob@, *plus);
        assert forall|k: int| 0 <= k < out@.document.buffer_views.len() implies (
        #[trigger] out@.document.buffer_views[k]).buffer < out@.document.buffers.len() by {
            assert(out@.view_traceable(o_json@, k));
        }
    }
}

/// Rebuilds the asset `o_json` with blob `o_blob`.
///
/// One pass over the source: every mesh is rebuilt primitive by primitive, then
/// every skin; the blob is padded to a multiple of four bytes and the one buffer
/// of the new document declares its length. Textures are scaled down to
/// `new_texture_size` on both sides where they are larger (metallic-roughness
/// textures to half of it) and re-encoded, to KTX2 by `compress` where
/// `convert_to_ktx2` is set. Positions are translated by `pivot_offset`, where one
/// is given, with `plus` as the addition of two single-precision bit patterns.
///
/// The attributes of every primitive have to be a map: no meaning twice. Fails
/// only where a codec fails; nothing of the output is handed out then.
pub fn optimize<A: Fn(u32, u32) -> u32, E: Fn(Ktx2Job) -> Result<Vec<u8>, String>>(
    o_json: &Document,
    o_blob: &[u8],
    new_texture_size: u32,
    remove_normal_texture: bool,
    convert_to_ktx2: bool,
    pivot_offset: Option<Vec3>,
    plus: &A,
    compress: &E,
) -> (r: Result<Output, ConversionError>)
    requires
        callable(*plus),
        accepts_jobs(*compress),
        o_json@.keyed(),
    ensures
        r matches Ok(out) ==> {
            &&& out@.rebuilds(
                o_json@,
                o_blob@.len() as int,
                pivot_offset,
                remove_normal_texture,
                convert_to_ktx2,
            )
            &&& faithful(out@, o_json@, o_blob@, *plus)
            &&& translations_are(out@, pivot_offset)
            &&& transcoded(out@, o_json@, o_blob@, *compress, new_texture_size, convert_to_ktx2)
        },
        r matches Err(e) ==> failure_caused(
            o_json@,
            o_blob@,
            *compress,
            new_texture_size,
            convert_to_ktx2,
            e,
        ),
        r matches Err(e) ==> failed_on(o_json@, o_blob@.len() as int, remove_normal_texture, e),
        (forall|t: int| #[trigger] image_range(o_json@, o_blob@.len() as int, t) is None) ==> r is Ok,
{
    let ghost source = o_json@;
    let ghost blob_len = o_blob@.len() as int;
    let mut out = Output::new();
    out.document.extensions_used = rebuild_extensions(&o_json.extensions_used, convert_to_ktx2);
    out.document.extensions_required =
    rebuild_extensions(&o_json.extensions_required, convert_to_ktx2);
    assert(out@.wf(source));
    assert(faithful(out@, source, o_blob@, *plus));
    let mut m: usize = 0;
    assert(source.meshes.take(0) =~= Seq::empty());
    while m < o_json.meshes.len()
        invariant
            m <= o_json.meshes@.len(),
            source.meshes.len() == o_json.meshes@.len(),
            out@.holds(
                meshes_growth(source, blob_len, source.meshes.take(m as int), remove_normal_texture),
            ),
            source == o_json@,
            blob_len == o_blob@.len(),
            callable(*plus),
            accepts_jobs(*compress),
            out@.wf(source),
            faithful(out@, source, o_blob@, *plus),
            translations_are(out@, pivot_offset),
            transcoded(out@, o_json@, o_blob@, *compress, new_texture_size, convert_to_ktx2),
            out@.document.meshes.len() == m,
            forall|k: int| 0 <= k < m ==> (#[trigger] out@.document.meshes[k]).keyed(),
            source.keyed(),
            out@.document.skins.len() == 0,
            out@.document.buffers.len() == 0,
            out@.document.extensions_used == rebuilt_extensions(
                source.extensions_used,
                convert_to_ktx2,
            ),
            out@.document.extensions_required == rebuilt_extensions(
                source.extensions_required,
                convert_to_ktx2,
            ),
            forall|k: int|
                0 <= k < m ==> #[trigger] mesh_rebuilt(
                    out@,
                    source,
                    blob_len,
                    out@.document.meshes[k],
                    source.meshes[k],
                    pivot_offset,
                    remove_normal_texture,
                    convert_to_ktx2,
                    meshes_growth(source, blob_len, source.meshes.take(k), remove_normal_texture),
                ),
        decreases o_json.meshes@.len() - m,
    {
        let ghost prev = out@;
        proof {
            let next = source.meshes.take(m + 1);
            assert(next.drop_last() =~= source.meshes.take(m as int));
            assert(next.last() == source.meshes[m as int]);
        }
        match rebuild_mesh(
            &mut out,
            o_blob,
            o_json,
            m,
            new_texture_size,
            remove_normal_texture,
            convert_to_ktx2,
            pivot_offset,
            plus,
            compress,
        ) {
            Ok(()) => {},
            Err(e) => {
                proof {
                    if forall|t: int| #[trigger] image_range(source, blob_len, t) is None {
                        lemma_nothing_to_convert_nothing_to_fail(
                            source,
                            blob_len,
                            remove_normal_texture,
                            e,
                        );
                    }
                }
                return Err(e);
            },
        }
        proof {
            assert forall|k: int| 0 <= k < m + 1 implies (
            #[trigger] out@.document.meshes[k]).keyed() by {
                if k < m {
                    assert(prev.document.meshes[k].keyed());
                }
            }
            assert forall|k: int| 0 <= k < m + 1 implies #[trigger] mesh_rebuilt(
                out@,
                source,
                blob_len,
                out@.document.meshes[k],
                source.meshes[k],
                pivot_offset,
                remove_normal_texture,
                convert_to_ktx2,
                meshes_growth(source, blob_len, source.meshes.take(k), remove_normal_texture),
            ) by {
                let base = meshes_growth(
                    source,
                    blob_len,
                    source.meshes.take(k),
                    remove_normal_texture,
                );
                if k < m {
                    assert(mesh_rebuilt(
                        prev,
                        source,
                        blob_len,
                        prev.document.meshes[k],
                        source.meshes[k],
                        pivot_offset,
                        remove_normal_texture,
                        convert_to_ktx2,
                        base,
                    ));
                    lemma_mesh_rebuilt_stable(
                        prev,
                        out@,
                        source,
                        blob_len,
                        prev.document.meshes[k],
                        source.meshes[k],
                        pivot_offset,
                        remove_normal_texture,
                        convert_to_ktx2,
                        base,
                    );
                } else {
                    assert(base == held_by(prev));
                }
            }
        }
        m = m + 1;
    }
    assert(source.meshes.take(m as int) =~= source.meshes);
    let ghost meshed = out@;
    let mut s: usize = 0;
    assert(source.skins.take(0) =~= Seq::empty());
    while s < o_json.skins.len()
        invariant
            s <= o_json.skins@.len(),
            grown_by(
                meshed,
                out@,
                Growth::accessors(skins_growth(source, blob_len, source.skins.take(s as int))),
            ),
            meshed.holds(meshes_growth(source, blob_len, source.meshes, remove_normal_texture)),
            source == o_json@,
            blob_len == o_blob@.len(),
            out@.wf(source),
            faithful(out@, source, o_blob@, *plus),
            translations_are(out@, pivot_offset),
            transcoded(out@, o_json@, o_blob@, *compress, new_texture_size, convert_to_ktx2),
            meshed.extended_by(out@),
            out@.document.meshes == meshed.document.meshes,
            out@.document.skins.len() == s,
            out@.document.buffers.len() == 0,
            forall|k: int|
                0 <= k < s ==> #[trigger] indices_rebuilt(
                    out@,
                    source,
                    blob_len,
                    out@.document.skins[k].inverse_bind_matrices,
                    source.skins[k].inverse_bind_matrices,
                    skin_base(source, blob_len, remove_normal_texture, k),
                ),
        decreases o_json.skins@.len() - s,
    {
        let ghost prev = out@;
        rebuild_skin(&mut out, o_blob, o_json, s, plus);
        proof {
            lemma_transcoded_extended(prev, out@, o_json@, o_blob@, *compress, new_texture_size, convert_to_ktx2);
            let next = source.skins.take(s + 1);
            assert(next.drop_last() =~= source.skins.take(s as int));
            assert(next.last() == source.skins[s as int]);
            lemma_extended_by_transitive(meshed, prev, out@);
            assert forall|k: int| 0 <= k < s + 1 implies #[trigger] indices_rebuilt(
                out@,
                source,
                blob_len,
                out@.document.skins[k].inverse_bind_matrices,
                source.skins[k].inverse_bind_matrices,
                skin_base(source, blob_len, remove_normal_texture, k),
            ) by {
                let at = skin_base(source, blob_len, remove_normal_texture, k);
                if k < s {
                    assert(indices_rebuilt(
                        prev,
                        source,
                        blob_len,
                        prev.document.skins[k].inverse_bind_matrices,
                        source.skins[k].inverse_bind_matrices,
                        at,
                    ));
                    lemma_indices_rebuilt_stable(
                        prev,
                        out@,
                        source,
                        blob_len,
                        prev.document.skins[k].inverse_bind_matrices,
                        source.skins[k].inverse_bind_matrices,
                        at,
                    );
                } else {
                    assert(at == held_by(prev));
                }
            }
        }
        s = s + 1;
    }
    assert(source.skins.take(s as int) =~= source.skins);
    let ghost skinned = out@;
    pack(&mut out, o_json, o_blob, plus);
    proof {
        lemma_transcoded_extended(skinned, out@, o_json@, o_blob@, *compress, new_texture_size, convert_to_ktx2);
        lemma_extended_by_transitive(meshed, skinned, out@);
        assert forall|k: int| 0 <= k < source.meshes.len() implies #[trigger] mesh_rebuilt(
            out@,
            source,
            blob_len,
            out@.document.meshes[k],
            source.meshes[k],
            pivot_offset,
            remove_normal_texture,
            convert_to_ktx2,
            meshes_growth(source, blob_len, source.meshes.take(k), remove_normal_texture),
        ) by {
            let base = meshes_growth(
                source,
                blob_len,
                source.meshes.take(k),
                remove_normal_texture,
            );
            assert(mesh_rebuilt(
                meshed,
                source,
                blob_len,
                meshed.document.meshes[k],
                source.meshes[k],
                pivot_offset,
                remove_normal_texture,
                convert_to_ktx2,
                base,
            ));
            lemma_mesh_rebuilt_stable(
                meshed,
                out@,
                source,
                blob_len,
                meshed.document.meshes[k],
                source.meshes[k],
                pivot_offset,
                remove_normal_texture,
                convert_to_ktx2,
                base,
            );
        }
        assert forall|k: int| 0 <= k < source.skins.len() implies #[trigger] indices_rebuilt(
            out@,
            source,
            blob_len,
            out@.document.skins[k].inverse_bind_matrices,
            source.skins[k].inverse_bind_matrices,
            skin_base(source, blob_len, remove_normal_texture, k),
        ) by {
            let at = skin_base(source, blob_len, remove_normal_texture, k);
            assert(indices_rebuilt(
                skinned,
                source,
                blob_len,
                skinned.document.skins[k].inverse_bind_matrices,
                source.skins[k].inverse_bind_matrices,
                at,
            ));
            lemma_indices_rebuilt_stable(
                skinned,
                out@,
                source,
                blob_len,
                skinned.document.skins[k].inverse_bind_matrices,
                source.skins[k].inverse_bind_matrices,
                at,
            );
        }
    }
    Ok(out)
}

/// Rebuilds the asset `o_json` with blob `o_blob`, recentred where asked for.
///
/// With `center_pivot` the bounding box of all position data is computed, with
/// `lower` and `upper` as minimum and maximum, and the offset that moves its
/// bottom centre to the origin, with `plus` and `half`; the asset is then rebuilt
/// as [`optimize`] does with that offset. Where no position data can be read, or
/// without `center_pivot`, nothing is translated.
pub fn optimize_centered<
    A: Fn(u32, u32) -> u32,
    H: Fn(u32) -> u32,
    L: Fn(u32, u32) -> u32,
    U: Fn(u32, u32) -> u32,
    E: Fn(Ktx2Job) -> Result<Vec<u8>, String>,
>(
    o_json: &Document,
    o_blob: &[u8],
    new_texture_size: u32,
    remove_normal_texture: bool,
    convert_to_ktx2: bool,
    center_pivot: bool,
    plus: &A,
    half: &H,
    lower: &L,
    upper: &U,
    compress: &E,
) -> (r: Result<Output, ConversionError>)
    requires
        callable(*plus),
        forall|a: u32| call_requires(*half, (a,)),
        comparable(*lower, *upper),
        accepts_jobs(*compress),
        o_json@.keyed(),
    ensures
        r matches Ok(out) ==> {
            &&& exists|pivot: Option<Vec3>|
                #![trigger translations_are(out@, pivot)]
                {
                    &&& pivot_chosen(
                        o_json@,
                        o_blob@,
                        center_pivot,
                        *plus,
                        *half,
                        *lower,
                        *upper,
                        pivot,
                    )
                    &&& out@.rebuilds(
                        o_json@,
                        o_blob@.len() as int,
                        pivot,
                        remove_normal_texture,
                        convert_to_ktx2,
                    )
                    &&& translations_are(out@, pivot)
                }
            &&& faithful(out@, o_json@, o_blob@, *plus)
            &&& transcoded(out@, o_json@, o_blob@, *compress, new_texture_size, convert_to_ktx2)
        },
        r matches Err(e) ==> failure_caused(
            o_json@,
            o_blob@,
            *compress,
            new_texture_size,
            convert_to_ktx2,
            e,
        ),
        r matches Err(e) ==> failed_on(o_json@, o_blob@.len() as int, remove_normal_texture, e),
        (forall|t: int| #[trigger] image_range(o_json@, o_blob@.len() as int, t) is None) ==> r is Ok,
{
    let pivot_offset = choose_pivot(o_blob, o_json, center_pivot, plus, half, lower, upper);
    optimize(
        o_json,
        o_blob,
        new_texture_size,
        remove_normal_texture,
        convert_to_ktx2,
        pivot_offset,
        plus,
        compress,
    )
}

} // verus!
