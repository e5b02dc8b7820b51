//! Rebuilding one mesh primitive: its index accessor, its vertex attributes and
//! its material.

use vstd::prelude::*;
use crate::codec::{accepts_jobs, format_for, texture_edge, Ktx2Job, TextureType};
use crate::document::{lemma_closed_extended, Attribute, Document, Material, Primitive};
use crate::growth::{
    accessor_growth, grown_by, held_by, keeps_scene, material_growth, primitive_growth,
    slot_growth, slots_growth, Growth,
};
use crate::output::{
    lemma_extended_by_transitive, lemma_tiles_same_views, lemma_traceable_extended, Output,
};
use crate::rebuilt::{
    attribute_rebuilt, attribute_translation, attributes_rebuilt, indices_rebuilt,
    lemma_attributes_rebuilt_stable, lemma_indices_rebuilt_stable, lemma_relocatable_distinct,
    lemma_slot_rebuilt_stable,
    lemma_slots_rebuilt_stable, material_failed, material_rebuilt, primitive_rebuilt, relocatable,
    slot_rebuilt, slots_failed, slots_rebuilt,
};
use crate::relocate::{
    add_accessor, add_accessor_with_offset, callable, effective_translation, faithful,
    keeps_translations, lemma_faithful_extended, lemma_faithful_relocated,
    lemma_keeps_translations, lemma_translations_extended, translations_are,
};
use crate::span::{accessor_range, image_range};
use crate::texture::{
    add_metallic_roughness_texture, add_normal_texture, add_texture, failure_caused,
    lemma_transcoded_extended, lemma_with_texture_makes, transcoded, ConversionError,
};
use crate::words::Vec3;

verus! {

/// What becomes of a texture slot after its conversion was attempted: the new
/// texture, an empty slot where the image data is missing, or the codec's failure.
fn settle(converted: Result<usize, ConversionError>) -> (r: Result<Option<usize>, ConversionError>)
    ensures
        match converted {
            Ok(t) => r == Ok::<Option<usize>, ConversionError>(Some(t)),
            Err(ConversionError::MissingImageData { .. }) => r == Ok::<
                Option<usize>,
                ConversionError,
            >(None),
            Err(e) => r == Err::<Option<usize>, ConversionError>(e),
        },
{
    match converted {
        Ok(t) => Ok(Some(t)),
        Err(ConversionError::MissingImageData { .. }) => Ok(None),
        Err(e) => Err(e),
    }
}

/// Converts the texture in one slot of a material, if the slot is filled, at the
/// edge that goes with the role of the slot.
///
/// A slot whose image data is missing comes back empty; a codec failure is
/// handed on.
fn convert_slot<E: Fn(Ktx2Job) -> Result<Vec<u8>, String>>(
    out: &mut Output,
    o_blob: &[u8],
    o_json: &Document,
    slot: Option<usize>,
    n_tex_size: u32,
    convert_to_ktx2: bool,
    role: TextureType,
    compress: &E,
) -> (r: Result<Option<usize>, ConversionError>)
    requires
        old(out)@.wf(o_json@),
        accepts_jobs(*compress),
        transcoded(old(out)@, o_json@, o_blob@, *compress, n_tex_size, convert_to_ktx2),
    ensures
        final(out)@.wf(o_json@),
        old(out)@.extended_by(final(out)@),
        keeps_scene(old(out)@, final(out)@),
        transcoded(final(out)@, o_json@, o_blob@, *compress, n_tex_size, convert_to_ktx2),
        final(out)@.document.accessors == old(out)@.document.accessors,
        final(out)@.document.materials == old(out)@.document.materials,
        r matches Ok(s) ==> grown_by(
            old(out)@,
            final(out)@,
            Growth::textures(slot_growth(o_json@, o_blob@.len() as int, slot)),
        ),
        r matches Ok(s) ==> slot_rebuilt(
            final(out)@,
            o_json@,
            o_blob@.len() as int,
            s,
            slot,
            role,
            convert_to_ktx2,
            held_by(old(out)@),
        ),
        r matches Err(e) ==> failure_caused(
            o_json@,
            o_blob@,
            *compress,
            n_tex_size,
            convert_to_ktx2,
            e,
        ),
        r matches Err(e) ==> (e matches ConversionError::Codec { role: failed, texture, .. }
            && failed == role && slot == Some(texture) && image_range(
            o_json@,
            o_blob@.len() as int,
            texture as int,
        ) is Some),
{
    let image_count: usize = out.document.images.len();
    let texture_count: usize = out.document.textures.len();
    let view_count: usize = out.document.buffer_views.len();
    match slot {
        None => Ok(None),
        Some(t) => {
            let edge = texture_edge(role, n_tex_size);
            let converted = match role {
                TextureType::BaseColor => add_texture(
                    out,
                    o_blob,
                    o_json,
                    t,
                    edge,
                    convert_to_ktx2,
                    compress,
                ),
                TextureType::Normal => add_normal_texture(
                    out,
                    o_blob,
                    o_json,
                    t,
                    edge,
                    convert_to_ktx2,
                    compress,
                ),
                TextureType::MetallicRoughness => add_metallic_roughness_texture(
                    out,
                    o_blob,
                    o_json,
                    t,
                    edge,
                    convert_to_ktx2,
                    compress,
                ),
            };
            proof {
                if converted is Ok {
                    let bytes = out@.blob.subrange(
                        old(out)@.blob.len() as int,
                        out@.blob.len() as int,
                    );
                    lemma_with_texture_makes(
                        old(out)@,
                        o_json@,
                        t as int,
                        bytes,
                        role,
                        format_for(role, convert_to_ktx2),
                    );
                    lemma_transcoded_extended(old(out)@, out@, o_json@, o_blob@, *compress, n_tex_size, convert_to_ktx2);
                }
            }
            settle(converted)
        },
    }
}

/// Converts the textures in the slots of material `mat`: base colour first, then
/// metallic-roughness, then the normal map unless it is to be left out.
fn convert_slots<E: Fn(Ktx2Job) -> Result<Vec<u8>, String>>(
    out: &mut Output,
    o_blob: &[u8],
    o_json: &Document,
    mat: Material,
    n_tex_size: u32,
    remove_normal_texture: bool,
    convert_to_ktx2: bool,
    compress: &E,
) -> (r: Result<Material, ConversionError>)
    requires
        old(out)@.wf(o_json@),
        accepts_jobs(*compress),
        transcoded(old(out)@, o_json@, o_blob@, *compress, n_tex_size, convert_to_ktx2),
    ensures
        final(out)@.wf(o_json@),
        transcoded(final(out)@, o_json@, o_blob@, *compress, n_tex_size, convert_to_ktx2),
        old(out)@.extended_by(final(out)@),
        keeps_scene(old(out)@, final(out)@),
        final(out)@.document.accessors == old(out)@.document.accessors,
        final(out)@.document.materials == old(out)@.document.materials,
        r matches Ok(now) ==> slots_rebuilt(
            final(out)@,
            o_json@,
            o_blob@.len() as int,
            now,
            mat,
            remove_normal_texture,
            convert_to_ktx2,
            held_by(old(out)@),
        ) && grown_by(
            old(out)@,
            final(out)@,
            Growth::textures(
                slots_growth(o_json@, o_blob@.len() as int, mat, remove_normal_texture),
            ),
        ),
        r matches Err(e) ==> failure_caused(
            o_json@,
            o_blob@,
            *compress,
            n_tex_size,
            convert_to_ktx2,
            e,
        ),
        r matches Err(e) ==> slots_failed(
            o_json@,
            o_blob@.len() as int,
            mat,
            remove_normal_texture,
            e,
        ),
{
    let ghost start = out@;
    let ghost source = o_json@;
    let ghost blob_len = o_blob@.len() as int;
    let base = convert_slot(
        out,
        o_blob,
        o_json,
        mat.base_color_texture,
        n_tex_size,
        convert_to_ktx2,
        TextureType::BaseColor,
        compress,
    )?;
    let ghost based = out@;
    let metallic = match convert_slot(
        out,
        o_blob,
        o_json,
        mat.metallic_roughness_texture,
        n_tex_size,
        convert_to_ktx2,
        TextureType::MetallicRoughness,
        compress,
    ) {
        Ok(s) => s,
        Err(e) => {
            proof {
                lemma_extended_by_transitive(start, based, out@);
            }
            return Err(e);
        },
    };
    let ghost metalled = out@;
    proof {
        lemma_extended_by_transitive(start, based, metalled);
        lemma_slot_rebuilt_stable(
            based,
            metalled,
            source,
            blob_len,
            base,
            mat.base_color_texture,
            TextureType::BaseColor,
            convert_to_ktx2,
            held_by(start),
        );
    }
    let normal = if remove_normal_texture {
        None
    } else {
        match convert_slot(
            out,
            o_blob,
            o_json,
            mat.normal_texture,
            n_tex_size,
            convert_to_ktx2,
            TextureType::Normal,
            compress,
        ) {
            Ok(s) => s,
            Err(e) => {
                proof {
                    lemma_extended_by_transitive(start, metalled, out@);
                }
                return Err(e);
            },
        }
    };
    proof {
        lemma_extended_by_transitive(start, metalled, out@);
        lemma_slot_rebuilt_stable(
            metalled,
            out@,
            source,
            blob_len,
            base,
            mat.base_color_texture,
            TextureType::BaseColor,
            convert_to_ktx2,
            held_by(start),
        );
        lemma_slot_rebuilt_stable(
            metalled,
            out@,
            source,
            blob_len,
            metallic,
            mat.metallic_roughness_texture,
            TextureType::MetallicRoughness,
            convert_to_ktx2,
            held_by(based),
        );
    }
    Ok(
        Material {
            base_color_texture: base,
            metallic_roughness_texture: metallic,
            normal_texture: normal,
            occlusion_texture: None,
            emissive_texture: None,
        },
    )
}

/// Relocates the index accessor of a primitive, if it has one. `plus` is not
/// called: it only names the arithmetic that the output is faithful under.
fn rebuild_indices<A: Fn(u32, u32) -> u32>(
    out: &mut Output,
    o_blob: &[u8],
    o_json: &Document,
    indices: Option<usize>,
    plus: &A,
) -> (r: Option<usize>)
    requires
        old(out)@.wf(o_json@),
        faithful(old(out)@, o_json@, o_blob@, *plus),
    ensures
        final(out)@.wf(o_json@),
        old(out)@.extended_by(final(out)@),
        faithful(final(out)@, o_json@, o_blob@, *plus),
        keeps_scene(old(out)@, final(out)@),
        final(out)@.document.materials == old(out)@.document.materials,
        indices_rebuilt(
            final(out)@,
            o_json@,
            o_blob@.len() as int,
            r,
            indices,
            held_by(old(out)@),
        ),
        keeps_translations(old(out)@, final(out)@),
        grown_by(
            old(out)@,
            final(out)@,
            Growth::accessors(accessor_growth(o_json@, o_blob@.len() as int, indices)),
        ),
{
    let ghost start = out@;
    let r = match indices {
        Some(i) => add_accessor(out, o_blob, o_json, i),
        None => None,
    };
    let blob_size: usize = out.blob.len();
    let view_count: usize = out.document.buffer_views.len();
    proof {
        lemma_keeps_translations(start, out@);
        let blob_len = o_blob@.len() as int;
        if indices is Some && accessor_range(o_json@, blob_len, indices->0 as int) is Some {
            let range = accessor_range(o_json@, blob_len, indices->0 as int)->0;
            lemma_faithful_relocated(
                start,
                out@,
                o_json@,
                o_blob@,
                *plus,
                indices->0 as int,
                o_blob@.subrange(range.0, range.1),
                None,
            );
        }
    }
    r
}

/// Relocates the vertex attributes of a primitive, dropping those that cannot be
/// relocated and translating positions by the pivot offset.
fn rebuild_attributes<A: Fn(u32, u32) -> u32>(
    out: &mut Output,
    o_blob: &[u8],
    o_json: &Document,
    attrs: &Vec<Attribute>,
    pivot_offset: Option<Vec3>,
    plus: &A,
) -> (r: Vec<Attribute>)
    requires
        old(out)@.wf(o_json@),
        faithful(old(out)@, o_json@, o_blob@, *plus),
        callable(*plus),
    ensures
        final(out)@.wf(o_json@),
        old(out)@.extended_by(final(out)@),
        faithful(final(out)@, o_json@, o_blob@, *plus),
        keeps_scene(old(out)@, final(out)@),
        final(out)@.document.materials == old(out)@.document.materials,
        attributes_rebuilt(
            final(out)@,
            o_json@,
            o_blob@.len() as int,
            r@,
            attrs@,
            pivot_offset,
            held_by(old(out)@),
        ),
        translations_are(old(out)@, pivot_offset) ==> translations_are(final(out)@, pivot_offset),
        grown_by(
            old(out)@,
            final(out)@,
            Growth::accessors(relocatable(attrs@, o_json@, o_blob@.len() as int).len()),
        ),
{
    let ghost start = out@;
    let ghost source = o_json@;
    let ghost blob_len = o_blob@.len() as int;
    let mut attributes: Vec<Attribute> = Vec::new();
    let mut k: usize = 0;
    assert(attrs@.take(0) =~= Seq::empty());
    while k < attrs.len()
        invariant
            k <= attrs@.len(),
            source == o_json@,
            blob_len == o_blob@.len(),
            out@.wf(source),
            start.extended_by(out@),
            faithful(out@, source, o_blob@, *plus),
            callable(*plus),
            keeps_scene(start, out@),
            out@.document.materials == start.document.materials,
            translations_are(start, pivot_offset) ==> translations_are(out@, pivot_offset),
            attributes_rebuilt(
                out@,
                source,
                blob_len,
                attributes@,
                attrs@.take(k as int),
                pivot_offset,
                held_by(start),
            ),
            grown_by(
                start,
                out@,
                Growth::accessors(relocatable(attrs@.take(k as int), source, blob_len).len()),
            ),
        decreases attrs@.len() - k,
    {
        let a = attrs[k];
        let offset = if a.semantic.is_positions() {
            pivot_offset
        } else {
            None
        };
        let ghost prev = out@;
        let ghost prev_attributes = attributes@;
        let ghost seen = attrs@.take(k as int);
        let ghost next = attrs@.take(k + 1);
        let ghost kept = relocatable(seen, source, blob_len);
        proof {
            assert(next.drop_last() =~= seen);
            assert(next.last() == a);
        }
        let relocated = add_accessor_with_offset(out, o_blob, o_json, a.accessor, offset, plus);
        let blob_size: usize = out.blob.len();
        let view_count: usize = out.document.buffer_views.len();
        match relocated {
            Some(idx_acc) => {
                attributes.push(Attribute { semantic: a.semantic, accessor: idx_acc });
                proof {
                    let range = accessor_range(source, blob_len, a.accessor as int)->0;
                    let acc = source.accessors[a.accessor as int];
                    let bytes = out@.blob.subrange(prev.blob.len() as int, out@.blob.len() as int);
                    let translation = effective_translation(acc, offset);
                    assert(translation == attribute_translation(source, a, pivot_offset));
                    lemma_faithful_relocated(
                        prev,
                        out@,
                        source,
                        o_blob@,
                        *plus,
                        a.accessor as int,
                        bytes,
                        translation,
                    );
                    lemma_extended_by_transitive(start, prev, out@);
                    if translations_are(prev, pivot_offset) {
                        lemma_translations_extended(prev, out@, pivot_offset);
                    }
                    let kept_next = relocatable(next, source, blob_len);
                    assert(kept_next == kept.push(a));
                    let at = held_by(start);
                    assert(attribute_rebuilt(
                        out@,
                        source,
                        attributes@[prev_attributes.len() as int],
                        a,
                        pivot_offset,
                        at.plus(Growth::accessors(prev_attributes.len())),
                    ));
                    assert forall|j: int| 0 <= j < attributes@.len() implies #[trigger] attribute_rebuilt(
                        out@,
                        source,
                        attributes@[j],
                        kept_next[j],
                        pivot_offset,
                        at.plus(Growth::accessors(j as nat)),
                    ) by {
                        if j < prev_attributes.len() {
                            assert(attribute_rebuilt(
                                prev,
                                source,
                                prev_attributes[j],
                                kept[j],
                                pivot_offset,
                                at.plus(Growth::accessors(j as nat)),
                            ));
                        }
                    }
                }
            },
            None => {
                proof {
                    assert(relocatable(next, source, blob_len) == kept);
                }
            },
        }
        k = k + 1;
    }
    assert(attrs@.take(k as int) =~= attrs@);
    attributes
}

/// Rebuilds the material that a primitive names, if it names one that exists.
fn rebuild_material<E: Fn(Ktx2Job) -> Result<Vec<u8>, String>>(
    out: &mut Output,
    o_blob: &[u8],
    o_json: &Document,
    material: Option<usize>,
    n_tex_size: u32,
    remove_normal_texture: bool,
    convert_to_ktx2: bool,
    compress: &E,
) -> (r: Result<Option<usize>, ConversionError>)
    requires
        old(out)@.wf(o_json@),
        accepts_jobs(*compress),
        transcoded(old(out)@, o_json@, o_blob@, *compress, n_tex_size, convert_to_ktx2),
    ensures
        final(out)@.wf(o_json@),
        transcoded(final(out)@, o_json@, o_blob@, *compress, n_tex_size, convert_to_ktx2),
        old(out)@.extended_by(final(out)@),
        keeps_scene(old(out)@, final(out)@),
        final(out)@.document.accessors == old(out)@.document.accessors,
        r matches Ok(m) ==> material_rebuilt(
            final(out)@,
            o_json@,
            o_blob@.len() as int,
            m,
            material,
            remove_normal_texture,
            convert_to_ktx2,
            held_by(old(out)@),
        ),
        r is Ok ==> grown_by(
            old(out)@,
            final(out)@,
            material_growth(o_json@, o_blob@.len() as int, material, remove_normal_texture),
        ),
        r matches Err(e) ==> failure_caused(
            o_json@,
            o_blob@,
            *compress,
            n_tex_size,
            convert_to_ktx2,
            e,
        ),
        r matches Err(e) ==> material_failed(
            o_json@,
            o_blob@.len() as int,
            material,
            remove_normal_texture,
            e,
        ),
{
    let idx_mat = match material {
        Some(m) => m,
        None => {
            return Ok(None);
        },
    };
    if idx_mat >= o_json.materials.len() {
        return Ok(None);
    }
    let ghost start = out@;
    let ghost source = o_json@;
    let ghost blob_len = o_blob@.len() as int;
    let mat = o_json.materials[idx_mat];
    let n_mat = convert_slots(
        out,
        o_blob,
        o_json,
        mat,
        n_tex_size,
        remove_normal_texture,
        convert_to_ktx2,
        compress,
    )?;
    let ghost textured = out@;
    let idx: usize = out.document.materials.len();
    out.document.materials.push(n_mat);
    out.origins.materials.push(idx_mat);
    proof {
        lemma_tiles_same_views(textured.document, out@.document, textured.blob.len() as int);
        assert(out@.document.material_resolves(idx as int));
        lemma_closed_extended(textured.document, out@.document);
        assert(out@.material_traceable(source, idx as int));
        lemma_traceable_extended(textured, out@, source);
        lemma_extended_by_transitive(start, textured, out@);
        lemma_transcoded_extended(textured, out@, o_json@, o_blob@, *compress, n_tex_size, convert_to_ktx2);
        lemma_slots_rebuilt_stable(
            textured,
            out@,
            source,
            blob_len,
            n_mat,
            mat,
            remove_normal_texture,
            convert_to_ktx2,
            held_by(start),
        );
    }
    Ok(Some(idx))
}

/// Rebuilds primitive `p` of the source document in the output.
///
/// The index accessor and every vertex attribute are relocated; one that cannot
/// be relocated is dropped. The pivot offset is applied to position attributes
/// only. Where the primitive names a material, its base-colour and
/// metallic-roughness textures are converted, the latter at half the edge, and
/// its normal map is converted or, where asked for, left out; a slot whose image
/// data is missing is left empty. The new material is appended and the primitive
/// points at it.
///
/// The attributes of `p` have to be a map: no meaning twice. Fails only where a
/// codec fails, with the role and the source index of the texture that it
/// failed on.
pub fn add_primitive<A: Fn(u32, u32) -> u32, E: Fn(Ktx2Job) -> Result<Vec<u8>, String>>(
    out: &mut Output,
    o_blob: &[u8],
    o_json: &Document,
    p: &Primitive,
    n_tex_size: u32,
    remove_normal_texture: bool,
    convert_to_ktx2: bool,
    pivot_offset: Option<Vec3>,
    plus: &A,
    compress: &E,
) -> (r: Result<Primitive, ConversionError>)
    requires
        old(out)@.wf(o_json@),
        faithful(old(out)@, o_json@, o_blob@, *plus),
        callable(*plus),
        accepts_jobs(*compress),
        p@.keyed(),
        transcoded(old(out)@, o_json@, o_blob@, *compress, n_tex_size, convert_to_ktx2),
    ensures
        final(out)@.wf(o_json@),
        transcoded(final(out)@, o_json@, o_blob@, *compress, n_tex_size, convert_to_ktx2),
        old(out)@.extended_by(final(out)@),
        faithful(final(out)@, o_json@, o_blob@, *plus),
        keeps_scene(old(out)@, final(out)@),
        translations_are(old(out)@, pivot_offset) ==> translations_are(final(out)@, pivot_offset),
        r matches Ok(np) ==> {
            &&& primitive_rebuilt(
                final(out)@,
                o_json@,
                o_blob@.len() as int,
                np@,
                p@,
                pivot_offset,
                remove_normal_texture,
                convert_to_ktx2,
                held_by(old(out)@),
            )
            &&& np@.keyed()
            &&& np@.resolves(
                final(out)@.document.accessors.len(),
                final(out)@.document.materials.len(),
            )
            &&& grown_by(
                old(out)@,
                final(out)@,
                primitive_growth(o_json@, o_blob@.len() as int, p@, remove_normal_texture),
            )
        },
        material_growth(o_json@, o_blob@.len() as int, p.material, remove_normal_texture).textures
            == 0 ==> r is Ok,
        r matches Err(e) ==> failure_caused(
            o_json@,
            o_blob@,
            *compress,
            n_tex_size,
            convert_to_ktx2,
            e,
        ),
        r matches Err(e) ==> material_failed(
            o_json@,
            o_blob@.len() as int,
            p.material,
            remove_normal_texture,
            e,
        ),
{
    let ghost start = out@;
    let ghost source = o_json@;
    let ghost blob_len = o_blob@.len() as int;
    let indices = rebuild_indices(out, o_blob, o_json, p.indices, plus);
    let ghost indexed = out@;
    let attributes = rebuild_attributes(out, o_blob, o_json, &p.attributes, pivot_offset, plus);
    let ghost geometry = out@;
    proof {
        lemma_extended_by_transitive(start, indexed, geometry);
        lemma_transcoded_extended(start, geometry, o_json@, o_blob@, *compress, n_tex_size, convert_to_ktx2);
    }
    let rebuilt = rebuild_material(
        out,
        o_blob,
        o_json,
        p.material,
        n_tex_size,
        remove_normal_texture,
        convert_to_ktx2,
        compress,
    );
    proof {
        lemma_keeps_translations(geometry, out@);
        lemma_extended_by_transitive(start, geometry, out@);
        lemma_extended_by_transitive(indexed, geometry, out@);
        lemma_faithful_extended(geometry, out@, source, o_blob@, *plus);
        lemma_indices_rebuilt_stable(
            indexed,
            out@,
            source,
            blob_len,
            indices,
            p.indices,
            held_by(start),
        );
        lemma_attributes_rebuilt_stable(
            geometry,
            out@,
            source,
            blob_len,
            attributes@,
            p.attributes@,
            pivot_offset,
            held_by(indexed),
        );
    }
    let material = rebuilt?;
    let np = Primitive { indices, attributes, material, targets: Vec::new() };
    proof {
        let kept = relocatable(p@.attributes, source, blob_len);
        lemma_relocatable_distinct(p@.attributes, source, blob_len);
        assert forall|i: int, j: int| 0 <= i < j < np@.attributes.len() implies (
        #[trigger] np@.attributes[i]).semantic != (#[trigger] np@.attributes[j]).semantic by {
            assert(attribute_rebuilt(
                out@,
                source,
                np@.attributes[i],
                kept[i],
                pivot_offset,
                held_by(indexed).plus(Growth::accessors(i as nat)),
            ));
            assert(attribute_rebuilt(
                out@,
                source,
                np@.attributes[j],
                kept[j],
                pivot_offset,
                held_by(indexed).plus(Growth::accessors(j as nat)),
            ));
        }
        assert forall|j: int| 0 <= j < np@.attributes.len() implies (
        #[trigger] np@.attributes[j]).accessor < out@.document.accessors.len() by {
            assert(attribute_rebuilt(
                out@,
                source,
                np@.attributes[j],
                kept[j],
                pivot_offset,
                held_by(indexed).plus(Growth::accessors(j as nat)),
            ));
        }
    }
    Ok(np)
}

} // verus!
