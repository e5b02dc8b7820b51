//! What a rebuilt entity says of the source entity that it stands for.
//!
//! Every predicate here names the entities of the output by their index, and says
//! which index that is: the rebuild appends entities in one fixed order, so what
//! the output held before a step tells where the entities of the step lie. What
//! a predicate says stays true when the output is appended to.

use vstd::prelude::*;
use crate::codec::{format_for, TextureType};
use crate::document::{
    distinct_semantics, Attribute, DocumentView, Material, MeshView, PrimitiveView,
};
use crate::growth::{accessor_growth, primitives_growth, slot_growth, Growth};
use crate::output::{AccessorOrigin, OutputView};
use crate::relocate::effective_translation;
use crate::span::{accessor_range, image_range};
use crate::texture::{texture_made, ConversionError};
use crate::words::Vec3;

verus! {

/// The attributes of `attrs` whose accessor can be relocated, in their order.
pub open spec fn relocatable(attrs: Seq<Attribute>, source: DocumentView, blob_len: int) -> Seq<
    Attribute,
>
    decreases attrs.len(),
{
    if attrs.len() == 0 {
        Seq::empty()
    } else {
        let rest = relocatable(attrs.drop_last(), source, blob_len);
        if accessor_range(source, blob_len, attrs.last().accessor as int) is Some {
            rest.push(attrs.last())
        } else {
            rest
        }
    }
}

/// The relocatable attributes are attributes of `attrs`, and where no two
/// attributes of `attrs` have the same meaning, no two of them have.
pub proof fn lemma_relocatable_distinct(attrs: Seq<Attribute>, source: DocumentView, blob_len: int)
    requires
        distinct_semantics(attrs),
    ensures
        distinct_semantics(relocatable(attrs, source, blob_len)),
        forall|k: int|
            0 <= k < relocatable(attrs, source, blob_len).len() ==> attrs.contains(
                #[trigger] relocatable(attrs, source, blob_len)[k],
            ),
    decreases attrs.len(),
{
    if attrs.len() > 0 {
        let front = attrs.drop_last();
        let rest = relocatable(front, source, blob_len);
        let kept = relocatable(attrs, source, blob_len);
        assert(distinct_semantics(front)) by {
            assert forall|i: int, j: int| 0 <= i < j < front.len() implies (
            #[trigger] front[i]).semantic != (#[trigger] front[j]).semantic by {
                assert(front[i] == attrs[i] && front[j] == attrs[j]);
            }
        }
        lemma_relocatable_distinct(front, source, blob_len);
        assert forall|k: int| 0 <= k < rest.len() implies attrs.contains(#[trigger] rest[k])
            && rest[k].semantic != attrs.last().semantic by {
            assert(front.contains(rest[k]));
            let q = choose|q: int| 0 <= q < front.len() && front[q] == rest[k];
            assert(attrs[q] == rest[k]);
        }
        assert forall|k: int| 0 <= k < kept.len() implies attrs.contains(#[trigger] kept[k]) by {
            if k < rest.len() {
                assert(kept[k] == rest[k]);
            } else {
                assert(kept[k] == attrs[attrs.len() - 1]);
            }
        }
        assert forall|i: int, j: int| 0 <= i < j < kept.len() implies (
        #[trigger] kept[i]).semantic != (#[trigger] kept[j]).semantic by {
            assert(kept[i] == rest[i]);
            if j < rest.len() {
                assert(kept[j] == rest[j]);
            }
        }
    }
}

/// The translation that the records of attribute `a` undergo: the pivot offset
/// for positions of three packed floating-point components, none otherwise.
pub open spec fn attribute_translation(source: DocumentView, a: Attribute, pivot: Option<Vec3>) -> Option<
    Vec3,
> {
    if a.semantic is Positions {
        effective_translation(source.accessors[a.accessor as int], pivot)
    } else {
        None
    }
}

/// Accessor `at.accessors` of the output was relocated from source accessor `o`
/// with translation `translation`, and its buffer view is the one that follows
/// the views of the accessors and images that the output held before it.
pub open spec fn accessor_rebuilt(
    out: OutputView,
    o: usize,
    translation: Option<Vec3>,
    at: Growth,
) -> bool {
    &&& at.accessors < out.document.accessors.len()
    &&& at.accessors < out.origins.accessors.len()
    &&& out.origins.accessors[at.accessors as int] == (AccessorOrigin { source: o, translation })
    &&& out.document.accessors[at.accessors as int].buffer_view is Some
    &&& out.document.accessors[at.accessors as int].buffer_view->0 == at.accessors + at.images
}

/// Rebuilt attribute `n` stands for source attribute `o`: same meaning, and
/// accessor `at.accessors` of the output, which was relocated from the accessor
/// of `o`.
pub open spec fn attribute_rebuilt(
    out: OutputView,
    source: DocumentView,
    n: Attribute,
    o: Attribute,
    pivot: Option<Vec3>,
    at: Growth,
) -> bool {
    &&& n.semantic == o.semantic
    &&& n.accessor == at.accessors
    &&& accessor_rebuilt(out, o.accessor, attribute_translation(source, o, pivot), at)
}

/// The rebuilt attributes `n` are the relocatable ones among `o`, one for one and
/// in order, and their accessors are those of the output from `at` on.
pub open spec fn attributes_rebuilt(
    out: OutputView,
    source: DocumentView,
    blob_len: int,
    n: Seq<Attribute>,
    o: Seq<Attribute>,
    pivot: Option<Vec3>,
    at: Growth,
) -> bool {
    let kept = relocatable(o, source, blob_len);
    &&& n.len() == kept.len()
    &&& forall|k: int|
        0 <= k < n.len() ==> #[trigger] attribute_rebuilt(
            out,
            source,
            n[k],
            kept[k],
            pivot,
            at.plus(Growth::accessors(k as nat)),
        )
}

/// The rebuilt index accessor `n` is accessor `at.accessors` of the output, which
/// was relocated, unchanged, from `o`; it is absent exactly where `o` is absent
/// or cannot be relocated.
pub open spec fn indices_rebuilt(
    out: OutputView,
    source: DocumentView,
    blob_len: int,
    n: Option<usize>,
    o: Option<usize>,
    at: Growth,
) -> bool {
    if o is Some && accessor_range(source, blob_len, o->0 as int) is Some {
        &&& n is Some
        &&& n->0 == at.accessors
        &&& accessor_rebuilt(out, o->0, None, at)
    } else {
        n is None
    }
}

/// The texture slots of a material by role.
pub open spec fn slot_of(m: Material, role: TextureType) -> Option<usize> {
    match role {
        TextureType::BaseColor => m.base_color_texture,
        TextureType::Normal => m.normal_texture,
        TextureType::MetallicRoughness => m.metallic_roughness_texture,
    }
}

/// The rebuilt slot `n` holds texture `at.textures` of the output, which shows
/// image `at.images` and was converted, for role `role`, from the texture in `o`;
/// it is empty exactly where `o` is empty or the bytes of its image cannot be had.
pub open spec fn slot_rebuilt(
    out: OutputView,
    source: DocumentView,
    blob_len: int,
    n: Option<usize>,
    o: Option<usize>,
    role: TextureType,
    convert_to_ktx2: bool,
    at: Growth,
) -> bool {
    if o is Some && image_range(source, blob_len, o->0 as int) is Some {
        &&& n is Some
        &&& n->0 == at.textures
        &&& texture_made(
            out,
            source,
            at.textures as int,
            o->0 as int,
            at.images as int,
            (at.accessors + at.images) as int,
            role,
            format_for(role, convert_to_ktx2),
        )
    } else {
        n is None
    }
}

/// The slots of the rebuilt material `now` hold textures converted from the
/// textures in the slots of `was`: base colour first, then metallic-roughness,
/// then the normal map unless it is left out, each with the next texture and the
/// next image of the output from `at` on. Its occlusion and emissive slots are
/// empty.
pub open spec fn slots_rebuilt(
    out: OutputView,
    source: DocumentView,
    blob_len: int,
    now: Material,
    was: Material,
    remove_normal_texture: bool,
    convert_to_ktx2: bool,
    at: Growth,
) -> bool {
    let second = at.plus(Growth::textures(slot_growth(source, blob_len, was.base_color_texture)));
    let third = second.plus(
        Growth::textures(slot_growth(source, blob_len, was.metallic_roughness_texture)),
    );
    &&& slot_rebuilt(
        out,
        source,
        blob_len,
        now.base_color_texture,
        was.base_color_texture,
        TextureType::BaseColor,
        convert_to_ktx2,
        at,
    )
    &&& slot_rebuilt(
        out,
        source,
        blob_len,
        now.metallic_roughness_texture,
        was.metallic_roughness_texture,
        TextureType::MetallicRoughness,
        convert_to_ktx2,
        second,
    )
    &&& if remove_normal_texture {
        now.normal_texture is None
    } else {
        slot_rebuilt(
            out,
            source,
            blob_len,
            now.normal_texture,
            was.normal_texture,
            TextureType::Normal,
            convert_to_ktx2,
            third,
        )
    }
    &&& now.occlusion_texture is None
    &&& now.emissive_texture is None
}

/// The rebuilt material reference `n` names material `at.materials` of the
/// output, which was made from source material `o`, slot by slot, with the
/// textures and images of the output from `at` on; it is absent exactly where `o`
/// is absent or names no material.
pub open spec fn material_rebuilt(
    out: OutputView,
    source: DocumentView,
    blob_len: int,
    n: Option<usize>,
    o: Option<usize>,
    remove_normal_texture: bool,
    convert_to_ktx2: bool,
    at: Growth,
) -> bool {
    if o is Some && o->0 < source.materials.len() {
        &&& n is Some
        &&& n->0 == at.materials
        &&& at.materials < out.document.materials.len()
        &&& at.materials < out.origins.materials.len()
        &&& out.origins.materials[at.materials as int] == o->0
        &&& slots_rebuilt(
            out,
            source,
            blob_len,
            out.document.materials[at.materials as int],
            source.materials[o->0 as int],
            remove_normal_texture,
            convert_to_ktx2,
            at,
        )
    } else {
        n is None
    }
}

/// The rebuilt primitive `n` stands for source primitive `o`, and is made of the
/// entities of the output from `at` on: first the accessor of its indices, then
/// those of its attributes, then its material with the textures of its slots. It
/// has no morph targets.
pub open spec fn primitive_rebuilt(
    out: OutputView,
    source: DocumentView,
    blob_len: int,
    n: PrimitiveView,
    o: PrimitiveView,
    pivot: Option<Vec3>,
    remove_normal_texture: bool,
    convert_to_ktx2: bool,
    at: Growth,
) -> bool {
    &&& n.targets.len() == 0
    &&& indices_rebuilt(out, source, blob_len, n.indices, o.indices, at)
    &&& attributes_rebuilt(
        out,
        source,
        blob_len,
        n.attributes,
        o.attributes,
        pivot,
        at.plus(Growth::accessors(accessor_growth(source, blob_len, o.indices))),
    )
    &&& material_rebuilt(
        out,
        source,
        blob_len,
        n.material,
        o.material,
        remove_normal_texture,
        convert_to_ktx2,
        at.plus(
            Growth::accessors(
                accessor_growth(source, blob_len, o.indices) + relocatable(
                    o.attributes,
                    source,
                    blob_len,
                ).len(),
            ),
        ),
    )
}

/// The rebuilt mesh `n` stands for source mesh `o`, primitive by primitive, each
/// made of the entities of the output that follow those of the primitives before
/// it, from `at` on.
pub open spec fn mesh_rebuilt(
    out: OutputView,
    source: DocumentView,
    blob_len: int,
    n: MeshView,
    o: MeshView,
    pivot: Option<Vec3>,
    remove_normal_texture: bool,
    convert_to_ktx2: bool,
    at: Growth,
) -> bool {
    &&& n.primitives.len() == o.primitives.len()
    &&& forall|j: int|
        0 <= j < n.primitives.len() ==> #[trigger] primitive_rebuilt(
            out,
            source,
            blob_len,
            n.primitives[j],
            o.primitives[j],
            pivot,
            remove_normal_texture,
            convert_to_ktx2,
            at.plus(
                primitives_growth(source, blob_len, o.primitives.take(j), remove_normal_texture),
            ),
        )
}

/// What a rebuilt index accessor says of its source stays true when the output is
/// appended to.
pub proof fn lemma_indices_rebuilt_stable(
    before: OutputView,
    after: OutputView,
    source: DocumentView,
    blob_len: int,
    n: Option<usize>,
    o: Option<usize>,
    at: Growth,
)
    requires
        before.extended_by(after),
        indices_rebuilt(before, source, blob_len, n, o, at),
    ensures
        indices_rebuilt(after, source, blob_len, n, o, at),
{
}

/// What rebuilt attributes say of their source stays true when the output is
/// appended to.
pub proof fn lemma_attributes_rebuilt_stable(
    before: OutputView,
    after: OutputView,
    source: DocumentView,
    blob_len: int,
    n: Seq<Attribute>,
    o: Seq<Attribute>,
    pivot: Option<Vec3>,
    at: Growth,
)
    requires
        before.extended_by(after),
        attributes_rebuilt(before, source, blob_len, n, o, pivot, at),
    ensures
        attributes_rebuilt(after, source, blob_len, n, o, pivot, at),
{
    let kept = relocatable(o, source, blob_len);
    assert forall|k: int| 0 <= k < n.len() implies #[trigger] attribute_rebuilt(
        after,
        source,
        n[k],
        kept[k],
        pivot,
        at.plus(Growth::accessors(k as nat)),
    ) by {
        assert(attribute_rebuilt(
            before,
            source,
            n[k],
            kept[k],
            pivot,
            at.plus(Growth::accessors(k as nat)),
        ));
    }
}

/// What a rebuilt slot says of its source stays true when the output is appended
/// to.
pub proof fn lemma_slot_rebuilt_stable(
    before: OutputView,
    after: OutputView,
    source: DocumentView,
    blob_len: int,
    n: Option<usize>,
    o: Option<usize>,
    role: TextureType,
    convert_to_ktx2: bool,
    at: Growth,
)
    requires
        before.extended_by(after),
        slot_rebuilt(before, source, blob_len, n, o, role, convert_to_ktx2, at),
    ensures
        slot_rebuilt(after, source, blob_len, n, o, role, convert_to_ktx2, at),
{
}

/// What rebuilt slots say of their source stays true when the output is appended
/// to.
pub proof fn lemma_slots_rebuilt_stable(
    before: OutputView,
    after: OutputView,
    source: DocumentView,
    blob_len: int,
    now: Material,
    was: Material,
    remove_normal_texture: bool,
    convert_to_ktx2: bool,
    at: Growth,
)
    requires
        before.extended_by(after),
        slots_rebuilt(
            before,
            source,
            blob_len,
            now,
            was,
            remove_normal_texture,
            convert_to_ktx2,
            at,
        ),
    ensures
        slots_rebuilt(
            after,
            source,
            blob_len,
            now,
            was,
            remove_normal_texture,
            convert_to_ktx2,
            at,
        ),
{
}

/// What a rebuilt primitive says of its source stays true when the output is
/// appended to.
pub proof fn lemma_primitive_rebuilt_stable(
    before: OutputView,
    after: OutputView,
    source: DocumentView,
    blob_len: int,
    n: PrimitiveView,
    o: PrimitiveView,
    pivot: Option<Vec3>,
    remove_normal_texture: bool,
    convert_to_ktx2: bool,
    at: Growth,
)
    requires
        before.extended_by(after),
        primitive_rebuilt(
            before,
            source,
            blob_len,
            n,
            o,
            pivot,
            remove_normal_texture,
            convert_to_ktx2,
            at,
        ),
    ensures
        primitive_rebuilt(
            after,
            source,
            blob_len,
            n,
            o,
            pivot,
            remove_normal_texture,
            convert_to_ktx2,
            at,
        ),
{
    lemma_attributes_rebuilt_stable(
        before,
        after,
        source,
        blob_len,
        n.attributes,
        o.attributes,
        pivot,
        at.plus(Growth::accessors(accessor_growth(source, blob_len, o.indices))),
    );
}

/// What a rebuilt mesh says of its source stays true when the output is appended
/// to.
pub proof fn lemma_mesh_rebuilt_stable(
    before: OutputView,
    after: OutputView,
    source: DocumentView,
    blob_len: int,
    n: MeshView,
    o: MeshView,
    pivot: Option<Vec3>,
    remove_normal_texture: bool,
    convert_to_ktx2: bool,
    at: Growth,
)
    requires
        before.extended_by(after),
        mesh_rebuilt(
            before,
            source,
            blob_len,
            n,
            o,
            pivot,
            remove_normal_texture,
            convert_to_ktx2,
            at,
        ),
    ensures
        mesh_rebuilt(after, source, blob_len, n, o, pivot, remove_normal_texture, convert_to_ktx2, at),
{
    assert forall|j: int| 0 <= j < n.primitives.len() implies #[trigger] primitive_rebuilt(
        after,
        source,
        blob_len,
        n.primitives[j],
        o.primitives[j],
        pivot,
        remove_normal_texture,
        convert_to_ktx2,
        at.plus(primitives_growth(source, blob_len, o.primitives.take(j), remove_normal_texture)),
    ) by {
        let here = at.plus(
            primitives_growth(source, blob_len, o.primitives.take(j), remove_normal_texture),
        );
        assert(primitive_rebuilt(
            before,
            source,
            blob_len,
            n.primitives[j],
            o.primitives[j],
            pivot,
            remove_normal_texture,
            convert_to_ktx2,
            here,
        ));
        lemma_primitive_rebuilt_stable(
            before,
            after,
            source,
            blob_len,
            n.primitives[j],
            o.primitives[j],
            pivot,
            remove_normal_texture,
            convert_to_ktx2,
            here,
        );
    }
}

/// `e` is a failure that converting the slots of material `was` may end in.
pub open spec fn slots_failed(
    source: DocumentView,
    blob_len: int,
    was: Material,
    remove_normal_texture: bool,
    e: ConversionError,
) -> bool {
    match e {
        ConversionError::Codec { role, texture, .. } => {
            &&& slot_of(was, role) == Some(texture)
            &&& image_range(source, blob_len, texture as int) is Some
            &&& !(remove_normal_texture && role is Normal)
        },
        ConversionError::MissingImageData { .. } => false,
    }
}

/// `e` is a failure that rebuilding the material reference `material` may end
/// in: a codec failed on the texture in one of the slots of that material, a
/// texture whose image data is there; with the normal maps left out it is not the
/// normal map.
pub open spec fn material_failed(
    source: DocumentView,
    blob_len: int,
    material: Option<usize>,
    remove_normal_texture: bool,
    e: ConversionError,
) -> bool {
    &&& material is Some
    &&& material->0 < source.materials.len()
    &&& slots_failed(
        source,
        blob_len,
        source.materials[material->0 as int],
        remove_normal_texture,
        e,
    )
}

/// `e` is a failure that a rebuild of `source` may end in: a codec failed on a
/// texture that one of the primitives of `source` needs, as [`material_failed`]
/// says.
pub open spec fn failed_on(
    source: DocumentView,
    blob_len: int,
    remove_normal_texture: bool,
    e: ConversionError,
) -> bool {
    exists|m: int, j: int|
        0 <= m < source.meshes.len() && 0 <= j < source.meshes[m].primitives.len()
            && #[trigger] material_failed(
            source,
            blob_len,
            source.meshes[m].primitives[j].material,
            remove_normal_texture,
            e,
        )
}

/// Where no primitive needs a texture converted, no rebuild fails.
pub proof fn lemma_nothing_to_convert_nothing_to_fail(
    source: DocumentView,
    blob_len: int,
    remove_normal_texture: bool,
    e: ConversionError,
)
    requires
        forall|t: int| #[trigger] image_range(source, blob_len, t) is None,
    ensures
        !failed_on(source, blob_len, remove_normal_texture, e),
{
    match e {
        ConversionError::Codec { texture, .. } => {
            assert(image_range(source, blob_len, texture as int) is None);
        },
        ConversionError::MissingImageData { .. } => {},
    }
}

} // verus!
