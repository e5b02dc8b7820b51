//! How many entities a rebuild appends to the output.

use vstd::prelude::*;
use crate::document::{DocumentView, Material, MeshView, PrimitiveView, Skin};
use crate::output::OutputView;
use crate::rebuilt::relocatable;
use crate::span::{accessor_range, image_range};

verus! {

/// A number of entities of each kind that the rebuild appends: what a step adds,
/// or what the output holds.
pub struct Growth {
    pub accessors: nat,
    pub materials: nat,
    pub textures: nat,
    pub images: nat,
}

impl Growth {
    /// Nothing.
    pub open spec fn zero() -> Growth {
        Growth { accessors: 0, materials: 0, textures: 0, images: 0 }
    }

    /// So many accessors and nothing else.
    pub open spec fn accessors(n: nat) -> Growth {
        Growth { accessors: n, materials: 0, textures: 0, images: 0 }
    }

    /// So many textures, an image for each, and nothing else.
    pub open spec fn textures(n: nat) -> Growth {
        Growth { accessors: 0, materials: 0, textures: n, images: n }
    }

    /// Both together.
    pub open spec fn plus(self, other: Growth) -> Growth {
        Growth {
            accessors: self.accessors + other.accessors,
            materials: self.materials + other.materials,
            textures: self.textures + other.textures,
            images: self.images + other.images,
        }
    }
}

/// What the output holds.
pub open spec fn held_by(out: OutputView) -> Growth {
    Growth {
        accessors: out.document.accessors.len(),
        materials: out.document.materials.len(),
        textures: out.document.textures.len(),
        images: out.document.images.len(),
    }
}

/// `after` holds what `before` holds and `growth` more, with one more buffer view
/// for every accessor and every image.
pub open spec fn grown_by(before: OutputView, after: OutputView, growth: Growth) -> bool {
    &&& held_by(after) == held_by(before).plus(growth)
    &&& after.document.buffer_views.len() == before.document.buffer_views.len() + growth.accessors
        + growth.images
}

/// `after` has the meshes, skins and buffers of `before`.
pub open spec fn keeps_scene(before: OutputView, after: OutputView) -> bool {
    &&& after.document.meshes == before.document.meshes
    &&& after.document.skins == before.document.skins
    &&& after.document.buffers == before.document.buffers
}

/// One where accessor `o` is named and can be relocated, zero otherwise.
pub open spec fn accessor_growth(source: DocumentView, blob_len: int, o: Option<usize>) -> nat {
    if o is Some && accessor_range(source, blob_len, o->0 as int) is Some {
        1
    } else {
        0
    }
}

/// One where the slot is filled and the bytes of its image can be had, zero
/// otherwise.
pub open spec fn slot_growth(source: DocumentView, blob_len: int, o: Option<usize>) -> nat {
    if o is Some && image_range(source, blob_len, o->0 as int) is Some {
        1
    } else {
        0
    }
}

/// How many textures converting the slots of material `was` appends.
pub open spec fn slots_growth(
    source: DocumentView,
    blob_len: int,
    was: Material,
    remove_normal_texture: bool,
) -> nat {
    slot_growth(source, blob_len, was.base_color_texture) + slot_growth(
        source,
        blob_len,
        was.metallic_roughness_texture,
    ) + (if remove_normal_texture {
        0
    } else {
        slot_growth(source, blob_len, was.normal_texture)
    })
}

/// What rebuilding the material reference `o` appends: one material and a texture
/// for every slot that is converted, or nothing where `o` names no material.
pub open spec fn material_growth(
    source: DocumentView,
    blob_len: int,
    o: Option<usize>,
    remove_normal_texture: bool,
) -> Growth {
    if o is Some && o->0 < source.materials.len() {
        let textures = slots_growth(
            source,
            blob_len,
            source.materials[o->0 as int],
            remove_normal_texture,
        );
        Growth { accessors: 0, materials: 1, textures, images: textures }
    } else {
        Growth::zero()
    }
}

/// What rebuilding primitive `o` appends.
pub open spec fn primitive_growth(
    source: DocumentView,
    blob_len: int,
    o: PrimitiveView,
    remove_normal_texture: bool,
) -> Growth {
    Growth::accessors(
        accessor_growth(source, blob_len, o.indices) + relocatable(
            o.attributes,
            source,
            blob_len,
        ).len(),
    ).plus(material_growth(source, blob_len, o.material, remove_normal_texture))
}

/// What rebuilding the primitives `primitives` appends.
pub open spec fn primitives_growth(
    source: DocumentView,
    blob_len: int,
    primitives: Seq<PrimitiveView>,
    remove_normal_texture: bool,
) -> Growth
    decreases primitives.len(),
{
    if primitives.len() == 0 {
        Growth::zero()
    } else {
        primitives_growth(source, blob_len, primitives.drop_last(), remove_normal_texture).plus(
            primitive_growth(source, blob_len, primitives.last(), remove_normal_texture),
        )
    }
}

/// What rebuilding the meshes `meshes` appends.
pub open spec fn meshes_growth(
    source: DocumentView,
    blob_len: int,
    meshes: Seq<MeshView>,
    remove_normal_texture: bool,
) -> Growth
    decreases meshes.len(),
{
    if meshes.len() == 0 {
        Growth::zero()
    } else {
        meshes_growth(source, blob_len, meshes.drop_last(), remove_normal_texture).plus(
            primitives_growth(source, blob_len, meshes.last().primitives, remove_normal_texture),
        )
    }
}

/// How many accessors rebuilding the skins `skins` appends.
pub open spec fn skins_growth(source: DocumentView, blob_len: int, skins: Seq<Skin>) -> nat
    decreases skins.len(),
{
    if skins.len() == 0 {
        0
    } else {
        skins_growth(source, blob_len, skins.drop_last()) + accessor_growth(
            source,
            blob_len,
            skins.last().inverse_bind_matrices,
        )
    }
}

/// What a rebuild of `source` holds in the end: for every mesh primitive the
/// accessors that can be relocated, a material where it names one, and a texture
/// and an image for every slot that is converted; and for every skin its
/// accessor where that can be relocated.
pub open spec fn document_growth(
    source: DocumentView,
    blob_len: int,
    remove_normal_texture: bool,
) -> Growth {
    meshes_growth(source, blob_len, source.meshes, remove_normal_texture).plus(
        Growth::accessors(skins_growth(source, blob_len, source.skins)),
    )
}

} // verus!
