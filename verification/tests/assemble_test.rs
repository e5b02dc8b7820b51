use gltf_opt::assemble::{ensure_extension, optimize, optimize_centered, pad_to_4bytes};
use gltf_opt::bounds::{calculate_bounding_box, calculate_center_bottom_offset, choose_pivot};
use gltf_opt::codec::{texture_edge, CodecStage, Ktx2Job, TextureType};
use gltf_opt::document::{
    Accessor, Attribute, Buffer, BufferView, ComponentType, Document, ElementType, Image,
    Material, Mesh, MorphTarget, Primitive, Semantic, Skin, Sparse, Texture,
};
use gltf_opt::output::{AccessorOrigin, ImageOrigin, Output};
use gltf_opt::primitive::add_primitive;
use gltf_opt::texture::ConversionError;
use gltf_opt::words::Vec3;
use std::cell::RefCell;
use std::io::Cursor;

fn plus(a: u32, b: u32) -> u32 {
    (f32::from_bits(a) + f32::from_bits(b)).to_bits()
}

fn half(a: u32) -> u32 {
    (f32::from_bits(a) / 2.0).to_bits()
}

fn lower(a: u32, b: u32) -> u32 {
    f32::from_bits(a).min(f32::from_bits(b)).to_bits()
}

fn upper(a: u32, b: u32) -> u32 {
    f32::from_bits(a).max(f32::from_bits(b)).to_bits()
}

fn png_rgb(width: u32, height: u32) -> Vec<u8> {
    let img = image::DynamicImage::new_rgb8(width, height);
    let mut out = Cursor::new(Vec::new());
    img.write_to(&mut out, image::ImageFormat::Png).unwrap();
    out.into_inner()
}

/// Stands in for the compressor: hands back a small PNG, so that what it made can
/// be decoded again.
fn repack(job: Ktx2Job) -> Result<Vec<u8>, String> {
    Ok(png_rgb(job.width.max(1), job.height.max(1)))
}

fn failing(_job: Ktx2Job) -> Result<Vec<u8>, String> {
    Err("compressor is down".to_string())
}

fn floats(values: &[f32]) -> Vec<u8> {
    let mut bytes = Vec::new();
    for v in values {
        bytes.extend_from_slice(&v.to_le_bytes());
    }
    bytes
}

fn point(x: f32, y: f32, z: f32) -> Vec3 {
    Vec3 { x: x.to_bits(), y: y.to_bits(), z: z.to_bits() }
}

fn append(doc: &mut Document, blob: &mut Vec<u8>, bytes: &[u8]) -> usize {
    doc.buffer_views.push(
        BufferView { buffer: 0, byte_offset: Some(blob.len()), byte_length: bytes.len(), byte_stride: None },
    );
    blob.extend_from_slice(bytes);
    doc.buffer_views.len() - 1
}

fn accessor(view: usize, count: usize, component: ComponentType, element: ElementType) -> Accessor {
    Accessor {
        buffer_view: Some(view),
        byte_offset: None,
        count,
        component_type: component,
        element_type: element,
        sparse: None,
    }
}

fn image(view: Option<usize>, name: Option<&str>) -> Image {
    Image {
        buffer_view: view,
        mime_type: Some("image/png".to_string()),
        name: name.map(|s| s.to_string()),
        uri: None,
    }
}

/// A scene of one mesh with one primitive: indices, positions that span
/// (-2, 0, -1) to (2, 4, 3), normals whose data is missing, and a material whose
/// base-colour and metallic-roughness textures are 8 by 8 and whose normal map
/// is not embedded. One skin with inverse bind matrices, one without.
fn scene() -> (Document, Vec<u8>) {
    let mut doc = Document::new();
    let mut blob = Vec::new();
    let indices = append(&mut doc, &mut blob, &[0, 0, 1, 0, 2, 0]);
    let positions = append(
        &mut doc,
        &mut blob,
        &floats(&[-2.0, 0.0, -1.0, 2.0, 4.0, 3.0, 0.0, 2.0, 1.0]),
    );
    let base = append(&mut doc, &mut blob, &png_rgb(8, 8));
    let rough = append(&mut doc, &mut blob, &png_rgb(8, 8));
    let matrices = append(&mut doc, &mut blob, &[7u8; 64]);
    doc.accessors.push(accessor(indices, 3, ComponentType::UnsignedShort, ElementType::Scalar));
    doc.accessors.push(accessor(positions, 3, ComponentType::Float, ElementType::Vec3));
    doc.accessors.push(accessor(99, 3, ComponentType::Float, ElementType::Vec3));
    doc.accessors.push(accessor(matrices, 1, ComponentType::Float, ElementType::Mat4));
    doc.images.push(image(Some(base), Some("wall.PNG")));
    doc.images.push(image(Some(rough), None));
    doc.images.push(image(None, Some("bumps.png")));
    doc.textures.push(Texture { source: 0 });
    doc.textures.push(Texture { source: 1 });
    doc.textures.push(Texture { source: 2 });
    doc.materials.push(
        Material {
            base_color_texture: Some(0),
            metallic_roughness_texture: Some(1),
            normal_texture: Some(2),
            occlusion_texture: None,
            emissive_texture: None,
        },
    );
    doc.meshes.push(
        Mesh {
            primitives: vec![
                Primitive {
                    indices: Some(0),
                    attributes: vec![
                        Attribute { semantic: Semantic::Normals, accessor: 2 },
                        Attribute { semantic: Semantic::Positions, accessor: 1 },
                    ],
                    material: Some(0),
                    targets: vec![],
                },
            ],
        },
    );
    doc.skins.push(Skin { inverse_bind_matrices: Some(3) });
    doc.skins.push(Skin { inverse_bind_matrices: None });
    doc.extensions_used.push("KHR_materials_unlit".to_string());
    (doc, blob)
}

fn assert_packed(out: &Output) {
    assert_eq!(out.blob.len() % 4, 0);
    let mut end = 0;
    for view in &out.document.buffer_views {
        assert_eq!(view.byte_offset.unwrap_or(0), end);
        end += view.byte_length;
    }
    assert!(end <= out.blob.len() && out.blob.len() < end + 4);
    assert!(out.blob[end..].iter().all(|b| *b == 0));
    assert_eq!(out.document.buffers, vec![Buffer { byte_length: out.blob.len() }]);
}

fn assert_closed(doc: &Document) {
    for v in &doc.buffer_views {
        assert!(v.buffer < doc.buffers.len());
    }
    for a in &doc.accessors {
        assert!(a.buffer_view.unwrap() < doc.buffer_views.len());
        assert!(a.sparse.is_none());
    }
    for i in &doc.images {
        assert!(i.buffer_view.unwrap() < doc.buffer_views.len());
    }
    for t in &doc.textures {
        assert!(t.source < doc.images.len());
    }
    for m in &doc.materials {
        for slot in [
            m.base_color_texture,
            m.metallic_roughness_texture,
            m.normal_texture,
            m.occlusion_texture,
            m.emissive_texture,
        ] {
            assert!(slot.map_or(true, |t| t < doc.textures.len()));
        }
    }
    for mesh in &doc.meshes {
        for p in &mesh.primitives {
            assert!(p.indices.map_or(true, |a| a < doc.accessors.len()));
            assert!(p.material.map_or(true, |m| m < doc.materials.len()));
            for a in &p.attributes {
                assert!(a.accessor < doc.accessors.len());
            }
        }
    }
    for s in &doc.skins {
        assert!(s.inverse_bind_matrices.map_or(true, |a| a < doc.accessors.len()));
    }
}

#[test]
fn padding_brings_the_length_to_a_multiple_of_four() {
    for len in 0usize..9 {
        let mut data = vec![0xffu8; len];
        pad_to_4bytes(&mut data);
        assert_eq!(data.len(), (len + 3) / 4 * 4);
        assert!(data[..len].iter().all(|b| *b == 0xff));
        assert!(data[len..].iter().all(|b| *b == 0));
    }
}

#[test]
fn an_extension_is_never_listed_twice() {
    let mut list = vec!["a".to_string(), "b".to_string()];
    ensure_extension(&mut list, "c");
    assert_eq!(list, vec!["a", "b", "c"]);
    ensure_extension(&mut list, "c");
    ensure_extension(&mut list, "a");
    assert_eq!(list, vec!["a", "b", "c"]);
    let mut empty: Vec<String> = Vec::new();
    ensure_extension(&mut empty, "KHR_texture_basisu");
    ensure_extension(&mut empty, "KHR_texture_basisu");
    assert_eq!(empty, vec!["KHR_texture_basisu"]);
}

#[test]
fn metallic_roughness_is_converted_at_half_the_edge() {
    assert_eq!(texture_edge(TextureType::MetallicRoughness, 1024), 512);
    assert_eq!(texture_edge(TextureType::BaseColor, 1024), 1024);
    assert_eq!(texture_edge(TextureType::Normal, 1024), 1024);
    assert_eq!(texture_edge(TextureType::MetallicRoughness, 1), 0);
    assert_eq!(texture_edge(TextureType::MetallicRoughness, 0), 0);
    assert_eq!(texture_edge(TextureType::MetallicRoughness, u32::MAX), u32::MAX / 2);
}

#[test]
fn pass_through_keeps_the_counts() {
    let (doc, blob) = scene();
    let out = optimize(&doc, &blob, 8, false, false, None, &plus, &repack).unwrap();
    assert_eq!(out.document.meshes.len(), doc.meshes.len());
    assert_eq!(out.document.materials.len(), doc.materials.len());
    assert_eq!(out.document.skins.len(), doc.skins.len());
    assert_eq!(out.document.textures.len(), 2);
    assert_eq!(out.document.images.len(), 2);
    assert_eq!(out.document.extensions_used, doc.extensions_used);
    assert_eq!(out.document.extensions_required, doc.extensions_required);
    assert_packed(&out);
    assert_closed(&out.document);
}

#[test]
fn pass_through_copies_the_geometry_byte_for_byte() {
    let (doc, blob) = scene();
    let out = optimize(&doc, &blob, 8, false, false, None, &plus, &repack).unwrap();
    assert_eq!(out.document.accessors.len(), 3);
    assert_eq!(
        out.origins.accessors,
        vec![
            AccessorOrigin { source: 0, translation: None },
            AccessorOrigin { source: 1, translation: None },
            AccessorOrigin { source: 3, translation: None },
        ]
    );
    for (k, origin) in out.origins.accessors.iter().enumerate() {
        let new_view = out.document.buffer_views[out.document.accessors[k].buffer_view.unwrap()];
        let old_accessor = doc.accessors[origin.source];
        let old_view = doc.buffer_views[old_accessor.buffer_view.unwrap()];
        let new_start = new_view.byte_offset.unwrap();
        let old_start = old_view.byte_offset.unwrap();
        assert_eq!(
            &out.blob[new_start..new_start + new_view.byte_length],
            &blob[old_start..old_start + old_view.byte_length]
        );
        assert_eq!(
            out.document.accessors[k],
            Accessor { buffer_view: out.document.accessors[k].buffer_view, ..old_accessor }
        );
    }
    let primitive = &out.document.meshes[0].primitives[0];
    assert_eq!(primitive.indices, Some(0));
    assert_eq!(primitive.attributes, vec![Attribute { semantic: Semantic::Positions, accessor: 1 }]);
    assert_eq!(primitive.material, Some(0));
    assert_eq!(
        out.document.skins,
        vec![Skin { inverse_bind_matrices: Some(2) }, Skin { inverse_bind_matrices: None }]
    );
}

#[test]
fn a_texture_without_image_data_is_dropped_from_its_slot() {
    let (doc, blob) = scene();
    let out = optimize(&doc, &blob, 8, false, false, None, &plus, &repack).unwrap();
    assert_eq!(
        out.document.materials,
        vec![
            Material {
                base_color_texture: Some(0),
                metallic_roughness_texture: Some(1),
                normal_texture: None,
                occlusion_texture: None,
                emissive_texture: None,
            },
        ]
    );
    assert_eq!(out.origins.materials, vec![0]);
    assert_eq!(out.origins.textures, vec![0, 1]);
    assert_eq!(
        out.origins.images,
        vec![
            ImageOrigin { source: 0, role: TextureType::BaseColor },
            ImageOrigin { source: 1, role: TextureType::MetallicRoughness },
        ]
    );
    assert_eq!(out.document.skins.len(), 2);
}

#[test]
fn normal_maps_are_left_out_on_request() {
    let (mut doc, blob) = scene();
    doc.images[2].buffer_view = doc.images[0].buffer_view;
    let kept = optimize(&doc, &blob, 8, false, false, None, &plus, &repack).unwrap();
    assert_eq!(kept.document.materials[0].normal_texture, Some(2));
    assert_eq!(kept.document.images[2].mime_type, Some("image/png".to_string()));
    assert_eq!(kept.document.images[0].mime_type, Some("image/jpeg".to_string()));
    assert_eq!(kept.document.images[1].mime_type, Some("image/jpeg".to_string()));
    let dropped = optimize(&doc, &blob, 8, true, false, None, &plus, &repack).unwrap();
    assert_eq!(dropped.document.materials[0].normal_texture, None);
    assert_eq!(dropped.document.textures.len(), 2);
    assert_packed(&kept);
    assert_packed(&dropped);
}

#[test]
fn buffer_views_do_not_overlap() {
    let (doc, blob) = scene();
    let out = optimize(&doc, &blob, 4, false, true, None, &plus, &repack).unwrap();
    assert_packed(&out);
    let views = &out.document.buffer_views;
    for i in 0..views.len() {
        for j in 0..views.len() {
            if i != j {
                let (a, b) = (views[i], views[j]);
                let (a0, b0) = (a.byte_offset.unwrap_or(0), b.byte_offset.unwrap_or(0));
                assert!(a0 + a.byte_length <= b0 || b0 + b.byte_length <= a0);
            }
        }
    }
    assert_eq!(views.len(), 5);
}

#[test]
fn recentering_moves_the_bottom_centre_to_the_origin() {
    let (doc, blob) = scene();
    let bounds = calculate_bounding_box(&blob, &doc, &lower, &upper).unwrap();
    assert_eq!(bounds.min, point(-2.0, 0.0, -1.0));
    assert_eq!(bounds.max, point(2.0, 4.0, 3.0));
    let pivot = calculate_center_bottom_offset(bounds.min, bounds.max, &plus, &half);
    assert_eq!(
        (f32::from_bits(pivot.x), f32::from_bits(pivot.y), f32::from_bits(pivot.z)),
        (0.0, 0.0, -1.0)
    );
    let out = optimize(&doc, &blob, 8, false, false, Some(pivot), &plus, &repack).unwrap();
    let view = out.document.buffer_views[out.document.accessors[1].buffer_view.unwrap()];
    let start = view.byte_offset.unwrap();
    assert_eq!(
        &out.blob[start..start + view.byte_length],
        &floats(&[-2.0, 0.0, -2.0, 2.0, 4.0, 2.0, 0.0, 2.0, 0.0])[..]
    );
    assert_eq!(out.origins.accessors[1], AccessorOrigin { source: 1, translation: Some(pivot) });
    assert_eq!(out.origins.accessors[0].translation, None);
    assert_eq!(out.origins.accessors[2].translation, None);
    let moved = calculate_bounding_box(&out.blob, &out.document, &lower, &upper).unwrap();
    assert_eq!(f32::from_bits(moved.min.y), 0.0);
    assert_eq!(f32::from_bits(moved.min.x) + f32::from_bits(moved.max.x), 0.0);
    assert_eq!(f32::from_bits(moved.min.z) + f32::from_bits(moved.max.z), 0.0);
    assert_packed(&out);
}

#[test]
fn without_a_pivot_nothing_is_translated() {
    let (doc, blob) = scene();
    let out = optimize(&doc, &blob, 8, false, false, None, &plus, &repack).unwrap();
    assert!(out.origins.accessors.iter().all(|o| o.translation.is_none()));
}

#[test]
fn transcoding_lists_the_extension_once() {
    let (mut doc, blob) = scene();
    doc.extensions_required.push("KHR_texture_basisu".to_string());
    let once = optimize(&doc, &blob, 4, false, true, None, &plus, &repack).unwrap();
    assert_eq!(once.document.extensions_used, vec!["KHR_materials_unlit", "KHR_texture_basisu"]);
    assert_eq!(once.document.extensions_required, vec!["KHR_texture_basisu"]);
    let twice =
        optimize(&once.document, &once.blob, 4, false, true, None, &plus, &repack).unwrap();
    assert_eq!(twice.document.extensions_used, once.document.extensions_used);
    assert_eq!(twice.document.extensions_required, once.document.extensions_required);
    assert_eq!(twice.document.images.len(), 2);
    assert_packed(&twice);
    assert_closed(&twice.document);
}

#[test]
fn transcoding_renames_the_images() {
    let (doc, blob) = scene();
    let out = optimize(&doc, &blob, 4, false, true, None, &plus, &repack).unwrap();
    assert_eq!(out.document.images[0].name, Some("wall.ktx2".to_string()));
    assert_eq!(out.document.images[1].name, Some("texture_1.ktx2".to_string()));
    assert_eq!(out.document.images[0].mime_type, Some("image/ktx2".to_string()));
    assert_eq!(out.document.images[1].mime_type, Some("image/ktx2".to_string()));
}

#[test]
fn the_compressor_is_asked_for_half_the_edge_for_metallic_roughness() {
    let (mut doc, mut blob) = scene();
    let large = append(&mut doc, &mut blob, &png_rgb(2048, 1100));
    doc.images[0].buffer_view = Some(large);
    doc.images[1].buffer_view = Some(large);
    let seen: RefCell<Vec<(u32, u32, u32)>> = RefCell::new(Vec::new());
    let compress = |job: Ktx2Job| -> Result<Vec<u8>, String> {
        seen.borrow_mut().push((job.width, job.height, job.profile.quality_level));
        Ok(vec![1, 2, 3])
    };
    optimize(&doc, &blob, 1024, false, true, None, &plus, &compress).unwrap();
    assert_eq!(*seen.borrow(), vec![(1024, 1024, 150), (512, 512, 150)]);
}

#[test]
fn a_failing_codec_fails_the_whole_rebuild() {
    let (doc, blob) = scene();
    let result = optimize(&doc, &blob, 4, false, true, None, &plus, &failing);
    assert_eq!(
        result,
        Err(
            ConversionError::Codec {
                role: TextureType::BaseColor,
                texture: 0,
                stage: CodecStage::Encode,
                message: "compressor is down".to_string(),
            },
        )
    );
    let mut broken = blob.clone();
    let start = doc.buffer_views[doc.images[1].buffer_view.unwrap()].byte_offset.unwrap();
    broken[start] = 0;
    match optimize(&doc, &broken, 4, false, false, None, &plus, &repack) {
        Err(ConversionError::Codec { role, texture, stage, .. }) => {
            assert_eq!(role, TextureType::MetallicRoughness);
            assert_eq!(texture, 1);
            assert_eq!(stage, CodecStage::Decode);
        },
        other => panic!("unexpected {:?}", other),
    }
}

#[test]
fn an_empty_document_is_rebuilt_to_an_empty_document() {
    let out = optimize(&Document::new(), &[], 4, false, false, None, &plus, &repack).unwrap();
    assert_eq!(out.blob, Vec::<u8>::new());
    assert_eq!(out.document.buffers, vec![Buffer { byte_length: 0 }]);
    assert!(out.document.buffer_views.is_empty());
    assert!(out.document.meshes.is_empty());
    let ktx = optimize(&Document::new(), &[], 4, false, true, None, &plus, &repack).unwrap();
    assert_eq!(ktx.document.extensions_used, vec!["KHR_texture_basisu"]);
    assert_eq!(ktx.document.extensions_required, vec!["KHR_texture_basisu"]);
}

#[test]
fn a_primitive_without_a_usable_material_has_none() {
    let (mut doc, blob) = scene();
    doc.meshes[0].primitives[0].material = Some(4);
    doc.meshes[0].primitives.push(
        Primitive { indices: Some(9), attributes: vec![], material: None, targets: vec![] },
    );
    let mut out = Output::new();
    let first = add_primitive(
        &mut out,
        &blob,
        &doc,
        &doc.meshes[0].primitives[0],
        8,
        false,
        false,
        None,
        &plus,
        &repack,
    )
        .unwrap();
    assert_eq!(first.material, None);
    assert_eq!(first.indices, Some(0));
    let second = add_primitive(
        &mut out,
        &blob,
        &doc,
        &doc.meshes[0].primitives[1],
        8,
        false,
        false,
        None,
        &plus,
        &repack,
    )
        .unwrap();
    assert_eq!(second, Primitive { indices: None, attributes: vec![], material: None, targets: vec![] });
    assert!(out.document.materials.is_empty());
}

#[test]
fn a_shared_material_is_rebuilt_for_every_primitive() {
    let (mut doc, blob) = scene();
    let copy = doc.meshes[0].primitives[0].clone();
    doc.meshes[0].primitives.push(copy);
    let out = optimize(&doc, &blob, 8, false, false, None, &plus, &repack).unwrap();
    assert_eq!(out.document.materials.len(), 2);
    assert_eq!(out.origins.materials, vec![0, 0]);
    assert_eq!(out.document.textures.len(), 4);
    assert_eq!(out.document.meshes[0].primitives[1].material, Some(1));
    assert_packed(&out);
    assert_closed(&out.document);
}

#[test]
fn occlusion_and_emissive_slots_are_emptied() {
    let (mut doc, blob) = scene();
    doc.materials[0].occlusion_texture = Some(1);
    doc.materials[0].emissive_texture = Some(0);
    let out = optimize(&doc, &blob, 8, false, false, None, &plus, &repack).unwrap();
    assert_eq!(out.document.materials[0].occlusion_texture, None);
    assert_eq!(out.document.materials[0].emissive_texture, None);
    assert_eq!(out.document.materials[0].base_color_texture, Some(0));
    assert_eq!(out.document.textures.len(), 2);
    assert_closed(&out.document);
}

#[test]
fn every_buffer_view_lies_in_the_one_buffer() {
    let (mut doc, blob) = scene();
    for view in doc.buffer_views.iter_mut() {
        view.buffer = 3;
    }
    let out = optimize(&doc, &blob, 8, false, true, None, &plus, &repack).unwrap();
    assert_eq!(out.document.buffers.len(), 1);
    assert!(out.document.buffer_views.iter().all(|v| v.buffer == 0));
}

#[test]
fn the_pivot_is_chosen_only_where_asked_for_and_possible() {
    let (doc, blob) = scene();
    assert_eq!(choose_pivot(&blob, &doc, false, &plus, &half, &lower, &upper), None);
    let pivot = choose_pivot(&blob, &doc, true, &plus, &half, &lower, &upper).unwrap();
    assert_eq!(
        (f32::from_bits(pivot.x), f32::from_bits(pivot.y), f32::from_bits(pivot.z)),
        (0.0, 0.0, -1.0)
    );
    assert_eq!(choose_pivot(&blob, &Document::new(), true, &plus, &half, &lower, &upper), None);
}

#[test]
fn a_centred_rebuild_translates_every_position() {
    let (doc, blob) = scene();
    let out = optimize_centered(
        &doc, &blob, 8, false, false, true, &plus, &half, &lower, &upper, &repack,
    )
    .unwrap();
    let view = out.document.buffer_views[out.document.accessors[1].buffer_view.unwrap()];
    let start = view.byte_offset.unwrap();
    assert_eq!(
        &out.blob[start..start + view.byte_length],
        &floats(&[-2.0, 0.0, -2.0, 2.0, 4.0, 2.0, 0.0, 2.0, 0.0])[..]
    );
    let indices = out.document.buffer_views[out.document.accessors[0].buffer_view.unwrap()];
    assert_eq!(&out.blob[..indices.byte_length], &[0, 0, 1, 0, 2, 0]);
    let plain = optimize_centered(
        &doc, &blob, 8, false, false, false, &plus, &half, &lower, &upper, &repack,
    )
    .unwrap();
    assert_eq!(plain, optimize(&doc, &blob, 8, false, false, None, &plus, &repack).unwrap());
}

#[test]
fn sparse_storage_and_morph_targets_are_dropped() {
    let (mut doc, blob) = scene();
    doc.accessors[1].sparse = Some(Sparse { indices_view: 0, values_view: 4 });
    doc.meshes[0].primitives[0].targets =
        vec![MorphTarget { positions: Some(1), normals: None, tangents: Some(3) }];
    let out = optimize(&doc, &blob, 8, false, false, None, &plus, &repack).unwrap();
    assert!(out.document.accessors.iter().all(|a| a.sparse.is_none()));
    assert!(out.document.meshes[0].primitives[0].targets.is_empty());
    assert_eq!(out.document.accessors.len(), 3);
    assert_eq!(
        out.document.accessors[1],
        Accessor { buffer_view: Some(1), sparse: None, ..doc.accessors[1] }
    );
    assert_closed(&out.document);
}
