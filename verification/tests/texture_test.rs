use gltf_opt::codec::{CodecStage, Ktx2Job, TargetFormat, TextureType};
use gltf_opt::document::{BufferView, Document, Image, Texture};
use gltf_opt::output::{ImageOrigin, Output};
use gltf_opt::texture::{
    add_image, add_metallic_roughness_texture, add_normal_texture, add_texture, convert_texture,
    embed_texture, ConversionError,
};
use std::io::Cursor;

fn png_rgb(width: u32, height: u32) -> Vec<u8> {
    let img = image::DynamicImage::new_rgb8(width, height);
    let mut out = Cursor::new(Vec::new());
    img.write_to(&mut out, image::ImageFormat::Png).unwrap();
    out.into_inner()
}

fn fake(_job: Ktx2Job) -> Result<Vec<u8>, String> {
    Ok(vec![0x4b, 0x54, 0x58])
}

fn failing(_job: Ktx2Job) -> Result<Vec<u8>, String> {
    Err("out of order".to_string())
}

fn named(name: Option<&str>, uri: Option<&str>) -> Image {
    Image {
        buffer_view: None,
        mime_type: Some("image/png".to_string()),
        name: name.map(|s| s.to_string()),
        uri: uri.map(|s| s.to_string()),
    }
}

/// One embedded PNG of 8 by 8 behind texture 0, an image without data behind
/// texture 1, and texture 2 without an image.
fn document() -> (Document, Vec<u8>) {
    let png = png_rgb(8, 8);
    let mut doc = Document::new();
    doc.buffer_views.push(
        BufferView { buffer: 0, byte_offset: Some(3), byte_length: png.len(), byte_stride: None },
    );
    doc.images.push(Image { buffer_view: Some(0), ..named(Some("wall.PNG"), Some("tex/wall.png")) });
    doc.images.push(named(Some("floor"), None));
    doc.textures.push(Texture { source: 0 });
    doc.textures.push(Texture { source: 1 });
    doc.textures.push(Texture { source: 5 });
    let mut blob = vec![0u8; 3];
    blob.extend(png);
    (doc, blob)
}

#[test]
fn first_image_starts_at_zero_without_an_offset() {
    let (doc, _) = document();
    let mut out = Output::new();
    assert_eq!(add_image(&mut out, &doc, 0, vec![1, 2, 3], TextureType::BaseColor, TargetFormat::Jpeg), 0);
    assert_eq!(add_image(&mut out, &doc, 1, vec![4, 5], TextureType::Normal, TargetFormat::Png), 1);
    assert_eq!(out.blob, vec![1, 2, 3, 4, 5]);
    assert_eq!(
        out.document.buffer_views,
        vec![
            BufferView { buffer: 0, byte_offset: None, byte_length: 3, byte_stride: None },
            BufferView { buffer: 0, byte_offset: Some(3), byte_length: 2, byte_stride: None },
        ]
    );
    assert_eq!(out.origins.buffer_views, vec![None, None]);
    assert_eq!(
        out.origins.images,
        vec![
            ImageOrigin { source: 0, role: TextureType::BaseColor },
            ImageOrigin { source: 1, role: TextureType::Normal },
        ]
    );
}

#[test]
fn other_formats_keep_name_and_uri() {
    let (doc, _) = document();
    let mut out = Output::new();
    add_image(&mut out, &doc, 0, vec![1], TextureType::BaseColor, TargetFormat::Jpeg);
    add_image(&mut out, &doc, 1, vec![2], TextureType::Normal, TargetFormat::Png);
    assert_eq!(
        out.document.images,
        vec![
            Image {
                buffer_view: Some(0),
                mime_type: Some("image/jpeg".to_string()),
                name: Some("wall.PNG".to_string()),
                uri: Some("tex/wall.png".to_string()),
            },
            Image {
                buffer_view: Some(1),
                mime_type: Some("image/png".to_string()),
                name: Some("floor".to_string()),
                uri: None,
            },
        ]
    );
}

#[test]
fn ktx2_rewrites_name_and_uri() {
    let (mut doc, _) = document();
    doc.images.push(named(None, None));
    let mut out = Output::new();
    add_image(&mut out, &doc, 0, vec![1], TextureType::BaseColor, TargetFormat::Ktx2);
    add_image(&mut out, &doc, 1, vec![2], TextureType::BaseColor, TargetFormat::Ktx2);
    add_image(&mut out, &doc, 2, vec![3], TextureType::BaseColor, TargetFormat::Ktx2);
    assert_eq!(
        out.document.images,
        vec![
            Image {
                buffer_view: Some(0),
                mime_type: Some("image/ktx2".to_string()),
                name: Some("wall.ktx2".to_string()),
                uri: Some("tex/wall.ktx2".to_string()),
            },
            Image {
                buffer_view: Some(1),
                mime_type: Some("image/ktx2".to_string()),
                name: Some("floor.ktx2".to_string()),
                uri: None,
            },
            Image {
                buffer_view: Some(2),
                mime_type: Some("image/ktx2".to_string()),
                name: Some("texture_2.ktx2".to_string()),
                uri: None,
            },
        ]
    );
}

#[test]
fn embedding_appends_image_and_texture() {
    let (doc, _) = document();
    let mut out = Output::new();
    assert_eq!(embed_texture(&mut out, &doc, 1, vec![7, 7], TextureType::Normal, TargetFormat::Png), 0);
    assert_eq!(embed_texture(&mut out, &doc, 0, vec![8], TextureType::Normal, TargetFormat::Png), 1);
    assert_eq!(out.document.textures, vec![Texture { source: 0 }, Texture { source: 1 }]);
    assert_eq!(out.origins.textures, vec![1, 0]);
    assert_eq!(
        out.origins.images,
        vec![
            ImageOrigin { source: 1, role: TextureType::Normal },
            ImageOrigin { source: 0, role: TextureType::Normal },
        ]
    );
    assert_eq!(out.blob, vec![7, 7, 8]);
}

#[test]
fn base_colour_becomes_jpeg() {
    let (doc, blob) = document();
    let mut out = Output::new();
    assert_eq!(add_texture(&mut out, &blob, &doc, 0, 4, false, &fake), Ok(0));
    assert_eq!(out.document.images[0].mime_type, Some("image/jpeg".to_string()));
    assert_eq!(out.document.images[0].name, Some("wall.PNG".to_string()));
    assert_eq!(image::guess_format(&out.blob).unwrap(), image::ImageFormat::Jpeg);
    let img = image::load_from_memory(&out.blob).unwrap();
    assert_eq!((img.width(), img.height()), (4, 4));
    assert_eq!(out.document.buffer_views[0].byte_length, out.blob.len());
}

#[test]
fn normal_map_becomes_png() {
    let (doc, blob) = document();
    let mut out = Output::new();
    assert_eq!(add_normal_texture(&mut out, &blob, &doc, 0, 16, false, &fake), Ok(0));
    assert_eq!(out.document.images[0].mime_type, Some("image/png".to_string()));
    assert_eq!(image::guess_format(&out.blob).unwrap(), image::ImageFormat::Png);
    let img = image::load_from_memory(&out.blob).unwrap();
    assert_eq!((img.width(), img.height()), (8, 8));
}

#[test]
fn metallic_roughness_becomes_jpeg() {
    let (doc, blob) = document();
    let mut out = Output::new();
    assert_eq!(add_metallic_roughness_texture(&mut out, &blob, &doc, 0, 2, false, &fake), Ok(0));
    assert_eq!(out.document.images[0].mime_type, Some("image/jpeg".to_string()));
    let img = image::load_from_memory(&out.blob).unwrap();
    assert_eq!((img.width(), img.height()), (2, 2));
}

#[test]
fn every_role_becomes_ktx2_when_transcoding() {
    let (doc, blob) = document();
    let mut out = Output::new();
    assert_eq!(add_texture(&mut out, &blob, &doc, 0, 4, true, &fake), Ok(0));
    assert_eq!(add_normal_texture(&mut out, &blob, &doc, 0, 4, true, &fake), Ok(1));
    assert_eq!(add_metallic_roughness_texture(&mut out, &blob, &doc, 0, 4, true, &fake), Ok(2));
    assert_eq!(out.blob, vec![0x4b, 0x54, 0x58, 0x4b, 0x54, 0x58, 0x4b, 0x54, 0x58]);
    for image in &out.document.images {
        assert_eq!(image.mime_type, Some("image/ktx2".to_string()));
        assert_eq!(image.name, Some("wall.ktx2".to_string()));
        assert_eq!(image.uri, Some("tex/wall.ktx2".to_string()));
    }
    assert_eq!(out.origins.textures, vec![0, 0, 0]);
    assert_eq!(
        out.origins.images,
        vec![
            ImageOrigin { source: 0, role: TextureType::BaseColor },
            ImageOrigin { source: 0, role: TextureType::Normal },
            ImageOrigin { source: 0, role: TextureType::MetallicRoughness },
        ]
    );
}

#[test]
fn missing_image_data_is_reported_with_the_texture() {
    let (doc, blob) = document();
    let mut out = Output::new();
    for texture in [1usize, 2, 3] {
        assert_eq!(
            add_texture(&mut out, &blob, &doc, texture, 4, false, &fake),
            Err(ConversionError::MissingImageData { texture })
        );
        assert_eq!(
            add_normal_texture(&mut out, &blob, &doc, texture, 4, true, &fake),
            Err(ConversionError::MissingImageData { texture })
        );
    }
    assert_eq!(
        add_texture(&mut out, &blob[..20], &doc, 0, 4, false, &fake),
        Err(ConversionError::MissingImageData { texture: 0 })
    );
    assert_eq!(out, Output::new());
}

#[test]
fn codec_failure_is_reported_with_role_and_texture() {
    let (doc, blob) = document();
    let mut out = Output::new();
    let result = add_normal_texture(&mut out, &blob, &doc, 0, 4, true, &failing);
    assert_eq!(
        result,
        Err(
            ConversionError::Codec {
                role: TextureType::Normal,
                texture: 0,
                stage: CodecStage::Encode,
                message: "out of order".to_string(),
            },
        )
    );
    assert_eq!(out, Output::new());
    let mut blob = blob;
    blob[3] = 0;
    match convert_texture(&mut out, &blob, &doc, 0, 4, false, TextureType::MetallicRoughness, &fake)
    {
        Err(ConversionError::Codec { role, texture, stage, .. }) => {
            assert_eq!(role, TextureType::MetallicRoughness);
            assert_eq!(texture, 0);
            assert_eq!(stage, CodecStage::Decode);
        },
        other => panic!("unexpected {:?}", other),
    }
    assert_eq!(out, Output::new());
}

#[test]
fn errors_describe_themselves() {
    assert_eq!(
        ConversionError::MissingImageData { texture: 7 }.describe(),
        "Failed to get texture image data (texture index: 7)"
    );
    let codec = |role| ConversionError::Codec {
        role,
        texture: 12,
        stage: CodecStage::Decode,
        message: "bad header".to_string(),
    };
    assert_eq!(
        codec(TextureType::BaseColor).describe(),
        "Failed to process base color texture: bad header (texture index: 12)"
    );
    assert_eq!(
        codec(TextureType::Normal).describe(),
        "Failed to process normal texture: bad header (texture index: 12)"
    );
    assert_eq!(
        codec(TextureType::MetallicRoughness).describe(),
        "Failed to process metallic/roughness texture: bad header (texture index: 12)"
    );
}
