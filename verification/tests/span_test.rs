use gltf_opt::document::{
    Accessor, BufferView, ComponentType, Document, ElementType, Image, Texture,
};
use gltf_opt::span::{accessor_span, extract_span, get_image_data};

fn view(offset: Option<usize>, length: usize) -> BufferView {
    BufferView { buffer: 0, byte_offset: offset, byte_length: length, byte_stride: None }
}

fn accessor(view: Option<usize>) -> Accessor {
    Accessor {
        buffer_view: view,
        byte_offset: None,
        count: 1,
        component_type: ComponentType::UnsignedByte,
        element_type: ElementType::Scalar,
        sparse: None,
    }
}

fn image(view: Option<usize>) -> Image {
    Image { buffer_view: view, mime_type: None, name: None, uri: None }
}

#[test]
fn span_is_the_exact_range() {
    let mut doc = Document::new();
    doc.buffer_views.push(view(Some(2), 3));
    let blob = [10u8, 11, 12, 13, 14, 15];
    assert_eq!(extract_span(&blob, &doc, 0), Some(&blob[2..5]));
}

#[test]
fn span_offset_defaults_to_zero() {
    let mut doc = Document::new();
    doc.buffer_views.push(view(None, 4));
    let blob = [1u8, 2, 3, 4, 5];
    assert_eq!(extract_span(&blob, &doc, 0), Some(&blob[0..4]));
}

#[test]
fn span_may_end_at_the_end_of_the_blob_or_be_empty() {
    let mut doc = Document::new();
    doc.buffer_views.push(view(Some(1), 3));
    doc.buffer_views.push(view(Some(4), 0));
    let blob = [1u8, 2, 3, 4];
    assert_eq!(extract_span(&blob, &doc, 0), Some(&blob[1..4]));
    assert_eq!(extract_span(&blob, &doc, 1), Some(&blob[4..4]));
}

#[test]
fn span_beyond_the_blob_is_missing() {
    let mut doc = Document::new();
    doc.buffer_views.push(view(Some(2), 3));
    doc.buffer_views.push(view(Some(5), 0));
    let blob = [1u8, 2, 3, 4];
    assert_eq!(extract_span(&blob, &doc, 0), None);
    assert_eq!(extract_span(&blob, &doc, 1), None);
}

#[test]
fn span_of_a_missing_view_is_missing() {
    let doc = Document::new();
    assert_eq!(extract_span(&[1u8, 2], &doc, 0), None);
}

#[test]
fn span_whose_end_overflows_is_missing() {
    let mut doc = Document::new();
    doc.buffer_views.push(view(Some(usize::MAX), 2));
    doc.buffer_views.push(view(Some(1), usize::MAX));
    let blob = [1u8, 2, 3, 4];
    assert_eq!(extract_span(&blob, &doc, 0), None);
    assert_eq!(extract_span(&blob, &doc, 1), None);
}

#[test]
fn accessor_span_follows_the_view() {
    let mut doc = Document::new();
    doc.buffer_views.push(view(Some(1), 2));
    doc.accessors.push(accessor(Some(0)));
    doc.accessors.push(accessor(None));
    doc.accessors.push(accessor(Some(7)));
    let blob = [5u8, 6, 7, 8];
    assert_eq!(accessor_span(&blob, &doc, 0), Some(&blob[1..3]));
    assert_eq!(accessor_span(&blob, &doc, 1), None);
    assert_eq!(accessor_span(&blob, &doc, 2), None);
    assert_eq!(accessor_span(&blob, &doc, 3), None);
}

#[test]
fn image_data_follows_texture_image_and_view() {
    let mut doc = Document::new();
    doc.buffer_views.push(view(Some(2), 2));
    doc.images.push(image(None));
    doc.images.push(image(Some(0)));
    doc.textures.push(Texture { source: 1 });
    doc.textures.push(Texture { source: 0 });
    doc.textures.push(Texture { source: 9 });
    let blob = [0u8, 1, 2, 3, 4];
    assert_eq!(get_image_data(&blob, &doc, 0), Some(&blob[2..4]));
    assert_eq!(get_image_data(&blob, &doc, 1), None);
    assert_eq!(get_image_data(&blob, &doc, 2), None);
    assert_eq!(get_image_data(&blob, &doc, 3), None);
}

#[test]
fn image_data_outside_the_blob_is_missing() {
    let mut doc = Document::new();
    doc.buffer_views.push(view(Some(2), 20));
    doc.images.push(image(Some(0)));
    doc.textures.push(Texture { source: 0 });
    let blob = [0u8, 1, 2, 3, 4];
    assert_eq!(get_image_data(&blob, &doc, 0), None);
}
