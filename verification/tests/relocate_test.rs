use gltf_opt::document::{Accessor, BufferView, ComponentType, Document, ElementType};
use gltf_opt::output::{AccessorOrigin, Output};
use gltf_opt::relocate::{add_accessor, add_accessor_with_offset, translate_records};
use gltf_opt::words::Vec3;

fn plus(a: u32, b: u32) -> u32 {
    (f32::from_bits(a) + f32::from_bits(b)).to_bits()
}

fn floats(values: &[f32]) -> Vec<u8> {
    let mut bytes = Vec::new();
    for v in values {
        bytes.extend_from_slice(&v.to_le_bytes());
    }
    bytes
}

fn offset(x: f32, y: f32, z: f32) -> Vec3 {
    Vec3 { x: x.to_bits(), y: y.to_bits(), z: z.to_bits() }
}

fn positions_document(stride: Option<usize>, count: usize, length: usize) -> Document {
    let mut doc = Document::new();
    doc.buffer_views.push(
        BufferView { buffer: 0, byte_offset: Some(4), byte_length: length, byte_stride: stride },
    );
    doc.accessors.push(
        Accessor {
            buffer_view: Some(0),
            byte_offset: None,
            count,
            component_type: ComponentType::Float,
            element_type: ElementType::Vec3,
            sparse: None,
        },
    );
    doc
}

#[test]
fn translate_records_adds_the_offset_to_every_record() {
    let mut data = floats(&[-2.0, 0.0, -1.0, 2.0, 4.0, 3.0]);
    translate_records(&mut data, 0, 12, 2, offset(0.0, 0.0, -1.0), &plus);
    assert_eq!(data, floats(&[-2.0, 0.0, -2.0, 2.0, 4.0, 2.0]));
}

#[test]
fn translate_records_honours_offset_and_stride() {
    let mut data = vec![7u8; 2];
    data.extend(floats(&[1.0, 2.0, 3.0]));
    data.extend([8u8; 4]);
    data.extend(floats(&[4.0, 5.0, 6.0]));
    data.extend([9u8; 4]);
    let mut expected = vec![7u8; 2];
    expected.extend(floats(&[1.5, 1.0, 13.0]));
    expected.extend([8u8; 4]);
    expected.extend(floats(&[4.5, 4.0, 16.0]));
    expected.extend([9u8; 4]);
    translate_records(&mut data, 2, 16, 2, offset(0.5, -1.0, 10.0), &plus);
    assert_eq!(data, expected);
}

#[test]
fn translate_records_skips_records_beyond_the_end() {
    let mut data = floats(&[1.0, 2.0, 3.0, 4.0, 5.0]);
    translate_records(&mut data, 0, 12, 5, offset(1.0, 1.0, 1.0), &plus);
    assert_eq!(data, floats(&[2.0, 3.0, 4.0, 4.0, 5.0]));
    let mut short = vec![1u8; 11];
    translate_records(&mut short, 0, 12, 3, offset(1.0, 1.0, 1.0), &plus);
    assert_eq!(short, vec![1u8; 11]);
    let mut none = floats(&[1.0, 2.0, 3.0]);
    translate_records(&mut none, 0, 12, 0, offset(1.0, 1.0, 1.0), &plus);
    assert_eq!(none, floats(&[1.0, 2.0, 3.0]));
}

#[test]
fn translate_records_works_in_place_on_overlapping_records() {
    let mut data = floats(&[1.0, 2.0, 3.0, 4.0]);
    translate_records(&mut data, 0, 4, 2, offset(10.0, 20.0, 30.0), &plus);
    assert_eq!(data, floats(&[11.0, 32.0, 53.0, 34.0]));
    let mut same = floats(&[1.0, 2.0, 3.0]);
    translate_records(&mut same, 0, 0, 3, offset(1.0, 1.0, 1.0), &plus);
    assert_eq!(same, floats(&[4.0, 5.0, 6.0]));
}

#[test]
fn translate_records_survives_huge_strides_and_counts() {
    let mut data = floats(&[1.0, 2.0, 3.0]);
    translate_records(&mut data, 0, usize::MAX, usize::MAX, offset(1.0, 1.0, 1.0), &plus);
    assert_eq!(data, floats(&[2.0, 3.0, 4.0]));
    let mut far = floats(&[1.0, 2.0, 3.0]);
    translate_records(&mut far, usize::MAX, 12, 2, offset(1.0, 1.0, 1.0), &plus);
    assert_eq!(far, floats(&[1.0, 2.0, 3.0]));
}

#[test]
fn accessor_is_copied_verbatim() {
    let doc = positions_document(None, 2, 24);
    let mut blob = vec![0xeeu8; 4];
    let span = floats(&[-2.0, 0.0, -1.0, 2.0, 4.0, 3.0]);
    blob.extend(&span);
    blob.extend([0xddu8; 3]);
    let mut out = Output::new();
    assert_eq!(add_accessor(&mut out, &blob, &doc, 0), Some(0));
    assert_eq!(out.blob, span);
    assert_eq!(
        out.document.buffer_views,
        vec![BufferView { buffer: 0, byte_offset: Some(0), byte_length: 24, byte_stride: None }]
    );
    assert_eq!(out.document.accessors, vec![doc.accessors[0]]);
    assert_eq!(out.origins.buffer_views, vec![Some(0)]);
    assert_eq!(out.origins.accessors, vec![AccessorOrigin { source: 0, translation: None }]);
}

#[test]
fn second_relocation_starts_where_the_first_ended() {
    let mut doc = positions_document(Some(12), 1, 12);
    doc.buffer_views.push(BufferView { buffer: 0, byte_offset: None, byte_length: 5, byte_stride: None });
    doc.accessors.push(
        Accessor {
            buffer_view: Some(1),
            byte_offset: Some(1),
            count: 4,
            component_type: ComponentType::UnsignedByte,
            element_type: ElementType::Scalar,
            sparse: None,
        },
    );
    let blob: Vec<u8> = (0u8..16).collect();
    let mut out = Output::new();
    assert_eq!(add_accessor(&mut out, &blob, &doc, 1), Some(0));
    assert_eq!(add_accessor(&mut out, &blob, &doc, 0), Some(1));
    assert_eq!(out.blob, vec![0, 1, 2, 3, 4, 4, 5, 6, 7, 8, 9, 10, 11, 12, 13, 14, 15]);
    assert_eq!(
        out.document.buffer_views,
        vec![
            BufferView { buffer: 0, byte_offset: Some(0), byte_length: 5, byte_stride: None },
            BufferView { buffer: 0, byte_offset: Some(5), byte_length: 12, byte_stride: Some(12) },
        ]
    );
    assert_eq!(out.document.accessors[0], Accessor { buffer_view: Some(0), ..doc.accessors[1] });
    assert_eq!(out.document.accessors[1], Accessor { buffer_view: Some(1), ..doc.accessors[0] });
    assert_eq!(out.origins.buffer_views, vec![Some(1), Some(0)]);
}

#[test]
fn positions_are_translated_on_the_way() {
    let doc = positions_document(None, 2, 24);
    let mut blob = vec![0u8; 4];
    blob.extend(floats(&[-2.0, 0.0, -1.0, 2.0, 4.0, 3.0]));
    let by = offset(0.0, 0.0, -1.0);
    let mut out = Output::new();
    assert_eq!(add_accessor_with_offset(&mut out, &blob, &doc, 0, Some(by), &plus), Some(0));
    assert_eq!(out.blob, floats(&[-2.0, 0.0, -2.0, 2.0, 4.0, 2.0]));
    assert_eq!(out.origins.accessors, vec![AccessorOrigin { source: 0, translation: Some(by) }]);
    assert_eq!(out.document.accessors[0].count, 2);
}

#[test]
fn other_layouts_are_not_translated() {
    let mut doc = positions_document(None, 2, 24);
    doc.accessors[0].element_type = ElementType::Vec4;
    let mut blob = vec![0u8; 4];
    let span = floats(&[-2.0, 0.0, -1.0, 2.0, 4.0, 3.0]);
    blob.extend(&span);
    let by = offset(1.0, 1.0, 1.0);
    let mut out = Output::new();
    assert_eq!(add_accessor_with_offset(&mut out, &blob, &doc, 0, Some(by), &plus), Some(0));
    assert_eq!(out.blob, span);
    assert_eq!(out.origins.accessors, vec![AccessorOrigin { source: 0, translation: None }]);
    doc.accessors[0].element_type = ElementType::Vec3;
    doc.accessors[0].component_type = ComponentType::UnsignedInt;
    let mut again = Output::new();
    assert_eq!(add_accessor_with_offset(&mut again, &blob, &doc, 0, Some(by), &plus), Some(0));
    assert_eq!(again.blob, span);
}

#[test]
fn missing_data_leaves_the_output_alone() {
    let mut doc = positions_document(None, 2, 24);
    doc.accessors.push(Accessor { buffer_view: None, ..doc.accessors[0] });
    doc.accessors.push(Accessor { buffer_view: Some(5), ..doc.accessors[0] });
    let short = vec![0u8; 27];
    let mut out = Output::new();
    let fresh = Output::new();
    assert_eq!(add_accessor(&mut out, &short, &doc, 0), None);
    assert_eq!(add_accessor(&mut out, &short, &doc, 1), None);
    assert_eq!(add_accessor(&mut out, &short, &doc, 2), None);
    assert_eq!(add_accessor(&mut out, &short, &doc, 3), None);
    assert_eq!(
        add_accessor_with_offset(&mut out, &short, &doc, 0, Some(offset(1.0, 1.0, 1.0)), &plus),
        None
    );
    assert_eq!(out, fresh);
}
