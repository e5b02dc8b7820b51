use gltf_opt::bounds::{
    calculate_bounding_box, calculate_center_bottom_offset, get_position_data, Bounds,
    NEGATIVE_INFINITY, POSITIVE_INFINITY,
};
use gltf_opt::document::{
    Accessor, Attribute, BufferView, ComponentType, Document, ElementType, Mesh, Primitive,
    Semantic,
};
use gltf_opt::words::Vec3;

fn plus(a: u32, b: u32) -> u32 {
    (f32::from_bits(a) + f32::from_bits(b)).to_bits()
}

fn half(a: u32) -> u32 {
    (f32::from_bits(a) / 2.0).to_bits()
}

fn lower(a: u32, b: u32) -> u32 {
    f32::from_bits(a).min(f32::from_bits(b)).to_bits()
}

fn upper(a: u32, b: u32) -> u32 {
    f32::from_bits(a).max(f32::from_bits(b)).to_bits()
}

fn floats(values: &[f32]) -> Vec<u8> {
    let mut bytes = Vec::new();
    for v in values {
        bytes.extend_from_slice(&v.to_le_bytes());
    }
    bytes
}

fn point(x: f32, y: f32, z: f32) -> Vec3 {
    Vec3 { x: x.to_bits(), y: y.to_bits(), z: z.to_bits() }
}

fn accessor(view: usize, offset: Option<usize>, count: usize) -> Accessor {
    Accessor {
        buffer_view: Some(view),
        byte_offset: offset,
        count,
        component_type: ComponentType::Float,
        element_type: ElementType::Vec3,
        sparse: None,
    }
}

fn primitive(attributes: Vec<Attribute>) -> Primitive {
    Primitive { indices: None, attributes, material: None, targets: vec![] }
}

#[test]
fn positions_are_read_at_offset_plus_index_times_stride() {
    let mut doc = Document::new();
    doc.buffer_views.push(
        BufferView { buffer: 0, byte_offset: Some(2), byte_length: 36, byte_stride: Some(16) },
    );
    doc.accessors.push(accessor(0, Some(4), 2));
    let mut blob = vec![0u8; 6];
    blob.extend(floats(&[1.0, 2.0, 3.0, 99.0, 4.0, 5.0, 6.0]));
    assert_eq!(
        get_position_data(&blob, &doc, 0),
        Some(vec![point(1.0, 2.0, 3.0), point(4.0, 5.0, 6.0)])
    );
}

#[test]
fn stride_defaults_to_twelve_bytes() {
    let mut doc = Document::new();
    doc.buffer_views.push(BufferView { buffer: 0, byte_offset: None, byte_length: 24, byte_stride: None });
    doc.accessors.push(accessor(0, None, 2));
    let blob = floats(&[1.0, 2.0, 3.0, 4.0, 5.0, 6.0]);
    assert_eq!(
        get_position_data(&blob, &doc, 0),
        Some(vec![point(1.0, 2.0, 3.0), point(4.0, 5.0, 6.0)])
    );
}

#[test]
fn positions_that_reach_beyond_the_blob_are_missing() {
    let mut doc = Document::new();
    doc.buffer_views.push(BufferView { buffer: 0, byte_offset: None, byte_length: 24, byte_stride: None });
    doc.buffer_views.push(BufferView { buffer: 0, byte_offset: Some(30), byte_length: 0, byte_stride: None });
    doc.accessors.push(accessor(0, None, 3));
    doc.accessors.push(accessor(1, None, 0));
    doc.accessors.push(accessor(2, None, 1));
    doc.accessors.push(Accessor { buffer_view: None, ..accessor(0, None, 1) });
    doc.accessors.push(accessor(0, None, 0));
    let blob = floats(&[1.0, 2.0, 3.0, 4.0, 5.0, 6.0]);
    assert_eq!(get_position_data(&blob, &doc, 0), None);
    assert_eq!(get_position_data(&blob, &doc, 1), None);
    assert_eq!(get_position_data(&blob, &doc, 2), None);
    assert_eq!(get_position_data(&blob, &doc, 3), None);
    assert_eq!(get_position_data(&blob, &doc, 4), Some(vec![]));
    assert_eq!(get_position_data(&blob, &doc, 5), None);
}

#[test]
fn positions_are_read_to_the_end_of_the_blob() {
    let mut doc = Document::new();
    doc.buffer_views.push(BufferView { buffer: 0, byte_offset: None, byte_length: 12, byte_stride: None });
    doc.accessors.push(accessor(0, None, 2));
    let blob = floats(&[1.0, 2.0, 3.0, 4.0, 5.0, 6.0]);
    assert_eq!(
        get_position_data(&blob, &doc, 0),
        Some(vec![point(1.0, 2.0, 3.0), point(4.0, 5.0, 6.0)])
    );
}

fn two_mesh_document() -> (Document, Vec<u8>) {
    let mut doc = Document::new();
    doc.buffer_views.push(BufferView { buffer: 0, byte_offset: None, byte_length: 24, byte_stride: None });
    doc.buffer_views.push(BufferView { buffer: 0, byte_offset: Some(24), byte_length: 12, byte_stride: None });
    doc.accessors.push(accessor(0, None, 2));
    doc.accessors.push(accessor(1, None, 1));
    doc.meshes.push(
        Mesh {
            primitives: vec![
                primitive(
                    vec![
                        Attribute { semantic: Semantic::Normals, accessor: 1 },
                        Attribute { semantic: Semantic::Positions, accessor: 0 },
                    ],
                ),
            ],
        },
    );
    doc.meshes.push(
        Mesh {
            primitives: vec![
                primitive(vec![]),
                primitive(vec![Attribute { semantic: Semantic::Positions, accessor: 7 }]),
            ],
        },
    );
    let blob = floats(&[-2.0, 0.0, 3.0, 2.0, 4.0, -1.0, 100.0, 100.0, 100.0]);
    (doc, blob)
}

#[test]
fn bounding_box_spans_all_positions() {
    let (doc, blob) = two_mesh_document();
    assert_eq!(
        calculate_bounding_box(&blob, &doc, &lower, &upper),
        Some(Bounds { min: point(-2.0, 0.0, -1.0), max: point(2.0, 4.0, 3.0) })
    );
}

#[test]
fn bounding_box_ignores_other_attributes() {
    let (mut doc, blob) = two_mesh_document();
    doc.meshes[0].primitives[0].attributes[0].semantic = Semantic::Positions;
    assert_eq!(
        calculate_bounding_box(&blob, &doc, &lower, &upper),
        Some(Bounds { min: point(-2.0, 0.0, -1.0), max: point(100.0, 100.0, 100.0) })
    );
}

#[test]
fn no_positions_no_bounding_box() {
    let (mut doc, blob) = two_mesh_document();
    doc.meshes[0].primitives[0].attributes[1].semantic = Semantic::Tangents;
    assert_eq!(calculate_bounding_box(&blob, &doc, &lower, &upper), None);
    assert_eq!(calculate_bounding_box(&blob, &Document::new(), &lower, &upper), None);
}

#[test]
fn empty_position_data_gives_the_empty_box() {
    let (mut doc, blob) = two_mesh_document();
    doc.accessors[0].count = 0;
    let inf = Vec3 { x: POSITIVE_INFINITY, y: POSITIVE_INFINITY, z: POSITIVE_INFINITY };
    let neg = Vec3 { x: NEGATIVE_INFINITY, y: NEGATIVE_INFINITY, z: NEGATIVE_INFINITY };
    assert_eq!(
        calculate_bounding_box(&blob, &doc, &lower, &upper),
        Some(Bounds { min: inf, max: neg })
    );
    assert_eq!(f32::from_bits(POSITIVE_INFINITY), f32::INFINITY);
    assert_eq!(f32::from_bits(NEGATIVE_INFINITY), f32::NEG_INFINITY);
}

#[test]
fn bounding_box_does_not_depend_on_the_order_of_the_meshes() {
    let (mut doc, blob) = two_mesh_document();
    doc.meshes[1].primitives[1].attributes[0].accessor = 1;
    let forward = calculate_bounding_box(&blob, &doc, &lower, &upper);
    doc.meshes.reverse();
    let backward = calculate_bounding_box(&blob, &doc, &lower, &upper);
    assert_eq!(forward, backward);
    assert_eq!(
        forward,
        Some(Bounds { min: point(-2.0, 0.0, -1.0), max: point(100.0, 100.0, 100.0) })
    );
}

#[test]
fn offset_moves_the_bottom_centre_to_the_origin() {
    let offset =
        calculate_center_bottom_offset(point(-2.0, 0.0, -1.0), point(2.0, 4.0, 3.0), &plus, &half);
    assert_eq!(f32::from_bits(offset.x), 0.0);
    assert_eq!(f32::from_bits(offset.y), 0.0);
    assert_eq!(f32::from_bits(offset.z), -1.0);
    let other =
        calculate_center_bottom_offset(point(1.0, 2.0, 3.0), point(4.0, 9.0, 4.0), &plus, &half);
    assert_eq!(other, point(-2.5, -2.0, -3.5));
}
