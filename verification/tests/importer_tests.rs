use engine::asset::Object;
use engine::buffer::{Buffer, BufferView};
use engine::importer::wbg;
use engine::index::{Format as IndexFormat, Geometry};
use engine::mesh::Submesh;
use engine::untyped_view::Numeric;
use engine::vertex::AttributeName;

/// A minimal single-mesh container: one Position attribute (f32, Vector3),
/// 3 vertices, u16 indices [0, 1, 2], one area of one triangle.
fn minimal_container(packed_type: u8) -> Vec<u8> {
    let mut b: Vec<u8> = Vec::new();
    b.push(0); // file version
    b.push(1); // mesh count
    b.push(3); // name length
    b.extend_from_slice(b"tri");
    b.push(1); // attribute declaration count
    b.push(0); // usage: Position
    b.push(0); // reserved
    b.push(packed_type); // width Vector3 (top 3 bits = 2), scalar f32 (code 4)
    b.extend_from_slice(&3u32.to_le_bytes()); // vertex count
    for v in [
        1.0f32, 0.0, 0.0, //
        0.0, 1.0, 0.0, //
        0.0, 0.0, 1.0,
    ] {
        b.extend_from_slice(&v.to_le_bytes());
    }
    b.push(0); // index format: u16
    b.extend_from_slice(&3u32.to_le_bytes()); // index count
    for i in [0u16, 1, 2] {
        b.extend_from_slice(&i.to_le_bytes());
    }
    b.push(1); // area count
    b.push(1); // area name length
    b.extend_from_slice(b"a");
    b.extend_from_slice(&0u32.to_le_bytes()); // start
    b.extend_from_slice(&1u32.to_le_bytes()); // triangle count
    for _ in 0..6 {
        b.extend_from_slice(&0.0f32.to_le_bytes()); // min/max bounds
    }
    b.push(0); // bone binding count
    b.extend_from_slice(&0u16.to_le_bytes()); // blend shape count
    b
}

#[test]
fn import_minimal_container() {
    let buffer = Buffer::new(None, None, minimal_container(0x44));
    let asset = wbg::import(buffer).expect("import should succeed");

    assert_eq!(asset.objects.len(), 1);
    let Object::Mesh(mesh) = &asset.objects[0];
    assert_eq!(mesh.name, "tri");
    assert_eq!(mesh.vertex_count, 3);
    assert_eq!(mesh.descriptor.attributes.len(), 1);
    assert_eq!(mesh.descriptor.layouts.len(), 1);
    assert_eq!(mesh.descriptor.layouts[0].stride, 12);
    assert_eq!(mesh.submeshes.len(), 1);

    let sub = &mesh.submeshes[0];
    assert_eq!(sub.name, "a");
    assert_eq!(sub.index_count, 3);
    assert_eq!(sub.index_format, IndexFormat::U16);
    assert_eq!(sub.geometry, Geometry::Triangles);

    // The position view reproduces the three original vectors unchanged.
    let view = mesh.untyped_view_for(&AttributeName::Position).expect("position view");
    assert_eq!(view.len(), 3);
    let expected = [[1.0f32, 0.0, 0.0], [0.0, 1.0, 0.0], [0.0, 0.0, 1.0]];
    for (i, want) in expected.iter().enumerate() {
        let got = view.get_numerics(i).unwrap();
        assert_eq!(got.len(), 3);
        for (n, w) in got.iter().zip(want.iter()) {
            match n {
                Numeric::Bits(bits) => assert_eq!(f32::from_bits(*bits), *w),
                _ => panic!("expected float bits"),
            }
        }
    }

    // The faces resolve to the original indices.
    let mut faces = sub.faces();
    assert_eq!(faces.len(), 1);
    assert_eq!(faces.next(), Some(vec![0, 1, 2]));
    assert_eq!(faces.next(), None);
}

#[test]
fn import_round_trips_descriptor() {
    let buffer = Buffer::new(None, None, minimal_container(0x44));
    let asset = wbg::import(buffer).unwrap();
    let Object::Mesh(mesh) = &asset.objects[0];

    let attr = &mesh.descriptor.attributes[0];
    assert_eq!(attr.name, AttributeName::Position);
    assert_eq!(
        attr.format,
        engine::vertex::Format(engine::vertex::Scalar::F32, engine::vertex::Width::Vector3)
    );
    assert_eq!(attr.offset, 0);
    assert_eq!(attr.buffer_index, 0);
}

#[test]
fn import_rejects_unknown_packed_type() {
    // Scalar code 5 has no meaning; the import yields no mesh at all.
    let buffer = Buffer::new(None, None, minimal_container(0x45));
    assert!(wbg::import(buffer).is_none());
}

#[test]
fn import_rejects_bad_version() {
    let mut bytes = minimal_container(0x44);
    bytes[0] = 9;
    let buffer = Buffer::new(None, None, bytes);
    assert!(wbg::import(buffer).is_none());
}

#[test]
fn import_rejects_truncation() {
    let mut bytes = minimal_container(0x44);
    bytes.truncate(20);
    let buffer = Buffer::new(None, None, bytes);
    assert!(wbg::import(buffer).is_none());
}

#[test]
fn faces_triangles_by_triple() {
    // Nine u16 indices as triangles: exactly three groups of three, in
    // declaration order.
    let mut data: Vec<u8> = Vec::new();
    for i in [7u16, 8, 9, 10, 11, 12, 13, 14, 15] {
        data.extend_from_slice(&i.to_le_bytes());
    }
    let buffer = Buffer::new(None, None, data);
    let view = BufferView::new(None, buffer, 0, 18);
    let sub = Submesh {
        name: String::new(),
        view,
        index_count: 9,
        index_format: IndexFormat::U16,
        geometry: Geometry::Triangles,
    };
    let mut faces = sub.faces();
    assert_eq!(faces.len(), 3);
    assert_eq!(faces.next(), Some(vec![7, 8, 9]));
    assert_eq!(faces.next(), Some(vec![10, 11, 12]));
    assert_eq!(faces.next(), Some(vec![13, 14, 15]));
    assert_eq!(faces.next(), None);
}

#[test]
fn faces_triangle_strips_overlap() {
    // Five u32 indices as a strip: three overlapping triples.
    let mut data: Vec<u8> = Vec::new();
    for i in [0u32, 1, 2, 3, 4] {
        data.extend_from_slice(&i.to_le_bytes());
    }
    let buffer = Buffer::new(None, None, data);
    let view = BufferView::new(None, buffer, 0, 20);
    let sub = Submesh {
        name: String::new(),
        view,
        index_count: 5,
        index_format: IndexFormat::U32,
        geometry: Geometry::TriangleStrips,
    };
    let mut faces = sub.faces();
    assert_eq!(faces.len(), 3);
    assert_eq!(faces.size_hint(), (3, Some(3)));
    assert_eq!(faces.next(), Some(vec![0, 1, 2]));
    assert_eq!(faces.next(), Some(vec![1, 2, 3]));
    assert_eq!(faces.next(), Some(vec![2, 3, 4]));
    assert_eq!(faces.next(), None);
}

#[test]
fn read_helpers_parse_sections() {
    // A bone-binding section of two names, then a mesh-binding list.
    let mut bytes: Vec<u8> = Vec::new();
    bytes.push(2);
    bytes.push(3);
    bytes.extend_from_slice(b"arm");
    bytes.push(3);
    bytes.extend_from_slice(b"leg");
    bytes.push(2); // mesh binding count
    bytes.push(0);
    bytes.push(1);
    let buffer = Buffer::new(None, None, bytes);

    let (names, pos) = wbg::read_bone_bindings(&buffer, 0).unwrap();
    assert_eq!(names, vec!["arm".to_owned(), "leg".to_owned()]);
    let (bindings, end) = wbg::read_mesh_bindings(&buffer, pos).unwrap();
    assert_eq!(bindings, vec![0, 1]);
    assert_eq!(end, 12);

    let (name, _) = wbg::read_string(&buffer, 1).unwrap();
    assert_eq!(name, "arm");
}

#[test]
fn import_reads_blend_shapes() {
    let mut b = minimal_container(0x44);
    // Replace the trailing blend count with one blend shape.
    b.truncate(b.len() - 2);
    b.extend_from_slice(&1u16.to_le_bytes());
    b.push(2); // blend name length
    b.extend_from_slice(b"bs");
    b.push(0); // blend attribute declaration count
    b.extend_from_slice(&0u32.to_le_bytes()); // blend vertex count
    b.push(0); // blend index format u16
    b.extend_from_slice(&2u32.to_le_bytes()); // blend index count
    b.extend_from_slice(&5u16.to_le_bytes());
    b.extend_from_slice(&6u16.to_le_bytes());
    let buffer = Buffer::new(None, None, b);
    let asset = wbg::import(buffer).unwrap();

    assert_eq!(asset.objects.len(), 2);
    let Object::Mesh(blend) = &asset.objects[1];
    assert_eq!(blend.name, "bs");
    assert_eq!(blend.submeshes.len(), 1);
    assert_eq!(blend.submeshes[0].geometry, Geometry::Points);
    assert_eq!(blend.submeshes[0].index_count, 2);
    let mut faces = blend.submeshes[0].faces();
    assert_eq!(faces.len(), 2);
    assert_eq!(faces.next(), Some(vec![5]));
    assert_eq!(faces.next(), Some(vec![6]));
    assert_eq!(faces.next(), None);
}
