use engine::buffer::Buffer;
use engine::resource::{path_to_mime, Resource, ResourceLoader, ResourceManager};
use engine::sof::{Hull, Manager, SofData};
use engine::untyped_view::Numeric;
use engine::vertex::{Attribute, AttributeName, BufferLayout, Descriptor, Format, Scalar, Width};

#[test]
fn mime_from_extension() {
    assert_eq!(path_to_mime("foo/bar.wbg"), Some("application/x-ccp-wbg"));
    assert_eq!(path_to_mime("data.red"), Some("application/x-ccp-red"));
    assert_eq!(path_to_mime("m.obj"), Some("application/x-wavefront-obj"));
    assert_eq!(path_to_mime("noext"), None);
    assert_eq!(path_to_mime("dir.d/noext"), None);
    assert_eq!(path_to_mime("x.txt"), None);
}

struct StaticLoader {
    mime: &'static str,
    bytes: Vec<u8>,
}

impl ResourceLoader for StaticLoader {
    fn load(&self, _path: &str) -> Option<(String, Vec<u8>)> {
        Some((self.mime.to_owned(), self.bytes.clone()))
    }
}

#[test]
fn manager_dispatches_on_prefix() {
    let mut manager: ResourceManager<StaticLoader> = ResourceManager::new();
    manager.insert(
        "res",
        StaticLoader { mime: "text/xml", bytes: b"<a>hi</a>".to_vec() },
    );

    let loaded = manager.load("res:/some/path.xml").expect("loads");
    match &*loaded {
        Resource::Text(t) => assert_eq!(t, "<a>hi</a>"),
        _ => panic!("expected text"),
    }

    assert!(manager.load("nocolon").is_none());
    assert!(manager.load("other:/x").is_none());
}

#[test]
fn manager_passes_binary_through() {
    let mut manager: ResourceManager<StaticLoader> = ResourceManager::new();
    manager.insert(
        "res",
        StaticLoader { mime: "application/octet-stream", bytes: vec![1, 2, 3] },
    );
    let loaded = manager.load("res:blob").unwrap();
    match &*loaded {
        Resource::Binary(b) => assert_eq!(b.as_slice(), &[1, 2, 3]),
        _ => panic!("expected binary"),
    }
}

#[test]
fn sof_lookup_finds_first_hull() {
    let mut manager = Manager::new();
    assert!(manager.hulls().is_none());
    assert!(manager.load_hull("ai2_t2").is_none());

    manager.install(SofData {
        race: Vec::new(),
        faction: Vec::new(),
        hull: vec![
            (
                "ai2_t2".to_owned(),
                Hull {
                    name: "ai2_t2".to_owned(),
                    description: "ship/amarr/industrial/ai2".to_owned(),
                    geometry_res_file_path:
                        "res:/dx9/model/ship/amarr/industrial/ai2/ai2_t2.wbg".to_owned(),
                },
            ),
        ],
    });

    let names = manager.hulls().unwrap();
    assert_eq!(names, vec!["ai2_t2".to_owned()]);
    let hull = manager.load_hull("ai2_t2").unwrap();
    assert_eq!(hull.description, "ship/amarr/industrial/ai2");
    assert_eq!(
        hull.geometry_path(),
        "res:/dx9/model/ship/amarr/industrial/ai2/ai2_t2.wbg"
    );
    assert!(manager.load_hull("missing").is_none());
}

#[test]
fn descriptor_lookup_returns_first_match() {
    let descriptor = Descriptor {
        attributes: vec![
            Attribute {
                name: AttributeName::Position,
                format: Format(Scalar::F32, Width::Vector3),
                offset: 0,
                buffer_index: 0,
            },
            Attribute {
                name: AttributeName::TextureCoordinate,
                format: Format(Scalar::F16, Width::Vector2),
                offset: 12,
                buffer_index: 0,
            },
            Attribute {
                name: AttributeName::TextureCoordinate,
                format: Format(Scalar::F32, Width::Vector2),
                offset: 16,
                buffer_index: 0,
            },
        ],
        layouts: vec![BufferLayout { stride: 24 }],
    };
    let first = descriptor.attribute_for(&AttributeName::TextureCoordinate).unwrap();
    assert_eq!(first.offset, 12);
    assert!(descriptor.attribute_for(&AttributeName::Normal).is_none());
    assert!(descriptor
        .attribute_for(&AttributeName::Other("x".to_owned()))
        .is_none());
}

#[test]
fn omni_view_reads_half_scalars() {
    let attribute = Attribute {
        name: AttributeName::Position,
        format: Format(Scalar::F16, Width::Scalar),
        offset: 4,
        buffer_index: 0,
    };
    let data: Vec<u8> = vec![
        0xff, 0xff, 0xff, 0xff, 0x00, 0x00, 0xff, 0xff, //
        0xff, 0xff, 0xff, 0xff, 0x00, 0x3c, 0xff, 0xff,
    ];
    let view = engine::omni::F32OmniView::new(data.as_slice(), &attribute, 2, 8).unwrap();
    assert_eq!(view.len(), 2);
    assert_eq!(f32::from_bits(view.get_bits(0).unwrap()), 0.0);
    assert_eq!(f32::from_bits(view.get_bits(1).unwrap()), 1.0);
    assert!(view.get_bits(2).is_none());

    let wrong = Attribute {
        name: AttributeName::Position,
        format: Format(Scalar::F32, Width::Scalar),
        offset: 0,
        buffer_index: 0,
    };
    assert!(engine::omni::F32OmniView::new(data.as_slice(), &wrong, 2, 8).is_none());
}

#[test]
fn wbg_resource_imports_as_asset() {
    let mut bytes: Vec<u8> = Vec::new();
    bytes.push(0); // version
    bytes.push(0); // no meshes
    let mut manager: ResourceManager<StaticLoader> = ResourceManager::new();
    manager.insert(
        "res",
        StaticLoader { mime: "application/x-ccp-wbg", bytes },
    );
    let loaded = manager.load("res:empty.wbg").unwrap();
    match &*loaded {
        Resource::Asset(a) => assert_eq!(a.objects.len(), 0),
        _ => panic!("expected an asset"),
    }
}

#[test]
fn ratio_vectors_from_normalized_attribute() {
    // A u8-normalized color column: values scale to [0, 1] by 255.
    let data: Vec<u8> = vec![0, 128, 255];
    let buffer = Buffer::new(None, None, data);
    let view = engine::buffer::BufferView::new(None, buffer, 0, 3);
    let uv = engine::untyped_view::UntypedView::new(
        &view,
        Format(Scalar::U8Normalized, Width::Scalar),
        0,
        1,
        3,
    )
    .unwrap();
    let expect = [0.0f32, 128.0 / 255.0, 1.0];
    for (i, e) in expect.iter().enumerate() {
        match uv.get_numerics(i).unwrap()[0] {
            Numeric::Ratio(n, d) => assert_eq!(n as f32 / d as f32, *e),
            _ => panic!("expected ratio"),
        }
    }
}
