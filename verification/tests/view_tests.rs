use engine::buffer::{Buffer, BufferView};
use engine::typed_view::{ScalarTypedView, TypedView};
use engine::untyped_view::{Numeric, ScalarUntypedView, UntypedView};
use engine::vertex::{Format, Scalar, Width};

#[test]
fn typed_view_test_scalar_index() {
    let buffer = Buffer::new(None, None, vec![0, 1, 2, 3, 4, 5, 6, 7]);
    let view = BufferView::new(None, buffer, 0, 8);
    let tv = ScalarTypedView::<u16>::new(None, &view, 2, 4, 2).unwrap();

    assert_eq!(tv.get(0), Some(0x0302));
    assert_eq!(tv.get(1), Some(0x0706));
}

#[test]
fn typed_view_test_index() {
    let buffer = Buffer::new(None, None, vec![0, 1, 2, 3, 4, 5, 6, 7, 8, 9]);
    let view = BufferView::new(None, buffer, 0, 10);
    let tv = TypedView::<u16>::new(None, &view, Width::Vector2, 2, 4, 2).unwrap();

    assert_eq!(tv.get(0), Some(vec![0x0302, 0x0504]));
    assert_eq!(tv.get(1), Some(vec![0x0706, 0x0908]));
}

#[test]
fn typed_view_rejects_misalignment() {
    let buffer = Buffer::new(None, None, vec![0, 1, 2, 3, 4, 5, 6, 7]);
    let view = BufferView::new(None, buffer, 0, 8);

    // Offset not a multiple of the element width.
    assert!(ScalarTypedView::<u16>::new(None, &view, 1, 4, 2).is_none());
    // Stride not a multiple of the element width.
    assert!(ScalarTypedView::<u16>::new(None, &view, 2, 3, 2).is_none());
    assert!(TypedView::<u32>::new(None, &view, Width::Scalar, 2, 4, 1).is_none());
}

#[test]
fn typed_view_get_is_strict() {
    let buffer = Buffer::new(None, None, vec![0, 1, 2, 3, 4, 5, 6, 7]);
    let view = BufferView::new(None, buffer, 0, 8);
    let tv = ScalarTypedView::<u16>::new(None, &view, 0, 2, 4).unwrap();

    assert_eq!(tv.get(3), Some(0x0706));
    assert_eq!(tv.get(4), None);
}

#[test]
fn typed_view_signed_decode() {
    let buffer = Buffer::new(None, None, vec![0xff, 0x80, 0x00, 0x7f]);
    let view = BufferView::new(None, buffer, 0, 4);
    let tv = ScalarTypedView::<i8>::new(None, &view, 0, 1, 4).unwrap();

    assert_eq!(tv.get(0), Some(-1));
    assert_eq!(tv.get(1), Some(-128));
    assert_eq!(tv.get(2), Some(0));
    assert_eq!(tv.get(3), Some(127));
}

#[test]
fn untyped_view_f32_vectors() {
    let mut data: Vec<u8> = Vec::new();
    for v in [1.0f32, 2.5f32, -3.0f32, 0.0f32] {
        data.extend_from_slice(&v.to_le_bytes());
    }
    let buffer = Buffer::new(None, None, data);
    let view = BufferView::new(None, buffer, 0, 16);
    let uv = UntypedView::new(&view, Format(Scalar::F32, Width::Vector2), 0, 8, 2).unwrap();

    assert_eq!(uv.len(), 2);
    let n = uv.get_numerics(0).unwrap();
    assert_eq!(n.len(), 2);
    match (n[0], n[1]) {
        (Numeric::Bits(a), Numeric::Bits(b)) => {
            assert_eq!(f32::from_bits(a), 1.0);
            assert_eq!(f32::from_bits(b), 2.5);
        }
        _ => panic!("expected float bit patterns"),
    }
    let n = uv.get_numerics(1).unwrap();
    match (n[0], n[1]) {
        (Numeric::Bits(a), Numeric::Bits(b)) => {
            assert_eq!(f32::from_bits(a), -3.0);
            assert_eq!(f32::from_bits(b), 0.0);
        }
        _ => panic!("expected float bit patterns"),
    }
    assert!(uv.get_numerics(2).is_none());
}

#[test]
fn untyped_scalar_view_u16() {
    let buffer = Buffer::new(None, None, vec![0, 1, 2, 3, 4, 5, 6, 7]);
    let view = BufferView::new(None, buffer, 0, 8);
    let tv = ScalarTypedView::<u16>::new(None, &view, 2, 4, 2).unwrap();
    let uv = ScalarUntypedView::U16(tv);

    assert_eq!(uv.len(), 2);
    match uv.get_numeric(0).unwrap() {
        Numeric::Ratio(n, d) => {
            assert_eq!(n, 0x0302);
            assert_eq!(d, 1);
        }
        _ => panic!("expected a ratio"),
    }
    assert_eq!(uv.get_usize(1), Some(0x0706));
}
