use engine::buffer::{Buffer, BufferView};
use engine::untyped_view::{Numeric, ScalarValue, UntypedView};
use engine::vertex::{Format, Scalar, Width};

fn ratio_to_f32(n: i64, d: u64) -> f32 {
    n as f32 / d as f32
}

#[test]
fn signed_normalized_min_clamps_to_minus_one() {
    // The most negative 8-bit value decodes to exactly -1.0, not below.
    match ScalarValue::I8Normalized(i8::MIN).to_numeric() {
        Numeric::Ratio(n, d) => {
            assert_eq!((n, d), (-127, 127));
            assert_eq!(ratio_to_f32(n, d), -1.0);
        }
        _ => panic!("expected a ratio"),
    }
    match ScalarValue::I8Normalized(-127).to_numeric() {
        Numeric::Ratio(n, d) => assert_eq!(ratio_to_f32(n, d), -1.0),
        _ => panic!("expected a ratio"),
    }
    match ScalarValue::I8Normalized(127).to_numeric() {
        Numeric::Ratio(n, d) => assert_eq!(ratio_to_f32(n, d), 1.0),
        _ => panic!("expected a ratio"),
    }
    match ScalarValue::I16Normalized(i16::MIN).to_numeric() {
        Numeric::Ratio(n, d) => {
            assert_eq!((n, d), (-32767, 32767));
            assert_eq!(ratio_to_f32(n, d), -1.0);
        }
        _ => panic!("expected a ratio"),
    }
}

#[test]
fn unsigned_normalized_scales_linearly() {
    match ScalarValue::U8Normalized(255).to_numeric() {
        Numeric::Ratio(n, d) => assert_eq!(ratio_to_f32(n, d), 1.0),
        _ => panic!("expected a ratio"),
    }
    match ScalarValue::U8Normalized(0).to_numeric() {
        Numeric::Ratio(n, d) => assert_eq!(ratio_to_f32(n, d), 0.0),
        _ => panic!("expected a ratio"),
    }
    match ScalarValue::U16Normalized(0xffff).to_numeric() {
        Numeric::Ratio(n, d) => assert_eq!(ratio_to_f32(n, d), 1.0),
        _ => panic!("expected a ratio"),
    }
}

#[test]
fn half_zero_decodes_to_zero() {
    // Bit pattern 0x0000 widens to single 0.0.
    let buffer = Buffer::new(None, None, vec![0x00, 0x00]);
    let view = BufferView::new(None, buffer, 0, 2);
    let uv = UntypedView::new(&view, Format(Scalar::F16, Width::Scalar), 0, 0, 1).unwrap();
    match uv.get_numerics(0).unwrap()[0] {
        Numeric::Bits(b) => assert_eq!(f32::from_bits(b), 0.0),
        _ => panic!("expected float bits"),
    }
}

#[test]
fn half_widening_is_exact_and_monotonic() {
    // A ladder of halves in increasing order; widening preserves values
    // exactly, so the singles are in the same order.
    let halves: [u16; 6] = [0xbc00, 0x8001, 0x0000, 0x0001, 0x3800, 0x3c00];
    let expect: [f32; 6] = [-1.0, -5.9604645e-8, 0.0, 5.9604645e-8, 0.5, 1.0];
    let mut last = f32::NEG_INFINITY;
    for (h, e) in halves.iter().zip(expect.iter()) {
        let bytes = h.to_le_bytes();
        let buffer = Buffer::new(None, None, vec![bytes[0], bytes[1]]);
        let view = BufferView::new(None, buffer, 0, 2);
        let uv = UntypedView::new(&view, Format(Scalar::F16, Width::Scalar), 0, 0, 1).unwrap();
        let got = match uv.get_numerics(0).unwrap()[0] {
            Numeric::Bits(b) => f32::from_bits(b),
            _ => panic!("expected float bits"),
        };
        assert_eq!(got, *e);
        assert!(got >= last);
        last = got;
    }
}

#[test]
fn to_usize_reads_unsigned_values() {
    assert_eq!(ScalarValue::U8(200).to_usize(), 200);
    assert_eq!(ScalarValue::U16(40000).to_usize(), 40000);
    assert_eq!(ScalarValue::U32(70000).to_usize(), 70000);
}

#[test]
fn format_byte_sizes() {
    assert_eq!(Scalar::U8.byte_size(), 1);
    assert_eq!(Scalar::F16.byte_size(), 2);
    assert_eq!(Scalar::F32.byte_size(), 4);
    assert_eq!(Format(Scalar::F32, Width::Vector3).byte_size(), 12);
    assert_eq!(Format(Scalar::I16, Width::Matrix3x3).byte_size(), 18);
    assert_eq!(Width::from_integer(9), Some(Width::Matrix3x3));
    assert_eq!(Width::from_integer(5), None);
    assert_eq!(Format(Scalar::U8Normalized, Width::Vector4).elements(), 4);
}
