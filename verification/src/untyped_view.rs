//! Format-erased element access: a closed tagged union over the typed-view
//! instantiations, one per scalar encoding, and the conversion of every
//! encoding to a common numeric representation.
//!
//! Float values are carried as IEEE 754 bit patterns and integer values as
//! exact rationals, so the conversion rules — half widening, linear scaling
//! of normalized integers, and the clamp of the asymmetric signed range —
//! are stated and checked exactly.

use crate::buffer::BufferView;
use crate::half::{half_to_single_bits, spec_half_to_single};
use crate::typed_view::{ScalarTypedView, TypedView};
use crate::vertex::{spec_scalar_byte_size, spec_width_elements, Format, Scalar, Width};
use std::sync::Arc;
use vstd::prelude::*;

verus! {

/// One element value still carrying its original encoding.  Float encodings
/// hold their IEEE 754 bit patterns.
#[derive(Debug, PartialEq, Eq, Structural, Clone, Copy)]
pub enum ScalarValue {
    F16(u16),
    F32(u32),
    U8(u8),
    U16(u16),
    U32(u32),
    U8Normalized(u8),
    U16Normalized(u16),
    U32Normalized(u32),
    I8(i8),
    I16(i16),
    I32(i32),
    I8Normalized(i8),
    I16Normalized(i16),
    I32Normalized(i32),
}

/// The common numeric representation every encoding converts to: either an
/// IEEE 754 single bit pattern, or an exact rational `num / den`.
#[derive(Debug, PartialEq, Eq, Structural, Clone, Copy)]
pub enum Numeric {
    Bits(u32),
    Ratio(i64, u64),
}

/// The numeric meaning of a scalar value: floats pass through as bit
/// patterns (halves widened exactly), plain integers become `n / 1`,
/// unsigned normalized integers scale to `[0, 1]` by their type's maximum,
/// and signed normalized integers divide by the maximum positive value with
/// the most negative value clamped to exactly -1.
pub open spec fn spec_to_numeric(v: ScalarValue) -> Numeric {
    match v {
        ScalarValue::F16(b) => Numeric::Bits(spec_half_to_single(b)),
        ScalarValue::F32(b) => Numeric::Bits(b),
        ScalarValue::U8(x) => Numeric::Ratio(x as i64, 1),
        ScalarValue::U16(x) => Numeric::Ratio(x as i64, 1),
        ScalarValue::U32(x) => Numeric::Ratio(x as i64, 1),
        ScalarValue::U8Normalized(x) => Numeric::Ratio(x as i64, 0xff),
        ScalarValue::U16Normalized(x) => Numeric::Ratio(x as i64, 0xffff),
        ScalarValue::U32Normalized(x) => Numeric::Ratio(x as i64, 0xffff_ffff),
        ScalarValue::I8(x) => Numeric::Ratio(x as i64, 1),
        ScalarValue::I16(x) => Numeric::Ratio(x as i64, 1),
        ScalarValue::I32(x) => Numeric::Ratio(x as i64, 1),
        ScalarValue::I8Normalized(x) => Numeric::Ratio(
            if (x as i64) < -0x7f {
                -0x7fi64
            } else {
                x as i64
            },
            0x7f,
        ),
        ScalarValue::I16Normalized(x) => Numeric::Ratio(
            if (x as i64) < -0x7fff {
                -0x7fffi64
            } else {
                x as i64
            },
            0x7fff,
        ),
        ScalarValue::I32Normalized(x) => Numeric::Ratio(
            if (x as i64) < -0x7fff_ffff {
                -0x7fff_ffffi64
            } else {
                x as i64
            },
            0x7fff_ffff,
        ),
    }
}

/// The integer value of an unsigned, non-normalized scalar; zero elsewhere.
pub open spec fn spec_usize_value(v: ScalarValue) -> nat {
    match v {
        ScalarValue::U8(x) => x as nat,
        ScalarValue::U16(x) => x as nat,
        ScalarValue::U32(x) => x as nat,
        _ => 0,
    }
}

impl ScalarValue {
    /// Converts to the common numeric representation.
    pub fn to_numeric(&self) -> (r: Numeric)
        ensures
            r == spec_to_numeric(*self),
    {
        match *self {
            ScalarValue::F16(b) => Numeric::Bits(half_to_single_bits(b)),
            ScalarValue::F32(b) => Numeric::Bits(b),
            ScalarValue::U8(x) => Numeric::Ratio(x as i64, 1),
            ScalarValue::U16(x) => Numeric::Ratio(x as i64, 1),
            ScalarValue::U32(x) => Numeric::Ratio(x as i64, 1),
            ScalarValue::U8Normalized(x) => Numeric::Ratio(x as i64, 0xff),
            ScalarValue::U16Normalized(x) => Numeric::Ratio(x as i64, 0xffff),
            ScalarValue::U32Normalized(x) => Numeric::Ratio(x as i64, 0xffff_ffff),
            ScalarValue::I8(x) => Numeric::Ratio(x as i64, 1),
            ScalarValue::I16(x) => Numeric::Ratio(x as i64, 1),
            ScalarValue::I32(x) => Numeric::Ratio(x as i64, 1),
            ScalarValue::I8Normalized(x) => {
                let n: i64 = x as i64;
                Numeric::Ratio(
                    if n < -0x7f {
                        -0x7f
                    } else {
                        n
                    },
                    0x7f,
                )
            },
            ScalarValue::I16Normalized(x) => {
                let n: i64 = x as i64;
                Numeric::Ratio(
                    if n < -0x7fff {
                        -0x7fff
                    } else {
                        n
                    },
                    0x7fff,
                )
            },
            ScalarValue::I32Normalized(x) => {
                let n: i64 = x as i64;
                Numeric::Ratio(
                    if n < -0x7fff_ffff {
                        -0x7fff_ffff
                    } else {
                        n
                    },
                    0x7fff_ffff,
                )
            },
        }
    }

    /// The value as an index.  Defined only for the unsigned, non-normalized
    /// encodings, the one narrow operation index decoding uses; every other
    /// tag is a programming error and is ruled out up front.
    pub fn to_usize(&self) -> (r: usize)
        requires
            self is U8 || self is U16 || self is U32,
        ensures
            r == spec_usize_value(*self),
    {
        match *self {
            ScalarValue::U8(x) => x as usize,
            ScalarValue::U16(x) => x as usize,
            ScalarValue::U32(x) => x as usize,
            _ => 0,
        }
    }
}

/// Signed-normalized decode never falls below -1: the rational a signed
/// normalized value converts to has `num >= -den`, for every input value.
pub proof fn lemma_signed_normalized_lower_bound(v: ScalarValue)
    requires
        v is I8Normalized || v is I16Normalized || v is I32Normalized,
    ensures
        spec_to_numeric(v) matches Numeric::Ratio(num, den) && num >= -(den as int) && den > 0,
{
}

/// The most negative 8-bit signed normalized value decodes to exactly -1:
/// its rational is `-127 / 127`, clamped, not rescaled.
pub proof fn lemma_i8_normalized_min_exactly_minus_one()
    ensures
        spec_to_numeric(ScalarValue::I8Normalized(i8::MIN)) == Numeric::Ratio(-0x7fi64, 0x7fu64),
{
}

/// A typed view per scalar encoding, behind one format-erased tag.
#[derive(Debug)]
pub enum ScalarUntypedView {
    F16(ScalarTypedView<u16>),
    F32(ScalarTypedView<u32>),
    U8(ScalarTypedView<u8>),
    U16(ScalarTypedView<u16>),
    U32(ScalarTypedView<u32>),
    U8Normalized(ScalarTypedView<u8>),
    U16Normalized(ScalarTypedView<u16>),
    U32Normalized(ScalarTypedView<u32>),
    I8(ScalarTypedView<i8>),
    I16(ScalarTypedView<i16>),
    I32(ScalarTypedView<i32>),
    I8Normalized(ScalarTypedView<i8>),
    I16Normalized(ScalarTypedView<i16>),
    I32Normalized(ScalarTypedView<i32>),
}

impl ScalarUntypedView {
    /// The wrapped typed view is well formed.
    pub open spec fn wf(&self) -> bool {
        match self {
            ScalarUntypedView::F16(x) => x.wf(),
            ScalarUntypedView::F32(x) => x.wf(),
            ScalarUntypedView::U8(x) => x.wf(),
            ScalarUntypedView::U16(x) => x.wf(),
            ScalarUntypedView::U32(x) => x.wf(),
            ScalarUntypedView::U8Normalized(x) => x.wf(),
            ScalarUntypedView::U16Normalized(x) => x.wf(),
            ScalarUntypedView::U32Normalized(x) => x.wf(),
            ScalarUntypedView::I8(x) => x.wf(),
            ScalarUntypedView::I16(x) => x.wf(),
            ScalarUntypedView::I32(x) => x.wf(),
            ScalarUntypedView::I8Normalized(x) => x.wf(),
            ScalarUntypedView::I16Normalized(x) => x.wf(),
            ScalarUntypedView::I32Normalized(x) => x.wf(),
        }
    }

    /// Declared logical length of the wrapped view.
    pub open spec fn spec_len(&self) -> nat {
        match self {
            ScalarUntypedView::F16(x) => x.length as nat,
            ScalarUntypedView::F32(x) => x.length as nat,
            ScalarUntypedView::U8(x) => x.length as nat,
            ScalarUntypedView::U16(x) => x.length as nat,
            ScalarUntypedView::U32(x) => x.length as nat,
            ScalarUntypedView::U8Normalized(x) => x.length as nat,
            ScalarUntypedView::U16Normalized(x) => x.length as nat,
            ScalarUntypedView::U32Normalized(x) => x.length as nat,
            ScalarUntypedView::I8(x) => x.length as nat,
            ScalarUntypedView::I16(x) => x.length as nat,
            ScalarUntypedView::I32(x) => x.length as nat,
            ScalarUntypedView::I8Normalized(x) => x.length as nat,
            ScalarUntypedView::I16Normalized(x) => x.length as nat,
            ScalarUntypedView::I32Normalized(x) => x.length as nat,
        }
    }

    /// The tagged element at logical index `i`, when it lies below the
    /// declared length and inside the byte window.
    pub open spec fn spec_get(&self, i: int) -> Option<ScalarValue> {
        match self {
            ScalarUntypedView::F16(x) => if i < x.length && x.in_bounds(i) {
                Some(ScalarValue::F16(x.spec_get(i)))
            } else {
                None
            },
            ScalarUntypedView::F32(x) => if i < x.length && x.in_bounds(i) {
                Some(ScalarValue::F32(x.spec_get(i)))
            } else {
                None
            },
            ScalarUntypedView::U8(x) => if i < x.length && x.in_bounds(i) {
                Some(ScalarValue::U8(x.spec_get(i)))
            } else {
                None
            },
            ScalarUntypedView::U16(x) => if i < x.length && x.in_bounds(i) {
                Some(ScalarValue::U16(x.spec_get(i)))
            } else {
                None
            },
            ScalarUntypedView::U32(x) => if i < x.length && x.in_bounds(i) {
                Some(ScalarValue::U32(x.spec_get(i)))
            } else {
                None
            },
            ScalarUntypedView::U8Normalized(x) => if i < x.length && x.in_bounds(i) {
                Some(ScalarValue::U8Normalized(x.spec_get(i)))
            } else {
                None
            },
            ScalarUntypedView::U16Normalized(x) => if i < x.length && x.in_bounds(i) {
                Some(ScalarValue::U16Normalized(x.spec_get(i)))
            } else {
                None
            },
            ScalarUntypedView::U32Normalized(x) => if i < x.length && x.in_bounds(i) {
                Some(ScalarValue::U32Normalized(x.spec_get(i)))
            } else {
                None
            },
            ScalarUntypedView::I8(x) => if i < x.length && x.in_bounds(i) {
                Some(ScalarValue::I8(x.spec_get(i)))
            } else {
                None
            },
            ScalarUntypedView::I16(x) => if i < x.length && x.in_bounds(i) {
                Some(ScalarValue::I16(x.spec_get(i)))
            } else {
                None
            },
            ScalarUntypedView::I32(x) => if i < x.length && x.in_bounds(i) {
                Some(ScalarValue::I32(x.spec_get(i)))
            } else {
                None
            },
            ScalarUntypedView::I8Normalized(x) => if i < x.length && x.in_bounds(i) {
                Some(ScalarValue::I8Normalized(x.spec_get(i)))
            } else {
                None
            },
            ScalarUntypedView::I16Normalized(x) => if i < x.length && x.in_bounds(i) {
                Some(ScalarValue::I16Normalized(x.spec_get(i)))
            } else {
                None
            },
            ScalarUntypedView::I32Normalized(x) => if i < x.length && x.in_bounds(i) {
                Some(ScalarValue::I32Normalized(x.spec_get(i)))
            } else {
                None
            },
        }
    }

    /// Declared logical length.
    pub fn len(&self) -> (n: usize)
        ensures
            n == self.spec_len(),
    {
        match self {
            ScalarUntypedView::F16(x) => x.len(),
            ScalarUntypedView::F32(x) => x.len(),
            ScalarUntypedView::U8(x) => x.len(),
            ScalarUntypedView::U16(x) => x.len(),
            ScalarUntypedView::U32(x) => x.len(),
            ScalarUntypedView::U8Normalized(x) => x.len(),
            ScalarUntypedView::U16Normalized(x) => x.len(),
            ScalarUntypedView::U32Normalized(x) => x.len(),
            ScalarUntypedView::I8(x) => x.len(),
            ScalarUntypedView::I16(x) => x.len(),
            ScalarUntypedView::I32(x) => x.len(),
            ScalarUntypedView::I8Normalized(x) => x.len(),
            ScalarUntypedView::I16Normalized(x) => x.len(),
            ScalarUntypedView::I32Normalized(x) => x.len(),
        }
    }

    /// The tagged element at logical index `i`, present exactly when the
    /// element lies below the declared length and inside the byte window.
    pub fn get_scalar_value(&self, i: usize) -> (r: Option<ScalarValue>)
        requires
            self.wf(),
        ensures
            r == self.spec_get(i as int),
    {
        match self {
            ScalarUntypedView::F16(x) => match x.get(i) {
                Some(v) => Some(ScalarValue::F16(v)),
                None => None,
            },
            ScalarUntypedView::F32(x) => match x.get(i) {
                Some(v) => Some(ScalarValue::F32(v)),
                None => None,
            },
            ScalarUntypedView::U8(x) => match x.get(i) {
                Some(v) => Some(ScalarValue::U8(v)),
                None => None,
            },
            ScalarUntypedView::U16(x) => match x.get(i) {
                Some(v) => Some(ScalarValue::U16(v)),
                None => None,
            },
            ScalarUntypedView::U32(x) => match x.get(i) {
                Some(v) => Some(ScalarValue::U32(v)),
                None => None,
            },
            ScalarUntypedView::U8Normalized(x) => match x.get(i) {
                Some(v) => Some(ScalarValue::U8Normalized(v)),
                None => None,
            },
            ScalarUntypedView::U16Normalized(x) => match x.get(i) {
                Some(v) => Some(ScalarValue::U16Normalized(v)),
                None => None,
            },
            ScalarUntypedView::U32Normalized(x) => match x.get(i) {
                Some(v) => Some(ScalarValue::U32Normalized(v)),
                None => None,
            },
            ScalarUntypedView::I8(x) => match x.get(i) {
                Some(v) => Some(ScalarValue::I8(v)),
                None => None,
            },
            ScalarUntypedView::I16(x) => match x.get(i) {
                Some(v) => Some(ScalarValue::I16(v)),
                None => None,
            },
            ScalarUntypedView::I32(x) => match x.get(i) {
                Some(v) => Some(ScalarValue::I32(v)),
                None => None,
            },
            ScalarUntypedView::I8Normalized(x) => match x.get(i) {
                Some(v) => Some(ScalarValue::I8Normalized(v)),
                None => None,
            },
            ScalarUntypedView::I16Normalized(x) => match x.get(i) {
                Some(v) => Some(ScalarValue::I16Normalized(v)),
                None => None,
            },
            ScalarUntypedView::I32Normalized(x) => match x.get(i) {
                Some(v) => Some(ScalarValue::I32Normalized(v)),
                None => None,
            },
        }
    }

    /// The element at `i` in the common numeric representation.
    pub fn get_numeric(&self, i: usize) -> (r: Option<Numeric>)
        requires
            self.wf(),
        ensures
            match self.spec_get(i as int) {
                Some(v) => r == Some(spec_to_numeric(v)),
                None => r is None,
            },
    {
        match self.get_scalar_value(i) {
            Some(v) => Some(v.to_numeric()),
            None => None,
        }
    }

    /// The element at `i` as an index.  Defined only for the unsigned,
    /// non-normalized tags, the path index decoding uses.
    pub fn get_usize(&self, i: usize) -> (r: Option<usize>)
        requires
            self.wf(),
            self is U8 || self is U16 || self is U32,
        ensures
            match self.spec_get(i as int) {
                Some(v) => r == Some(spec_usize_value(v) as usize),
                None => r is None,
            },
    {
        match self.get_scalar_value(i) {
            Some(v) => Some(v.to_usize()),
            None => None,
        }
    }
}




/// Whether a byte offset and stride satisfy the alignment invariant of a
/// scalar encoding: both must be multiples of the element size (a stride of
/// 0 stands for tight packing and is always aligned).
pub open spec fn spec_aligned(format: Format, offset: int, stride: int) -> bool {
    let size = spec_scalar_byte_size(format.0) as int;
    let stride_b = if stride == 0 {
        size
    } else {
        stride
    };
    stride_b % size == 0 && offset % size == 0
}

/// A group-access typed view per scalar encoding, behind one format-erased
/// tag: the closed set of `TypedView` instantiations.
#[derive(Debug)]
pub enum UntypedView {
    F16(TypedView<u16>),
    F32(TypedView<u32>),
    U8(TypedView<u8>),
    U16(TypedView<u16>),
    U32(TypedView<u32>),
    U8Normalized(TypedView<u8>),
    U16Normalized(TypedView<u16>),
    U32Normalized(TypedView<u32>),
    I8(TypedView<i8>),
    I16(TypedView<i16>),
    I32(TypedView<i32>),
    I8Normalized(TypedView<i8>),
    I16Normalized(TypedView<i16>),
    I32Normalized(TypedView<i32>),
}

impl UntypedView {
    /// The wrapped typed view is well formed.
    pub open spec fn wf(&self) -> bool {
        match self {
            UntypedView::F16(x) => x.wf(),
            UntypedView::F32(x) => x.wf(),
            UntypedView::U8(x) => x.wf(),
            UntypedView::U16(x) => x.wf(),
            UntypedView::U32(x) => x.wf(),
            UntypedView::U8Normalized(x) => x.wf(),
            UntypedView::U16Normalized(x) => x.wf(),
            UntypedView::U32Normalized(x) => x.wf(),
            UntypedView::I8(x) => x.wf(),
            UntypedView::I16(x) => x.wf(),
            UntypedView::I32(x) => x.wf(),
            UntypedView::I8Normalized(x) => x.wf(),
            UntypedView::I16Normalized(x) => x.wf(),
            UntypedView::I32Normalized(x) => x.wf(),
        }
    }

    /// The scalar encoding this view erases.
    pub open spec fn spec_scalar(&self) -> Scalar {
        match self {
            UntypedView::F16(x) => Scalar::F16,
            UntypedView::F32(x) => Scalar::F32,
            UntypedView::U8(x) => Scalar::U8,
            UntypedView::U16(x) => Scalar::U16,
            UntypedView::U32(x) => Scalar::U32,
            UntypedView::U8Normalized(x) => Scalar::U8Normalized,
            UntypedView::U16Normalized(x) => Scalar::U16Normalized,
            UntypedView::U32Normalized(x) => Scalar::U32Normalized,
            UntypedView::I8(x) => Scalar::I8,
            UntypedView::I16(x) => Scalar::I16,
            UntypedView::I32(x) => Scalar::I32,
            UntypedView::I8Normalized(x) => Scalar::I8Normalized,
            UntypedView::I16Normalized(x) => Scalar::I16Normalized,
            UntypedView::I32Normalized(x) => Scalar::I32Normalized,
        }
    }

    /// The element arity of one logical group.
    pub open spec fn spec_width(&self) -> Width {
        match self {
            UntypedView::F16(x) => x.width,
            UntypedView::F32(x) => x.width,
            UntypedView::U8(x) => x.width,
            UntypedView::U16(x) => x.width,
            UntypedView::U32(x) => x.width,
            UntypedView::U8Normalized(x) => x.width,
            UntypedView::U16Normalized(x) => x.width,
            UntypedView::U32Normalized(x) => x.width,
            UntypedView::I8(x) => x.width,
            UntypedView::I16(x) => x.width,
            UntypedView::I32(x) => x.width,
            UntypedView::I8Normalized(x) => x.width,
            UntypedView::I16Normalized(x) => x.width,
            UntypedView::I32Normalized(x) => x.width,
        }
    }

    /// Declared logical length of the wrapped view.
    pub open spec fn spec_len(&self) -> nat {
        match self {
            UntypedView::F16(x) => x.scalar_view.length as nat,
            UntypedView::F32(x) => x.scalar_view.length as nat,
            UntypedView::U8(x) => x.scalar_view.length as nat,
            UntypedView::U16(x) => x.scalar_view.length as nat,
            UntypedView::U32(x) => x.scalar_view.length as nat,
            UntypedView::U8Normalized(x) => x.scalar_view.length as nat,
            UntypedView::U16Normalized(x) => x.scalar_view.length as nat,
            UntypedView::U32Normalized(x) => x.scalar_view.length as nat,
            UntypedView::I8(x) => x.scalar_view.length as nat,
            UntypedView::I16(x) => x.scalar_view.length as nat,
            UntypedView::I32(x) => x.scalar_view.length as nat,
            UntypedView::I8Normalized(x) => x.scalar_view.length as nat,
            UntypedView::I16Normalized(x) => x.scalar_view.length as nat,
            UntypedView::I32Normalized(x) => x.scalar_view.length as nat,
        }
    }

    /// Element-unit offset of the wrapped view.
    pub open spec fn spec_offset(&self) -> nat {
        match self {
            UntypedView::F16(x) => x.scalar_view.offset as nat,
            UntypedView::F32(x) => x.scalar_view.offset as nat,
            UntypedView::U8(x) => x.scalar_view.offset as nat,
            UntypedView::U16(x) => x.scalar_view.offset as nat,
            UntypedView::U32(x) => x.scalar_view.offset as nat,
            UntypedView::U8Normalized(x) => x.scalar_view.offset as nat,
            UntypedView::U16Normalized(x) => x.scalar_view.offset as nat,
            UntypedView::U32Normalized(x) => x.scalar_view.offset as nat,
            UntypedView::I8(x) => x.scalar_view.offset as nat,
            UntypedView::I16(x) => x.scalar_view.offset as nat,
            UntypedView::I32(x) => x.scalar_view.offset as nat,
            UntypedView::I8Normalized(x) => x.scalar_view.offset as nat,
            UntypedView::I16Normalized(x) => x.scalar_view.offset as nat,
            UntypedView::I32Normalized(x) => x.scalar_view.offset as nat,
        }
    }

    /// Element-unit stride of the wrapped view.
    pub open spec fn spec_stride(&self) -> nat {
        match self {
            UntypedView::F16(x) => x.scalar_view.stride as nat,
            UntypedView::F32(x) => x.scalar_view.stride as nat,
            UntypedView::U8(x) => x.scalar_view.stride as nat,
            UntypedView::U16(x) => x.scalar_view.stride as nat,
            UntypedView::U32(x) => x.scalar_view.stride as nat,
            UntypedView::U8Normalized(x) => x.scalar_view.stride as nat,
            UntypedView::U16Normalized(x) => x.scalar_view.stride as nat,
            UntypedView::U32Normalized(x) => x.scalar_view.stride as nat,
            UntypedView::I8(x) => x.scalar_view.stride as nat,
            UntypedView::I16(x) => x.scalar_view.stride as nat,
            UntypedView::I32(x) => x.scalar_view.stride as nat,
            UntypedView::I8Normalized(x) => x.scalar_view.stride as nat,
            UntypedView::I16Normalized(x) => x.scalar_view.stride as nat,
            UntypedView::I32Normalized(x) => x.scalar_view.stride as nat,
        }
    }

    /// The byte window the wrapped view reads.
    pub open spec fn spec_view(&self) -> Seq<u8> {
        match self {
            UntypedView::F16(x) => x.scalar_view.view@,
            UntypedView::F32(x) => x.scalar_view.view@,
            UntypedView::U8(x) => x.scalar_view.view@,
            UntypedView::U16(x) => x.scalar_view.view@,
            UntypedView::U32(x) => x.scalar_view.view@,
            UntypedView::U8Normalized(x) => x.scalar_view.view@,
            UntypedView::U16Normalized(x) => x.scalar_view.view@,
            UntypedView::U32Normalized(x) => x.scalar_view.view@,
            UntypedView::I8(x) => x.scalar_view.view@,
            UntypedView::I16(x) => x.scalar_view.view@,
            UntypedView::I32(x) => x.scalar_view.view@,
            UntypedView::I8Normalized(x) => x.scalar_view.view@,
            UntypedView::I16Normalized(x) => x.scalar_view.view@,
            UntypedView::I32Normalized(x) => x.scalar_view.view@,
        }
    }

    /// True when the whole group at logical index `i` lies inside the byte
    /// window.
    pub open spec fn group_in_bounds(&self, i: int) -> bool {
        match self {
            UntypedView::F16(x) => x.group_in_bounds(i),
            UntypedView::F32(x) => x.group_in_bounds(i),
            UntypedView::U8(x) => x.group_in_bounds(i),
            UntypedView::U16(x) => x.group_in_bounds(i),
            UntypedView::U32(x) => x.group_in_bounds(i),
            UntypedView::U8Normalized(x) => x.group_in_bounds(i),
            UntypedView::U16Normalized(x) => x.group_in_bounds(i),
            UntypedView::U32Normalized(x) => x.group_in_bounds(i),
            UntypedView::I8(x) => x.group_in_bounds(i),
            UntypedView::I16(x) => x.group_in_bounds(i),
            UntypedView::I32(x) => x.group_in_bounds(i),
            UntypedView::I8Normalized(x) => x.group_in_bounds(i),
            UntypedView::I16Normalized(x) => x.group_in_bounds(i),
            UntypedView::I32Normalized(x) => x.group_in_bounds(i),
        }
    }

    /// Element `j` of the group at logical index `i`, tagged with its
    /// encoding.
    pub open spec fn spec_get_elem(&self, i: int, j: int) -> ScalarValue {
        match self {
            UntypedView::F16(x) => ScalarValue::F16(x.spec_get_elem(i, j)),
            UntypedView::F32(x) => ScalarValue::F32(x.spec_get_elem(i, j)),
            UntypedView::U8(x) => ScalarValue::U8(x.spec_get_elem(i, j)),
            UntypedView::U16(x) => ScalarValue::U16(x.spec_get_elem(i, j)),
            UntypedView::U32(x) => ScalarValue::U32(x.spec_get_elem(i, j)),
            UntypedView::U8Normalized(x) => ScalarValue::U8Normalized(x.spec_get_elem(i, j)),
            UntypedView::U16Normalized(x) => ScalarValue::U16Normalized(x.spec_get_elem(i, j)),
            UntypedView::U32Normalized(x) => ScalarValue::U32Normalized(x.spec_get_elem(i, j)),
            UntypedView::I8(x) => ScalarValue::I8(x.spec_get_elem(i, j)),
            UntypedView::I16(x) => ScalarValue::I16(x.spec_get_elem(i, j)),
            UntypedView::I32(x) => ScalarValue::I32(x.spec_get_elem(i, j)),
            UntypedView::I8Normalized(x) => ScalarValue::I8Normalized(x.spec_get_elem(i, j)),
            UntypedView::I16Normalized(x) => ScalarValue::I16Normalized(x.spec_get_elem(i, j)),
            UntypedView::I32Normalized(x) => ScalarValue::I32Normalized(x.spec_get_elem(i, j)),
        }
    }

    /// Switches on the scalar tag of `format` and instantiates the matching
    /// concrete typed view.  Construction succeeds exactly when `offset` and
    /// `stride` satisfy the encoding's alignment invariant.
    #[verifier::rlimit(100)]
    #[verifier::spinoff_prover]
    pub fn new(
        view: &Arc<BufferView>,
        format: Format,
        offset: usize,
        stride: usize,
        length: usize,
    ) -> (r: Option<UntypedView>)
        requires
            view.wf(),
        ensures
            r is Some <==> spec_aligned(format, offset as int, stride as int),
            r matches Some(u) ==> {
                let size = spec_scalar_byte_size(format.0) as int;
                let stride_b: int = if stride == 0 {
                    size
                } else {
                    stride as int
                };
                &&& u.wf()
                &&& u.spec_scalar() == format.0
                &&& u.spec_width() == format.1
                &&& u.spec_len() == length
                &&& u.spec_view() == view@
                &&& u.spec_offset() == offset as int / size
                &&& u.spec_stride() == stride_b / size
            },
    {
        match format {
            Format(Scalar::F16, width) => mk_f16(view, width, offset, stride, length),
            Format(Scalar::F32, width) => mk_f32(view, width, offset, stride, length),
            Format(Scalar::U8, width) => mk_u8(view, width, offset, stride, length),
            Format(Scalar::U16, width) => mk_u16(view, width, offset, stride, length),
            Format(Scalar::U32, width) => mk_u32(view, width, offset, stride, length),
            Format(Scalar::U8Normalized, width) => mk_u8normalized(view, width, offset, stride, length),
            Format(Scalar::U16Normalized, width) => mk_u16normalized(view, width, offset, stride, length),
            Format(Scalar::U32Normalized, width) => mk_u32normalized(view, width, offset, stride, length),
            Format(Scalar::I8, width) => mk_i8(view, width, offset, stride, length),
            Format(Scalar::I16, width) => mk_i16(view, width, offset, stride, length),
            Format(Scalar::I32, width) => mk_i32(view, width, offset, stride, length),
            Format(Scalar::I8Normalized, width) => mk_i8normalized(view, width, offset, stride, length),
            Format(Scalar::I16Normalized, width) => mk_i16normalized(view, width, offset, stride, length),
            Format(Scalar::I32Normalized, width) => mk_i32normalized(view, width, offset, stride, length),
        }
    }

    /// Declared logical length.
    pub fn len(&self) -> (n: usize)
        ensures
            n == self.spec_len(),
    {
        match self {
            UntypedView::F16(x) => x.len(),
            UntypedView::F32(x) => x.len(),
            UntypedView::U8(x) => x.len(),
            UntypedView::U16(x) => x.len(),
            UntypedView::U32(x) => x.len(),
            UntypedView::U8Normalized(x) => x.len(),
            UntypedView::U16Normalized(x) => x.len(),
            UntypedView::U32Normalized(x) => x.len(),
            UntypedView::I8(x) => x.len(),
            UntypedView::I16(x) => x.len(),
            UntypedView::I32(x) => x.len(),
            UntypedView::I8Normalized(x) => x.len(),
            UntypedView::I16Normalized(x) => x.len(),
            UntypedView::I32Normalized(x) => x.len(),
        }
    }


    /// The group at logical index `i` as tagged values, present exactly when
    /// the group lies below the declared length and inside the byte window.
    pub fn get_vector_value(&self, i: usize) -> (r: Option<Vec<ScalarValue>>)
        requires
            self.wf(),
        ensures
            (i < self.spec_len() && self.group_in_bounds(i as int)) ==> r is Some && {
                let v = r.unwrap();
                &&& v@.len() == spec_width_elements(self.spec_width())
                &&& forall|j: int|
                    0 <= j < v@.len() ==> v@[j] == self.spec_get_elem(i as int, j)
            },
            !(i < self.spec_len() && self.group_in_bounds(i as int)) ==> r is None,
    {
        match self {
            UntypedView::F16(x) => match x.get(i) {
                Some(raw) => Some(wrap_f16(raw)),
                None => None,
            },
            UntypedView::F32(x) => match x.get(i) {
                Some(raw) => Some(wrap_f32(raw)),
                None => None,
            },
            UntypedView::U8(x) => match x.get(i) {
                Some(raw) => Some(wrap_u8(raw)),
                None => None,
            },
            UntypedView::U16(x) => match x.get(i) {
                Some(raw) => Some(wrap_u16(raw)),
                None => None,
            },
            UntypedView::U32(x) => match x.get(i) {
                Some(raw) => Some(wrap_u32(raw)),
                None => None,
            },
            UntypedView::U8Normalized(x) => match x.get(i) {
                Some(raw) => Some(wrap_u8normalized(raw)),
                None => None,
            },
            UntypedView::U16Normalized(x) => match x.get(i) {
                Some(raw) => Some(wrap_u16normalized(raw)),
                None => None,
            },
            UntypedView::U32Normalized(x) => match x.get(i) {
                Some(raw) => Some(wrap_u32normalized(raw)),
                None => None,
            },
            UntypedView::I8(x) => match x.get(i) {
                Some(raw) => Some(wrap_i8(raw)),
                None => None,
            },
            UntypedView::I16(x) => match x.get(i) {
                Some(raw) => Some(wrap_i16(raw)),
                None => None,
            },
            UntypedView::I32(x) => match x.get(i) {
                Some(raw) => Some(wrap_i32(raw)),
                None => None,
            },
            UntypedView::I8Normalized(x) => match x.get(i) {
                Some(raw) => Some(wrap_i8normalized(raw)),
                None => None,
            },
            UntypedView::I16Normalized(x) => match x.get(i) {
                Some(raw) => Some(wrap_i16normalized(raw)),
                None => None,
            },
            UntypedView::I32Normalized(x) => match x.get(i) {
                Some(raw) => Some(wrap_i32normalized(raw)),
                None => None,
            },
        }
    }

    /// The group at logical index `i` in the common numeric representation.
    pub fn get_numerics(&self, i: usize) -> (r: Option<Vec<Numeric>>)
        requires
            self.wf(),
        ensures
            (i < self.spec_len() && self.group_in_bounds(i as int)) ==> r is Some && {
                let v = r.unwrap();
                &&& v@.len() == spec_width_elements(self.spec_width())
                &&& forall|j: int|
                    0 <= j < v@.len() ==> v@[j] == spec_to_numeric(
                        self.spec_get_elem(i as int, j),
                    )
            },
            !(i < self.spec_len() && self.group_in_bounds(i as int)) ==> r is None,
    {
        match self.get_vector_value(i) {
            Some(vals) => Some(numerics_of(vals)),
            None => None,
        }
    }
}


/// Tags each raw `u16` group element with its `F16` encoding.
fn wrap_f16(raw: Vec<u16>) -> (r: Vec<ScalarValue>)
    ensures
        r@.len() == raw@.len(),
        forall|j: int| 0 <= j < r@.len() ==> r@[j] == ScalarValue::F16(raw@[j]),
{
    let mut out: Vec<ScalarValue> = Vec::new();
    let mut j: usize = 0;
    let n = raw.len();
    while j < n
        invariant
            j <= n,
            n == raw@.len(),
            out@.len() == j,
            forall|k: int| 0 <= k < j ==> out@[k] == ScalarValue::F16(raw@[k]),
        decreases n - j,
    {
        out.push(ScalarValue::F16(raw[j]));
        j = j + 1;
    }
    out
}

/// Tags each raw `u32` group element with its `F32` encoding.
fn wrap_f32(raw: Vec<u32>) -> (r: Vec<ScalarValue>)
    ensures
        r@.len() == raw@.len(),
        forall|j: int| 0 <= j < r@.len() ==> r@[j] == ScalarValue::F32(raw@[j]),
{
    let mut out: Vec<ScalarValue> = Vec::new();
    let mut j: usize = 0;
    let n = raw.len();
    while j < n
        invariant
            j <= n,
            n == raw@.len(),
            out@.len() == j,
            forall|k: int| 0 <= k < j ==> out@[k] == ScalarValue::F32(raw@[k]),
        decreases n - j,
    {
        out.push(ScalarValue::F32(raw[j]));
        j = j + 1;
    }
    out
}

/// Tags each raw `u8` group element with its `U8` encoding.
fn wrap_u8(raw: Vec<u8>) -> (r: Vec<ScalarValue>)
    ensures
        r@.len() == raw@.len(),
        forall|j: int| 0 <= j < r@.len() ==> r@[j] == ScalarValue::U8(raw@[j]),
{
    let mut out: Vec<ScalarValue> = Vec::new();
    let mut j: usize = 0;
    let n = raw.len();
    while j < n
        invariant
            j <= n,
            n == raw@.len(),
            out@.len() == j,
            forall|k: int| 0 <= k < j ==> out@[k] == ScalarValue::U8(raw@[k]),
        decreases n - j,
    {
        out.push(ScalarValue::U8(raw[j]));
        j = j + 1;
    }
    out
}

/// Tags each raw `u16` group element with its `U16` encoding.
fn wrap_u16(raw: Vec<u16>) -> (r: Vec<ScalarValue>)
    ensures
        r@.len() == raw@.len(),
        forall|j: int| 0 <= j < r@.len() ==> r@[j] == ScalarValue::U16(raw@[j]),
{
    let mut out: Vec<ScalarValue> = Vec::new();
    let mut j: usize = 0;
    let n = raw.len();
    while j < n
        invariant
            j <= n,
            n == raw@.len(),
            out@.len() == j,
            forall|k: int| 0 <= k < j ==> out@[k] == ScalarValue::U16(raw@[k]),
        decreases n - j,
    {
        out.push(ScalarValue::U16(raw[j]));
        j = j + 1;
    }
    out
}

/// Tags each raw `u32` group element with its `U32` encoding.
fn wrap_u32(raw: Vec<u32>) -> (r: Vec<ScalarValue>)
    ensures
        r@.len() == raw@.len(),
        forall|j: int| 0 <= j < r@.len() ==> r@[j] == ScalarValue::U32(raw@[j]),
{
    let mut out: Vec<ScalarValue> = Vec::new();
    let mut j: usize = 0;
    let n = raw.len();
    while j < n
        invariant
            j <= n,
            n == raw@.len(),
            out@.len() == j,
            forall|k: int| 0 <= k < j ==> out@[k] == ScalarValue::U32(raw@[k]),
        decreases n - j,
    {
        out.push(ScalarValue::U32(raw[j]));
        j = j + 1;
    }
    out
}

/// Tags each raw `u8` group element with its `U8Normalized` encoding.
fn wrap_u8normalized(raw: Vec<u8>) -> (r: Vec<ScalarValue>)
    ensures
        r@.len() == raw@.len(),
        forall|j: int| 0 <= j < r@.len() ==> r@[j] == ScalarValue::U8Normalized(raw@[j]),
{
    let mut out: Vec<ScalarValue> = Vec::new();
    let mut j: usize = 0;
    let n = raw.len();
    while j < n
        invariant
            j <= n,
            n == raw@.len(),
            out@.len() == j,
            forall|k: int| 0 <= k < j ==> out@[k] == ScalarValue::U8Normalized(raw@[k]),
        decreases n - j,
    {
        out.push(ScalarValue::U8Normalized(raw[j]));
        j = j + 1;
    }
    out
}

/// Tags each raw `u16` group element with its `U16Normalized` encoding.
fn wrap_u16normalized(raw: Vec<u16>) -> (r: Vec<ScalarValue>)
    ensures
        r@.len() == raw@.len(),
        forall|j: int| 0 <= j < r@.len() ==> r@[j] == ScalarValue::U16Normalized(raw@[j]),
{
    let mut out: Vec<ScalarValue> = Vec::new();
    let mut j: usize = 0;
    let n = raw.len();
    while j < n
        invariant
            j <= n,
            n == raw@.len(),
            out@.len() == j,
            forall|k: int| 0 <= k < j ==> out@[k] == ScalarValue::U16Normalized(raw@[k]),
        decreases n - j,
    {
        out.push(ScalarValue::U16Normalized(raw[j]));
        j = j + 1;
    }
    out
}

/// Tags each raw `u32` group element with its `U32Normalized` encoding.
fn wrap_u32normalized(raw: Vec<u32>) -> (r: Vec<ScalarValue>)
    ensures
        r@.len() == raw@.len(),
        forall|j: int| 0 <= j < r@.len() ==> r@[j] == ScalarValue::U32Normalized(raw@[j]),
{
    let mut out: Vec<ScalarValue> = Vec::new();
    let mut j: usize = 0;
    let n = raw.len();
    while j < n
        invariant
            j <= n,
            n == raw@.len(),
            out@.len() == j,
            forall|k: int| 0 <= k < j ==> out@[k] == ScalarValue::U32Normalized(raw@[k]),
        decreases n - j,
    {
        out.push(ScalarValue::U32Normalized(raw[j]));
        j = j + 1;
    }
    out
}

/// Tags each raw `i8` group element with its `I8` encoding.
fn wrap_i8(raw: Vec<i8>) -> (r: Vec<ScalarValue>)
    ensures
        r@.len() == raw@.len(),
        forall|j: int| 0 <= j < r@.len() ==> r@[j] == ScalarValue::I8(raw@[j]),
{
    let mut out: Vec<ScalarValue> = Vec::new();
    let mut j: usize = 0;
    let n = raw.len();
    while j < n
        invariant
            j <= n,
            n == raw@.len(),
            out@.len() == j,
            forall|k: int| 0 <= k < j ==> out@[k] == ScalarValue::I8(raw@[k]),
        decreases n - j,
    {
        out.push(ScalarValue::I8(raw[j]));
        j = j + 1;
    }
    out
}

/// Tags each raw `i16` group element with its `I16` encoding.
fn wrap_i16(raw: Vec<i16>) -> (r: Vec<ScalarValue>)
    ensures
        r@.len() == raw@.len(),
        forall|j: int| 0 <= j < r@.len() ==> r@[j] == ScalarValue::I16(raw@[j]),
{
    let mut out: Vec<ScalarValue> = Vec::new();
    let mut j: usize = 0;
    let n = raw.len();
    while j < n
        invariant
            j <= n,
            n == raw@.len(),
            out@.len() == j,
            forall|k: int| 0 <= k < j ==> out@[k] == ScalarValue::I16(raw@[k]),
        decreases n - j,
    {
        out.push(ScalarValue::I16(raw[j]));
        j = j + 1;
    }
    out
}

/// Tags each raw `i32` group element with its `I32` encoding.
fn wrap_i32(raw: Vec<i32>) -> (r: Vec<ScalarValue>)
    ensures
        r@.len() == raw@.len(),
        forall|j: int| 0 <= j < r@.len() ==> r@[j] == ScalarValue::I32(raw@[j]),
{
    let mut out: Vec<ScalarValue> = Vec::new();
    let mut j: usize = 0;
    let n = raw.len();
    while j < n
        invariant
            j <= n,
            n == raw@.len(),
            out@.len() == j,
            forall|k: int| 0 <= k < j ==> out@[k] == ScalarValue::I32(raw@[k]),
        decreases n - j,
    {
        out.push(ScalarValue::I32(raw[j]));
        j = j + 1;
    }
    out
}

/// Tags each raw `i8` group element with its `I8Normalized` encoding.
fn wrap_i8normalized(raw: Vec<i8>) -> (r: Vec<ScalarValue>)
    ensures
        r@.len() == raw@.len(),
        forall|j: int| 0 <= j < r@.len() ==> r@[j] == ScalarValue::I8Normalized(raw@[j]),
{
    let mut out: Vec<ScalarValue> = Vec::new();
    let mut j: usize = 0;
    let n = raw.len();
    while j < n
        invariant
            j <= n,
            n == raw@.len(),
            out@.len() == j,
            forall|k: int| 0 <= k < j ==> out@[k] == ScalarValue::I8Normalized(raw@[k]),
        decreases n - j,
    {
        out.push(ScalarValue::I8Normalized(raw[j]));
        j = j + 1;
    }
    out
}

/// Tags each raw `i16` group element with its `I16Normalized` encoding.
fn wrap_i16normalized(raw: Vec<i16>) -> (r: Vec<ScalarValue>)
    ensures
        r@.len() == raw@.len(),
        forall|j: int| 0 <= j < r@.len() ==> r@[j] == ScalarValue::I16Normalized(raw@[j]),
{
    let mut out: Vec<ScalarValue> = Vec::new();
    let mut j: usize = 0;
    let n = raw.len();
    while j < n
        invariant
            j <= n,
            n == raw@.len(),
            out@.len() == j,
            forall|k: int| 0 <= k < j ==> out@[k] == ScalarValue::I16Normalized(raw@[k]),
        decreases n - j,
    {
        out.push(ScalarValue::I16Normalized(raw[j]));
        j = j + 1;
    }
    out
}

/// Tags each raw `i32` group element with its `I32Normalized` encoding.
fn wrap_i32normalized(raw: Vec<i32>) -> (r: Vec<ScalarValue>)
    ensures
        r@.len() == raw@.len(),
        forall|j: int| 0 <= j < r@.len() ==> r@[j] == ScalarValue::I32Normalized(raw@[j]),
{
    let mut out: Vec<ScalarValue> = Vec::new();
    let mut j: usize = 0;
    let n = raw.len();
    while j < n
        invariant
            j <= n,
            n == raw@.len(),
            out@.len() == j,
            forall|k: int| 0 <= k < j ==> out@[k] == ScalarValue::I32Normalized(raw@[k]),
        decreases n - j,
    {
        out.push(ScalarValue::I32Normalized(raw[j]));
        j = j + 1;
    }
    out
}


/// Builds the `F16` instantiation; alignment rules are those of `u16`.
fn mk_f16(
    view: &Arc<BufferView>,
    width: Width,
    offset: usize,
    stride: usize,
    length: usize,
) -> (r: Option<UntypedView>)
    requires
        view.wf(),
    ensures
        r is Some <==> spec_aligned(
            Format(Scalar::F16, width),
            offset as int,
            stride as int,
        ),
        r matches Some(u) ==> {
            let size = spec_scalar_byte_size(Scalar::F16) as int;
            let stride_b: int = if stride == 0 {
                size
            } else {
                stride as int
            };
            &&& u.wf()
            &&& u.spec_scalar() == Scalar::F16
            &&& u.spec_width() == width
            &&& u.spec_len() == length
            &&& u.spec_view() == view@
            &&& u.spec_offset() == offset as int / size
            &&& u.spec_stride() == stride_b / size
        },
{
    match TypedView::<u16>::new(None, view, width, offset, stride, length) {
        Some(x) => Some(UntypedView::F16(x)),
        None => None,
    }
}

/// Builds the `F32` instantiation; alignment rules are those of `u32`.
fn mk_f32(
    view: &Arc<BufferView>,
    width: Width,
    offset: usize,
    stride: usize,
    length: usize,
) -> (r: Option<UntypedView>)
    requires
        view.wf(),
    ensures
        r is Some <==> spec_aligned(
            Format(Scalar::F32, width),
            offset as int,
            stride as int,
        ),
        r matches Some(u) ==> {
            let size = spec_scalar_byte_size(Scalar::F32) as int;
            let stride_b: int = if stride == 0 {
                size
            } else {
                stride as int
            };
            &&& u.wf()
            &&& u.spec_scalar() == Scalar::F32
            &&& u.spec_width() == width
            &&& u.spec_len() == length
            &&& u.spec_view() == view@
            &&& u.spec_offset() == offset as int / size
            &&& u.spec_stride() == stride_b / size
        },
{
    match TypedView::<u32>::new(None, view, width, offset, stride, length) {
        Some(x) => Some(UntypedView::F32(x)),
        None => None,
    }
}

/// Builds the `U8` instantiation; alignment rules are those of `u8`.
fn mk_u8(
    view: &Arc<BufferView>,
    width: Width,
    offset: usize,
    stride: usize,
    length: usize,
) -> (r: Option<UntypedView>)
    requires
        view.wf(),
    ensures
        r is Some <==> spec_aligned(
            Format(Scalar::U8, width),
            offset as int,
            stride as int,
        ),
        r matches Some(u) ==> {
            let size = spec_scalar_byte_size(Scalar::U8) as int;
            let stride_b: int = if stride == 0 {
                size
            } else {
                stride as int
            };
            &&& u.wf()
            &&& u.spec_scalar() == Scalar::U8
            &&& u.spec_width() == width
            &&& u.spec_len() == length
            &&& u.spec_view() == view@
            &&& u.spec_offset() == offset as int / size
            &&& u.spec_stride() == stride_b / size
        },
{
    match TypedView::<u8>::new(None, view, width, offset, stride, length) {
        Some(x) => Some(UntypedView::U8(x)),
        None => None,
    }
}

/// Builds the `U16` instantiation; alignment rules are those of `u16`.
fn mk_u16(
    view: &Arc<BufferView>,
    width: Width,
    offset: usize,
    stride: usize,
    length: usize,
) -> (r: Option<UntypedView>)
    requires
        view.wf(),
    ensures
        r is Some <==> spec_aligned(
            Format(Scalar::U16, width),
            offset as int,
            stride as int,
        ),
        r matches Some(u) ==> {
            let size = spec_scalar_byte_size(Scalar::U16) as int;
            let stride_b: int = if stride == 0 {
                size
            } else {
                stride as int
            };
            &&& u.wf()
            &&& u.spec_scalar() == Scalar::U16
            &&& u.spec_width() == width
            &&& u.spec_len() == length
            &&& u.spec_view() == view@
            &&& u.spec_offset() == offset as int / size
            &&& u.spec_stride() == stride_b / size
        },
{
    match TypedView::<u16>::new(None, view, width, offset, stride, length) {
        Some(x) => Some(UntypedView::U16(x)),
        None => None,
    }
}

/// Builds the `U32` instantiation; alignment rules are those of `u32`.
fn mk_u32(
    view: &Arc<BufferView>,
    width: Width,
    offset: usize,
    stride: usize,
    length: usize,
) -> (r: Option<UntypedView>)
    requires
        view.wf(),
    ensures
        r is Some <==> spec_aligned(
            Format(Scalar::U32, width),
            offset as int,
            stride as int,
        ),
        r matches Some(u) ==> {
            let size = spec_scalar_byte_size(Scalar::U32) as int;
            let stride_b: int = if stride == 0 {
                size
            } else {
                stride as int
            };
            &&& u.wf()
            &&& u.spec_scalar() == Scalar::U32
            &&& u.spec_width() == width
            &&& u.spec_len() == length
            &&& u.spec_view() == view@
            &&& u.spec_offset() == offset as int / size
            &&& u.spec_stride() == stride_b / size
        },
{
    match TypedView::<u32>::new(None, view, width, offset, stride, length) {
        Some(x) => Some(UntypedView::U32(x)),
        None => None,
    }
}

/// Builds the `U8Normalized` instantiation; alignment rules are those of `u8`.
fn mk_u8normalized(
    view: &Arc<BufferView>,
    width: Width,
    offset: usize,
    stride: usize,
    length: usize,
) -> (r: Option<UntypedView>)
    requires
        view.wf(),
    ensures
        r is Some <==> spec_aligned(
            Format(Scalar::U8Normalized, width),
            offset as int,
            stride as int,
        ),
        r matches Some(u) ==> {
            let size = spec_scalar_byte_size(Scalar::U8Normalized) as int;
            let stride_b: int = if stride == 0 {
                size
            } else {
                stride as int
            };
            &&& u.wf()
            &&& u.spec_scalar() == Scalar::U8Normalized
            &&& u.spec_width() == width
            &&& u.spec_len() == length
            &&& u.spec_view() == view@
            &&& u.spec_offset() == offset as int / size
            &&& u.spec_stride() == stride_b / size
        },
{
    match TypedView::<u8>::new(None, view, width, offset, stride, length) {
        Some(x) => Some(UntypedView::U8Normalized(x)),
        None => None,
    }
}

/// Builds the `U16Normalized` instantiation; alignment rules are those of `u16`.
fn mk_u16normalized(
    view: &Arc<BufferView>,
    width: Width,
    offset: usize,
    stride: usize,
    length: usize,
) -> (r: Option<UntypedView>)
    requires
        view.wf(),
    ensures
        r is Some <==> spec_aligned(
            Format(Scalar::U16Normalized, width),
            offset as int,
            stride as int,
        ),
        r matches Some(u) ==> {
            let size = spec_scalar_byte_size(Scalar::U16Normalized) as int;
            let stride_b: int = if stride == 0 {
                size
            } else {
                stride as int
            };
            &&& u.wf()
            &&& u.spec_scalar() == Scalar::U16Normalized
            &&& u.spec_width() == width
            &&& u.spec_len() == length
            &&& u.spec_view() == view@
            &&& u.spec_offset() == offset as int / size
            &&& u.spec_stride() == stride_b / size
        },
{
    match TypedView::<u16>::new(None, view, width, offset, stride, length) {
        Some(x) => Some(UntypedView::U16Normalized(x)),
        None => None,
    }
}

/// Builds the `U32Normalized` instantiation; alignment rules are those of `u32`.
fn mk_u32normalized(
    view: &Arc<BufferView>,
    width: Width,
    offset: usize,
    stride: usize,
    length: usize,
) -> (r: Option<UntypedView>)
    requires
        view.wf(),
    ensures
        r is Some <==> spec_aligned(
            Format(Scalar::U32Normalized, width),
            offset as int,
            stride as int,
        ),
        r matches Some(u) ==> {
            let size = spec_scalar_byte_size(Scalar::U32Normalized) as int;
            let stride_b: int = if stride == 0 {
                size
            } else {
                stride as int
            };
            &&& u.wf()
            &&& u.spec_scalar() == Scalar::U32Normalized
            &&& u.spec_width() == width
            &&& u.spec_len() == length
            &&& u.spec_view() == view@
            &&& u.spec_offset() == offset as int / size
            &&& u.spec_stride() == stride_b / size
        },
{
    match TypedView::<u32>::new(None, view, width, offset, stride, length) {
        Some(x) => Some(UntypedView::U32Normalized(x)),
        None => None,
    }
}

/// Builds the `I8` instantiation; alignment rules are those of `i8`.
fn mk_i8(
    view: &Arc<BufferView>,
    width: Width,
    offset: usize,
    stride: usize,
    length: usize,
) -> (r: Option<UntypedView>)
    requires
        view.wf(),
    ensures
        r is Some <==> spec_aligned(
            Format(Scalar::I8, width),
            offset as int,
            stride as int,
        ),
        r matches Some(u) ==> {
            let size = spec_scalar_byte_size(Scalar::I8) as int;
            let stride_b: int = if stride == 0 {
                size
            } else {
                stride as int
            };
            &&& u.wf()
            &&& u.spec_scalar() == Scalar::I8
            &&& u.spec_width() == width
            &&& u.spec_len() == length
            &&& u.spec_view() == view@
            &&& u.spec_offset() == offset as int / size
            &&& u.spec_stride() == stride_b / size
        },
{
    match TypedView::<i8>::new(None, view, width, offset, stride, length) {
        Some(x) => Some(UntypedView::I8(x)),
        None => None,
    }
}

/// Builds the `I16` instantiation; alignment rules are those of `i16`.
fn mk_i16(
    view: &Arc<BufferView>,
    width: Width,
    offset: usize,
    stride: usize,
    length: usize,
) -> (r: Option<UntypedView>)
    requires
        view.wf(),
    ensures
        r is Some <==> spec_aligned(
            Format(Scalar::I16, width),
            offset as int,
            stride as int,
        ),
        r matches Some(u) ==> {
            let size = spec_scalar_byte_size(Scalar::I16) as int;
            let stride_b: int = if stride == 0 {
                size
            } else {
                stride as int
            };
            &&& u.wf()
            &&& u.spec_scalar() == Scalar::I16
            &&& u.spec_width() == width
            &&& u.spec_len() == length
            &&& u.spec_view() == view@
            &&& u.spec_offset() == offset as int / size
            &&& u.spec_stride() == stride_b / size
        },
{
    match TypedView::<i16>::new(None, view, width, offset, stride, length) {
        Some(x) => Some(UntypedView::I16(x)),
        None => None,
    }
}

/// Builds the `I32` instantiation; alignment rules are those of `i32`.
fn mk_i32(
    view: &Arc<BufferView>,
    width: Width,
    offset: usize,
    stride: usize,
    length: usize,
) -> (r: Option<UntypedView>)
    requires
        view.wf(),
    ensures
        r is Some <==> spec_aligned(
            Format(Scalar::I32, width),
            offset as int,
            stride as int,
        ),
        r matches Some(u) ==> {
            let size = spec_scalar_byte_size(Scalar::I32) as int;
            let stride_b: int = if stride == 0 {
                size
            } else {
                stride as int
            };
            &&& u.wf()
            &&& u.spec_scalar() == Scalar::I32
            &&& u.spec_width() == width
            &&& u.spec_len() == length
            &&& u.spec_view() == view@
            &&& u.spec_offset() == offset as int / size
            &&& u.spec_stride() == stride_b / size
        },
{
    match TypedView::<i32>::new(None, view, width, offset, stride, length) {
        Some(x) => Some(UntypedView::I32(x)),
        None => None,
    }
}

/// Builds the `I8Normalized` instantiation; alignment rules are those of `i8`.
fn mk_i8normalized(
    view: &Arc<BufferView>,
    width: Width,
    offset: usize,
    stride: usize,
    length: usize,
) -> (r: Option<UntypedView>)
    requires
        view.wf(),
    ensures
        r is Some <==> spec_aligned(
            Format(Scalar::I8Normalized, width),
            offset as int,
            stride as int,
        ),
        r matches Some(u) ==> {
            let size = spec_scalar_byte_size(Scalar::I8Normalized) as int;
            let stride_b: int = if stride == 0 {
                size
            } else {
                stride as int
            };
            &&& u.wf()
            &&& u.spec_scalar() == Scalar::I8Normalized
            &&& u.spec_width() == width
            &&& u.spec_len() == length
            &&& u.spec_view() == view@
            &&& u.spec_offset() == offset as int / size
            &&& u.spec_stride() == stride_b / size
        },
{
    match TypedView::<i8>::new(None, view, width, offset, stride, length) {
        Some(x) => Some(UntypedView::I8Normalized(x)),
        None => None,
    }
}

/// Builds the `I16Normalized` instantiation; alignment rules are those of `i16`.
fn mk_i16normalized(
    view: &Arc<BufferView>,
    width: Width,
    offset: usize,
    stride: usize,
    length: usize,
) -> (r: Option<UntypedView>)
    requires
        view.wf(),
    ensures
        r is Some <==> spec_aligned(
            Format(Scalar::I16Normalized, width),
            offset as int,
            stride as int,
        ),
        r matches Some(u) ==> {
            let size = spec_scalar_byte_size(Scalar::I16Normalized) as int;
            let stride_b: int = if stride == 0 {
                size
            } else {
                stride as int
            };
            &&& u.wf()
            &&& u.spec_scalar() == Scalar::I16Normalized
            &&& u.spec_width() == width
            &&& u.spec_len() == length
            &&& u.spec_view() == view@
            &&& u.spec_offset() == offset as int / size
            &&& u.spec_stride() == stride_b / size
        },
{
    match TypedView::<i16>::new(None, view, width, offset, stride, length) {
        Some(x) => Some(UntypedView::I16Normalized(x)),
        None => None,
    }
}

/// Builds the `I32Normalized` instantiation; alignment rules are those of `i32`.
fn mk_i32normalized(
    view: &Arc<BufferView>,
    width: Width,
    offset: usize,
    stride: usize,
    length: usize,
) -> (r: Option<UntypedView>)
    requires
        view.wf(),
    ensures
        r is Some <==> spec_aligned(
            Format(Scalar::I32Normalized, width),
            offset as int,
            stride as int,
        ),
        r matches Some(u) ==> {
            let size = spec_scalar_byte_size(Scalar::I32Normalized) as int;
            let stride_b: int = if stride == 0 {
                size
            } else {
                stride as int
            };
            &&& u.wf()
            &&& u.spec_scalar() == Scalar::I32Normalized
            &&& u.spec_width() == width
            &&& u.spec_len() == length
            &&& u.spec_view() == view@
            &&& u.spec_offset() == offset as int / size
            &&& u.spec_stride() == stride_b / size
        },
{
    match TypedView::<i32>::new(None, view, width, offset, stride, length) {
        Some(x) => Some(UntypedView::I32Normalized(x)),
        None => None,
    }
}

/// Converts each tagged group element to the common numeric representation.
fn numerics_of(vals: Vec<ScalarValue>) -> (r: Vec<Numeric>)
    ensures
        r@.len() == vals@.len(),
        forall|j: int| 0 <= j < r@.len() ==> r@[j] == spec_to_numeric(vals@[j]),
{
    let mut out: Vec<Numeric> = Vec::new();
    let mut j: usize = 0;
    let n = vals.len();
    while j < n
        invariant
            j <= n,
            n == vals@.len(),
            out@.len() == j,
            forall|k: int| 0 <= k < j ==> out@[k] == spec_to_numeric(vals@[k]),
        decreases n - j,
    {
        out.push(vals[j].to_numeric());
        j = j + 1;
    }
    out
}

} // verus!
