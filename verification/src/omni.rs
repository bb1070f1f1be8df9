//! A narrow convenience view: half-float scalar attributes read directly
//! from a raw byte slice, widened to single-float bit patterns.

use crate::half::{half_to_single_bits, spec_half_to_single};
use crate::typed_view::spec_le16;
use crate::vertex::{Attribute, Format, Scalar, Width};
use vstd::prelude::*;
use vstd::slice::slice_index_get;

verus! {

/// A strided view over raw bytes that yields single-float bit patterns for
/// a half-float scalar attribute.
pub struct F32OmniView<'a> {
    pub data: &'a [u8],
    pub attribute: &'a Attribute,
    pub count: usize,
    pub stride: usize,
    pub offset: usize,
}

impl<'a> F32OmniView<'a> {
    /// The half-float bit pattern of element `i`.
    pub open spec fn spec_half_at(&self, i: int) -> u16 {
        spec_le16(
            self.data@.subrange(
                (self.stride * i + self.offset) * 2,
                (self.stride * i + self.offset) * 2 + 2,
            ),
        ) as u16
    }

    /// Builds a view over `data` for a half-float scalar attribute with the
    /// given element count and byte stride.  Construction succeeds exactly
    /// for that format with an aligned offset and stride.
    pub fn new(data: &'a [u8], attribute: &'a Attribute, count: usize, stride: usize) -> (r:
        Option<F32OmniView<'a>>)
        ensures
            r is Some <==> (attribute.format == Format(Scalar::F16, Width::Scalar) && stride % 2
                == 0 && attribute.offset % 2 == 0),
            r matches Some(v) ==> v.data == data && v.attribute == attribute && v.count == count
                && v.stride == stride as int / 2 && v.offset == attribute.offset as int / 2,
    {
        let ok = match attribute.format {
            Format(Scalar::F16, Width::Scalar) => true,
            _ => false,
        };
        if !ok {
            return None;
        }
        if stride % 2 != 0 || attribute.offset % 2 != 0 {
            return None;
        }
        Some(
            F32OmniView {
                data,
                attribute,
                count,
                stride: stride / 2,
                offset: attribute.offset / 2,
            },
        )
    }

    /// Declared element count.
    pub fn len(&self) -> (n: usize)
        ensures
            n == self.count,
    {
        self.count
    }

    /// The single-float bit pattern of element `i`: its half-float bits
    /// widened exactly.  Present exactly when the element lies strictly
    /// below the declared count and inside the data.
    pub fn get_bits(&self, i: usize) -> (r: Option<u32>)
        ensures
            (i < self.count && (self.stride * i + self.offset) * 2 + 2 <= self.data@.len())
                ==> r == Some(spec_half_to_single(self.spec_half_at(i as int))),
            !(i < self.count && (self.stride * i + self.offset) * 2 + 2 <= self.data@.len())
                ==> r is None,
    {
        let n = self.data.len();
        if i >= self.count {
            return None;
        }
        let e = match self.stride.checked_mul(i) {
            Some(e) => e,
            None => {
                proof {
                    overflow_oob(self, i as int);
                }
                return None;
            },
        };
        let e = match e.checked_add(self.offset) {
            Some(e) => e,
            None => {
                proof {
                    overflow_oob(self, i as int);
                }
                return None;
            },
        };
        let pos = match e.checked_mul(2) {
            Some(p) => p,
            None => {
                proof {
                    overflow_oob(self, i as int);
                }
                return None;
            },
        };
        if pos <= n && 2 <= n - pos {
            let b0 = *slice_index_get(self.data, pos);
            let b1 = *slice_index_get(self.data, pos + 1);
            let h: u16 = (b0 as u16) + (b1 as u16) * 0x100;
            Some(half_to_single_bits(h))
        } else {
            None
        }
    }
}

/// When the element position does not fit in `usize`, the element cannot
/// lie inside the data.
proof fn overflow_oob(v: &F32OmniView<'_>, i: int)
    requires
        i >= 0,
        v.data@.len() <= usize::MAX,
        v.stride * i > usize::MAX || v.stride * i + v.offset > usize::MAX || (v.stride * i
            + v.offset) * 2 > usize::MAX,
    ensures
        !((v.stride * i + v.offset) * 2 + 2 <= v.data@.len()),
{
    assert(v.stride * i >= 0) by (nonlinear_arith)
        requires
            v.stride >= 0,
            i >= 0,
    ;
    let e = v.stride * i + v.offset;
    assert(e * 2 >= e) by (nonlinear_arith)
        requires
            e >= 0,
    ;
}

} // verus!
