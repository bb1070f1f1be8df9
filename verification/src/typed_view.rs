//! Strided, aligned reinterpretation of a byte window as a sequence of
//! fixed-width little-endian elements, or of fixed-size element groups.
//!
//! Raw reinterpretation is replaced by explicit per-access decoding: each
//! read assembles one element from its bytes in little-endian order, under
//! the same alignment and bounds rules the zero-copy layout promises.

use crate::buffer::{arc_clone, BufferView};
use crate::vertex::Width;
use std::sync::Arc;
use vstd::prelude::*;

verus! {

/// A fixed-width primitive representation that can be decoded from
/// little-endian bytes.  `spec_decode` is the mathematical meaning of
/// `spec_size()` bytes; `decode_at` realizes it on a slice.
pub trait Element: Sized + Copy {
    /// Number of bytes one element occupies.
    spec fn spec_size() -> nat;

    /// The element encoded by `b` (of length `spec_size()`), little-endian.
    spec fn spec_decode(b: Seq<u8>) -> Self;

    /// Byte width of the element, equal to its natural alignment.
    fn size() -> (n: usize)
        ensures
            n == Self::spec_size(),
            1 <= n <= 4,
    ;

    /// The byte width is between one and four.
    proof fn size_bounds()
        ensures
            1 <= Self::spec_size() <= 4,
    ;

    /// Decodes the element stored at `b[pos .. pos + spec_size()]`.
    fn decode_at(b: &[u8], pos: usize) -> (r: Self)
        requires
            pos + Self::spec_size() <= b@.len(),
        ensures
            r == Self::spec_decode(b@.subrange(pos as int, pos + Self::spec_size())),
    ;
}

/// The value of two little-endian bytes.
pub open spec fn spec_le16(b: Seq<u8>) -> int {
    b[0] + b[1] * 0x100
}

/// The value of four little-endian bytes.
pub open spec fn spec_le32(b: Seq<u8>) -> int {
    b[0] + b[1] * 0x100 + b[2] * 0x10000 + b[3] * 0x1000000
}

impl Element for u8 {
    open spec fn spec_size() -> nat {
        1
    }

    proof fn size_bounds() {
    }

    open spec fn spec_decode(b: Seq<u8>) -> u8 {
        b[0]
    }

    fn size() -> usize {
        1
    }

    fn decode_at(b: &[u8], pos: usize) -> u8 {
        *vstd::slice::slice_index_get(b, pos)
    }
}

impl Element for i8 {
    open spec fn spec_size() -> nat {
        1
    }

    proof fn size_bounds() {
    }

    open spec fn spec_decode(b: Seq<u8>) -> i8 {
        b[0] as i8
    }

    fn size() -> usize {
        1
    }

    fn decode_at(b: &[u8], pos: usize) -> i8 {
        *vstd::slice::slice_index_get(b, pos) as i8
    }
}

impl Element for u16 {
    open spec fn spec_size() -> nat {
        2
    }

    proof fn size_bounds() {
    }

    open spec fn spec_decode(b: Seq<u8>) -> u16 {
        spec_le16(b) as u16
    }

    fn size() -> usize {
        2
    }

    fn decode_at(b: &[u8], pos: usize) -> u16 {
        let _n = b.len();
        let b0 = *vstd::slice::slice_index_get(b, pos);
        let b1 = *vstd::slice::slice_index_get(b, pos + 1);
        (b0 as u16) + (b1 as u16) * 0x100
    }
}

impl Element for i16 {
    open spec fn spec_size() -> nat {
        2
    }

    proof fn size_bounds() {
    }

    open spec fn spec_decode(b: Seq<u8>) -> i16 {
        (spec_le16(b) as u16) as i16
    }

    fn size() -> usize {
        2
    }

    fn decode_at(b: &[u8], pos: usize) -> i16 {
        let _n = b.len();
        let b0 = *vstd::slice::slice_index_get(b, pos);
        let b1 = *vstd::slice::slice_index_get(b, pos + 1);
        ((b0 as u16) + (b1 as u16) * 0x100) as i16
    }
}

impl Element for u32 {
    open spec fn spec_size() -> nat {
        4
    }

    proof fn size_bounds() {
    }

    open spec fn spec_decode(b: Seq<u8>) -> u32 {
        spec_le32(b) as u32
    }

    fn size() -> usize {
        4
    }

    fn decode_at(b: &[u8], pos: usize) -> u32 {
        let _n = b.len();
        let b0 = *vstd::slice::slice_index_get(b, pos);
        let b1 = *vstd::slice::slice_index_get(b, pos + 1);
        let b2 = *vstd::slice::slice_index_get(b, pos + 2);
        let b3 = *vstd::slice::slice_index_get(b, pos + 3);
        (b0 as u32) + (b1 as u32) * 0x100 + (b2 as u32) * 0x10000 + (b3 as u32) * 0x1000000
    }
}

impl Element for i32 {
    open spec fn spec_size() -> nat {
        4
    }

    proof fn size_bounds() {
    }

    open spec fn spec_decode(b: Seq<u8>) -> i32 {
        (spec_le32(b) as u32) as i32
    }

    fn size() -> usize {
        4
    }

    fn decode_at(b: &[u8], pos: usize) -> i32 {
        let _n = b.len();
        let b0 = *vstd::slice::slice_index_get(b, pos);
        let b1 = *vstd::slice::slice_index_get(b, pos + 1);
        let b2 = *vstd::slice::slice_index_get(b, pos + 2);
        let b3 = *vstd::slice::slice_index_get(b, pos + 3);
        ((b0 as u32) + (b1 as u32) * 0x100 + (b2 as u32) * 0x10000 + (b3 as u32) * 0x1000000) as i32
    }
}

/// A strided view of a byte window as single elements of type `T`.
///
/// `offset` and `stride` are stored in element units, as established at
/// construction from their byte-unit arguments.
#[derive(Debug)]
pub struct ScalarTypedView<T> {
    pub name: Option<String>,
    pub offset: usize,
    pub stride: usize,
    pub length: usize,
    pub view: Arc<BufferView>,
    pub element: core::marker::PhantomData<T>,
}

impl<T: Element> ScalarTypedView<T> {
    /// The underlying window is well formed and the stride is positive.
    pub open spec fn wf(&self) -> bool {
        &&& self.view.wf()
        &&& self.stride >= 1
    }

    /// Element-unit index of logical element `i`.
    pub open spec fn elem_index(&self, i: int) -> int {
        self.stride * i + self.offset
    }

    /// Byte position of logical element `i` inside the window.
    pub open spec fn byte_pos(&self, i: int) -> int {
        self.elem_index(i) * T::spec_size()
    }

    /// True when element `i` lies wholly inside the window.
    pub open spec fn in_bounds(&self, i: int) -> bool {
        self.byte_pos(i) + T::spec_size() <= self.view@.len()
    }

    /// The element at logical index `i`: the window bytes at its position,
    /// decoded little-endian.
    pub open spec fn spec_get(&self, i: int) -> T {
        T::spec_decode(self.view@.subrange(self.byte_pos(i), self.byte_pos(i) + T::spec_size()))
    }

    /// Builds a strided element view over `view`.
    ///
    /// `offset` and `stride` are byte counts; a stride of 0 means tightly
    /// packed and defaults to the element's natural alignment.  Construction
    /// succeeds exactly when both are multiples of that alignment;
    /// reinterpreting misaligned bytes must never be attempted.
    pub fn new(
        name: Option<String>,
        view: &Arc<BufferView>,
        offset: usize,
        stride: usize,
        length: usize,
    ) -> (r: Option<ScalarTypedView<T>>)
        requires
            view.wf(),
        ensures
            ({
                let size = T::spec_size();
                let stride_b: int = if stride == 0 {
                    size as int
                } else {
                    stride as int
                };
                if stride_b % (size as int) == 0 && offset as int % (size as int) == 0 {
                    r matches Some(v) && v.wf() && v.name == name && v.view == *view && v.length
                        == length && v.stride == stride_b / (size as int) && v.offset == offset as int
                        / (size as int) && v.stride >= 1
                } else {
                    r is None
                }
            }),
    {
        let size = T::size();
        let stride_b: usize = if stride == 0 {
            size
        } else {
            stride
        };
        if stride_b % size == 0 && offset % size == 0 {
            proof {
                assert(stride_b >= size) by (nonlinear_arith)
                    requires
                        stride_b as int % (size as int) == 0,
                        stride_b >= 1,
                        size >= 1,
                ;
                assert(stride_b / size >= 1) by (nonlinear_arith)
                    requires
                        stride_b >= size,
                        size >= 1,
                ;
            }
            Some(
                ScalarTypedView {
                    name,
                    stride: stride_b / size,
                    offset: offset / size,
                    length,
                    view: arc_clone(view),
                    element: core::marker::PhantomData,
                },
            )
        } else {
            None
        }
    }

    /// Number of logical elements the view was declared with.
    pub fn len(&self) -> (n: usize)
        ensures
            n == self.length,
    {
        self.length
    }

    /// The element at logical index `i`, present exactly when `i` lies
    /// strictly below the declared length and its bytes lie inside the
    /// window.
    pub fn get(&self, i: usize) -> (r: Option<T>)
        requires
            self.wf(),
        ensures
            (i < self.length && self.in_bounds(i as int)) ==> r == Some(self.spec_get(i as int)),
            !(i < self.length && self.in_bounds(i as int)) ==> r is None,
    {
        if i >= self.length {
            return None;
        }
        let size = T::size();
        let e = match self.stride.checked_mul(i) {
            Some(e) => e,
            None => {
                proof {
                    overflow_out_of_bounds::<T>(self, i as int);
                }
                return None;
            },
        };
        let e = match e.checked_add(self.offset) {
            Some(e) => e,
            None => {
                proof {
                    overflow_out_of_bounds::<T>(self, i as int);
                }
                return None;
            },
        };
        let pos = match e.checked_mul(size) {
            Some(p) => p,
            None => {
                proof {
                    overflow_out_of_bounds::<T>(self, i as int);
                }
                return None;
            },
        };
        let s = self.view.as_slice();
        let n = s.len();
        if pos <= n && size <= n - pos {
            Some(T::decode_at(s, pos))
        } else {
            None
        }
    }
}

/// When the element-unit position of element `i` does not even fit in
/// `usize`, its byte range cannot lie inside the window.
proof fn overflow_out_of_bounds<T: Element>(v: &ScalarTypedView<T>, i: int)
    requires
        v.wf(),
        i >= 0,
        v.elem_index(i) > usize::MAX || v.elem_index(i) * T::spec_size() > usize::MAX,
    ensures
        !v.in_bounds(i),
{
    T::size_bounds();
    let size = T::spec_size() as int;
    assert(v.elem_index(i) >= 0) by (nonlinear_arith)
        requires
            v.stride >= 0,
            i >= 0,
            v.offset >= 0,
    ;
    assert(v.elem_index(i) * size >= v.elem_index(i)) by (nonlinear_arith)
        requires
            v.elem_index(i) >= 0,
            size >= 1,
    ;
    assert(v.view@.len() == v.view.length);
}

/// A strided view of a byte window as fixed-size groups of elements: one
/// logical index yields `width.elements()` consecutive values.
#[derive(Debug)]
pub struct TypedView<T> {
    pub width: Width,
    pub scalar_view: ScalarTypedView<T>,
}

impl<T: Element> TypedView<T> {
    /// The underlying scalar view is well formed.
    pub open spec fn wf(&self) -> bool {
        self.scalar_view.wf()
    }

    /// True when the whole group at logical index `i` lies inside the
    /// window.
    pub open spec fn group_in_bounds(&self, i: int) -> bool {
        (self.scalar_view.elem_index(i) + crate::vertex::spec_width_elements(self.width))
            * T::spec_size() <= self.scalar_view.view@.len()
    }

    /// Element `j` of the group at logical index `i`.
    pub open spec fn spec_get_elem(&self, i: int, j: int) -> T {
        T::spec_decode(
            self.scalar_view.view@.subrange(
                (self.scalar_view.elem_index(i) + j) * T::spec_size(),
                (self.scalar_view.elem_index(i) + j) * T::spec_size() + T::spec_size(),
            ),
        )
    }

    /// Builds a group view over `view`; alignment rules are those of the
    /// underlying scalar view.
    pub fn new(
        name: Option<String>,
        view: &Arc<BufferView>,
        width: Width,
        offset: usize,
        stride: usize,
        length: usize,
    ) -> (r: Option<TypedView<T>>)
        requires
            view.wf(),
        ensures
            ({
                let size = T::spec_size();
                let stride_b: int = if stride == 0 {
                    size as int
                } else {
                    stride as int
                };
                if stride_b % (size as int) == 0 && offset as int % (size as int) == 0 {
                    r matches Some(v) && v.wf() && v.width == width && v.scalar_view.name == name
                        && v.scalar_view.view == *view && v.scalar_view.length == length
                        && v.scalar_view.stride == stride_b / (size as int) && v.scalar_view.offset
                        == offset as int / (size as int)
                } else {
                    r is None
                }
            }),
    {
        match ScalarTypedView::new(name, view, offset, stride, length) {
            Some(scalar_view) => Some(TypedView { width, scalar_view }),
            None => None,
        }
    }

    /// Number of logical groups the view was declared with.
    pub fn len(&self) -> (n: usize)
        ensures
            n == self.scalar_view.length,
    {
        self.scalar_view.length
    }

    /// The group at logical index `i`: `width.elements()` consecutive
    /// elements starting at the resolved position.  Present exactly when `i`
    /// lies strictly below the declared length and the whole group lies
    /// inside the window.
    pub fn get(&self, i: usize) -> (r: Option<Vec<T>>)
        requires
            self.wf(),
        ensures
            (i < self.scalar_view.length && self.group_in_bounds(i as int)) ==> r is Some && {
                let v = r.unwrap();
                &&& v@.len() == crate::vertex::spec_width_elements(self.width)
                &&& forall|j: int|
                    0 <= j < v@.len() ==> v@[j] == self.spec_get_elem(i as int, j)
            },
            !(i < self.scalar_view.length && self.group_in_bounds(i as int)) ==> r is None,
    {
        if i >= self.scalar_view.length {
            return None;
        }
        let size = T::size();
        let elements = self.width.elements();
        let e = match self.scalar_view.stride.checked_mul(i) {
            Some(e) => e,
            None => {
                proof {
                    group_overflow_out_of_bounds::<T>(self, i as int);
                }
                return None;
            },
        };
        let e = match e.checked_add(self.scalar_view.offset) {
            Some(e) => e,
            None => {
                proof {
                    group_overflow_out_of_bounds::<T>(self, i as int);
                }
                return None;
            },
        };
        let e_end = match e.checked_add(elements) {
            Some(t) => t,
            None => {
                proof {
                    group_overflow_out_of_bounds::<T>(self, i as int);
                }
                return None;
            },
        };
        let end = match e_end.checked_mul(size) {
            Some(p) => p,
            None => {
                proof {
                    group_overflow_out_of_bounds::<T>(self, i as int);
                }
                return None;
            },
        };
        let s = self.view_slice();
        if end > s.len() {
            return None;
        }
        let mut out: Vec<T> = Vec::new();
        let mut j: usize = 0;
        while j < elements
            invariant
                j <= elements,
                out@.len() == j,
                elements == crate::vertex::spec_width_elements(self.width),
                self.wf(),
                size == T::spec_size(),
                1 <= size <= 4,
                e == self.scalar_view.elem_index(i as int),
                e + elements <= usize::MAX,
                end == (e + elements) * size,
                end <= s@.len(),
                s@ == self.scalar_view.view@,
                forall|k: int| 0 <= k < j ==> out@[k] == self.spec_get_elem(i as int, k),
            decreases elements - j,
        {
            proof {
                group_elem_in_range::<T>(e as int, j as int, elements as int, size as int);
                assert(e + j <= e + elements);
                assert((e + j) * size + size <= end);
            }
            let pos = (e + j) * size;
            let val = T::decode_at(s, pos);
            out.push(val);
            j = j + 1;
        }
        Some(out)
    }

    /// The window's bytes, for group decoding.
    fn view_slice(&self) -> (r: &[u8])
        requires
            self.wf(),
        ensures
            r@ == self.scalar_view.view@,
    {
        self.scalar_view.view.as_slice()
    }
}

/// When the group's element-unit extent does not fit in `usize`, the group
/// cannot lie inside the window.
proof fn group_overflow_out_of_bounds<T: Element>(v: &TypedView<T>, i: int)
    requires
        v.wf(),
        i >= 0,
        ({
            let ext = v.scalar_view.elem_index(i) + crate::vertex::spec_width_elements(v.width);
            v.scalar_view.elem_index(i) > usize::MAX || ext > usize::MAX || ext * T::spec_size()
                > usize::MAX
        }),
    ensures
        !v.group_in_bounds(i),
{
    T::size_bounds();
    let size = T::spec_size() as int;
    let ext = v.scalar_view.elem_index(i) + crate::vertex::spec_width_elements(v.width) as int;
    assert(v.scalar_view.elem_index(i) >= 0) by (nonlinear_arith)
        requires
            v.scalar_view.stride >= 0,
            i >= 0,
            v.scalar_view.offset >= 0,
    ;
    assert(ext * size >= ext) by (nonlinear_arith)
        requires
            ext >= 0,
            size >= 1,
    ;
    assert(v.scalar_view.view@.len() == v.scalar_view.view.length);
}

/// Byte positions of the elements of one group: element `j` of a group
/// starting at element-unit position `e` lies inside the group's byte
/// extent.
proof fn group_elem_in_range<T: Element>(e: int, j: int, elements: int, size: int)
    requires
        e >= 0,
        0 <= j < elements,
        size >= 1,
    ensures
        (e + j) * size >= 0,
        (e + j) * size + size <= (e + elements) * size,
{
    assert((e + j) * size >= 0) by (nonlinear_arith)
        requires
            e >= 0,
            j >= 0,
            size >= 1,
    ;
    assert((e + j) * size + size <= (e + elements) * size) by (nonlinear_arith)
        requires
            j < elements,
            size >= 1,
    ;
}

/// Element access resolves to the declared byte positions: for a view built
/// from a byte offset and byte stride that satisfy the alignment invariant,
/// the element at logical index `i` is decoded from the window bytes
/// starting at `offset + stride * i`, exactly as reading the raw bytes
/// would.
pub proof fn lemma_byte_positions<T: Element>(
    v: &ScalarTypedView<T>,
    offset: int,
    stride_b: int,
    i: int,
)
    requires
        0 <= offset,
        1 <= stride_b,
        stride_b % (T::spec_size() as int) == 0,
        offset % (T::spec_size() as int) == 0,
        v.stride == stride_b / (T::spec_size() as int),
        v.offset == offset / (T::spec_size() as int),
        0 <= i,
    ensures
        v.byte_pos(i) == stride_b * i + offset,
        v.in_bounds(i) ==> v.spec_get(i) == T::spec_decode(
            v.view@.subrange(stride_b * i + offset, stride_b * i + offset + T::spec_size()),
        ),
{
    T::size_bounds();
    let z = T::spec_size() as int;
    vstd::arithmetic::div_mod::lemma_fundamental_div_mod(stride_b, z);
    vstd::arithmetic::div_mod::lemma_fundamental_div_mod(offset, z);
    assert(stride_b == z * (stride_b / z));
    assert(offset == z * (offset / z));
    assert((v.stride * i + v.offset) * z == stride_b * i + offset) by (nonlinear_arith)
        requires
            stride_b == z * v.stride,
            offset == z * v.offset,
    ;
}

} // verus!
