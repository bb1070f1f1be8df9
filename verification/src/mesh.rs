//! Mesh model: submeshes with their index windows, the lazy face producer,
//! and named-attribute lookup over the vertex layout.

use crate::buffer::BufferView;
use crate::index::{spec_index_byte_size, Format, Geometry};
use crate::typed_view::{spec_le16, spec_le32, Element, ScalarTypedView};
use crate::untyped_view::{spec_aligned, ScalarUntypedView, UntypedView};
use crate::vertex::{spec_first_match, Attribute, AttributeName, Descriptor};
use std::sync::Arc;
use vstd::prelude::*;

verus! {

/// One draw-topology group of indices within a mesh: a window over the
/// index payload, its index width, and its topology.
#[derive(Debug, Clone)]
pub struct Submesh {
    pub name: String,
    pub view: Arc<BufferView>,
    pub index_count: usize,
    pub index_format: Format,
    pub geometry: Geometry,
}

impl Submesh {
    /// The index window is well formed and holds at least `index_count`
    /// indices of the declared width.
    pub open spec fn wf(&self) -> bool {
        &&& self.view.wf()
        &&& self.index_count * spec_index_byte_size(self.index_format) <= self.view.length
    }

    /// The absolute vertex index stored at position `k` of the index
    /// payload, little-endian in the declared width.
    pub open spec fn spec_index_value(&self, k: int) -> int {
        match self.index_format {
            Format::U16 => spec_le16(self.view@.subrange(2 * k, 2 * k + 2)),
            Format::U32 => spec_le32(self.view@.subrange(4 * k, 4 * k + 4)),
        }
    }

    /// A format-erased view over the index payload: tightly packed indices
    /// of the declared width, one per index slot.
    pub fn untyped_view(&self) -> (r: ScalarUntypedView)
        requires
            self.wf(),
        ensures
            r.wf(),
            r is U16 || r is U32,
            r.spec_len() == self.index_count,
            self.index_format == Format::U16 ==> r is U16,
            self.index_format == Format::U32 ==> r is U32,
            r matches ScalarUntypedView::U16(x) ==> x.offset == 0 && x.stride == 1 && x.length * 2
                <= x.view@.len(),
            r matches ScalarUntypedView::U32(x) ==> x.offset == 0 && x.stride == 1 && x.length * 4
                <= x.view@.len(),
            forall|k: int|
                0 <= k < self.index_count ==> #[trigger] spec_untyped_index_value(r, k)
                    == self.spec_index_value(k) && spec_untyped_index_in_bounds(r, k),
    {
        let view = &self.view;
        let length = self.index_count;
        match self.index_format {
            Format::U16 => {
                let tv = ScalarTypedView::<u16>::new(None, view, 0, 0, length);
                match tv {
                    Some(x) => {
                        proof {
                            assert(x.stride == 2int / 2int);
                            assert(x.view@.len() == x.view.length);
                            lemma_dense_index_view_u16(&x, self);
                        }
                        ScalarUntypedView::U16(x)
                    },
                    None => vstd::pervasive::unreached(),
                }
            },
            Format::U32 => {
                let tv = ScalarTypedView::<u32>::new(None, view, 0, 0, length);
                match tv {
                    Some(x) => {
                        proof {
                            assert(x.stride == 4int / 4int);
                            assert(x.view@.len() == x.view.length);
                            lemma_dense_index_view_u32(&x, self);
                        }
                        ScalarUntypedView::U32(x)
                    },
                    None => vstd::pervasive::unreached(),
                }
            },
        }
    }

    /// A lazy face producer over this submesh, positioned at its first
    /// face.
    pub fn faces(&self) -> (r: FaceIterator)
        requires
            self.wf(),
        ensures
            r.wf(),
            r.geometry == self.geometry,
            r.current == 0,
            r.spec_len() == self.index_count,
            forall|k: int|
                0 <= k < self.index_count ==> #[trigger] r.spec_index_value(k)
                    == self.spec_index_value(k),
    {
        FaceIterator { view: self.untyped_view(), geometry: self.geometry, current: 0 }
    }
}

/// The vertex index a dense index view yields at position `k`.
pub open spec fn spec_untyped_index_value(v: ScalarUntypedView, k: int) -> int {
    match v {
        ScalarUntypedView::U16(x) => x.spec_get(k) as int,
        ScalarUntypedView::U32(x) => x.spec_get(k) as int,
        _ => 0,
    }
}

/// Position `k` of a dense index view lies inside its byte window.
pub open spec fn spec_untyped_index_in_bounds(v: ScalarUntypedView, k: int) -> bool {
    match v {
        ScalarUntypedView::U16(x) => x.in_bounds(k),
        ScalarUntypedView::U32(x) => x.in_bounds(k),
        _ => false,
    }
}

/// A dense 16-bit index view over a well-formed submesh window decodes, at
/// each position below the declared count, the submesh's index value.
proof fn lemma_dense_index_view_u16(x: &ScalarTypedView<u16>, s: &Submesh)
    requires
        s.wf(),
        s.index_format == Format::U16,
        x.wf(),
        x.view == s.view,
        x.offset == 0,
        x.stride == 1,
        x.length == s.index_count,
    ensures
        forall|k: int|
            0 <= k < s.index_count ==> (x.spec_get(k) as int) == s.spec_index_value(k)
                && #[trigger] x.in_bounds(k),
{
    assert forall|k: int| 0 <= k < s.index_count implies (x.spec_get(k) as int)
        == s.spec_index_value(k) && #[trigger] x.in_bounds(k) by {
        assert(x.byte_pos(k) == 2 * k);
        assert((k + 1) * 2 <= s.index_count * 2) by (nonlinear_arith)
            requires
                k + 1 <= s.index_count,
        ;
        assert(x.view@.len() == x.view.length);
        let b = x.view@.subrange(2 * k, 2 * k + 2);
        assert(0 <= spec_le16(b) < 0x10000);
    }
}

/// A dense 32-bit index view over a well-formed submesh window decodes, at
/// each position below the declared count, the submesh's index value.
proof fn lemma_dense_index_view_u32(x: &ScalarTypedView<u32>, s: &Submesh)
    requires
        s.wf(),
        s.index_format == Format::U32,
        x.wf(),
        x.view == s.view,
        x.offset == 0,
        x.stride == 1,
        x.length == s.index_count,
    ensures
        forall|k: int|
            0 <= k < s.index_count ==> (x.spec_get(k) as int) == s.spec_index_value(k)
                && #[trigger] x.in_bounds(k),
{
    assert forall|k: int| 0 <= k < s.index_count implies (x.spec_get(k) as int)
        == s.spec_index_value(k) && #[trigger] x.in_bounds(k) by {
        assert(x.byte_pos(k) == 4 * k);
        assert((k + 1) * 4 <= s.index_count * 4) by (nonlinear_arith)
            requires
                k + 1 <= s.index_count,
        ;
        assert(x.view@.len() == x.view.length);
        let b = x.view@.subrange(4 * k, 4 * k + 4);
        assert(0 <= spec_le32(b) < 0x1_0000_0000);
    }
}

/// The index positions one face at step `current` reads, per topology.
pub open spec fn spec_face_offsets(g: Geometry, c: int) -> Seq<int> {
    match g {
        Geometry::Points => seq![c],
        Geometry::Lines => seq![c, c + 1],
        Geometry::TriangleStrips => seq![c, c + 1, c + 2],
        Geometry::Triangles => seq![3 * c, 3 * c + 1, 3 * c + 2],
    }
}

/// Number of faces a topology yields from an index count: every index for
/// points, one face per window position for lines and strips, one face per
/// index triple for triangles.
pub open spec fn spec_face_count(g: Geometry, len: nat) -> nat {
    match g {
        Geometry::Points => len,
        Geometry::Lines => if len >= 1 {
            (len - 1) as nat
        } else {
            0
        },
        Geometry::TriangleStrips => if len >= 2 {
            (len - 2) as nat
        } else {
            0
        },
        Geometry::Triangles => len / 3,
    }
}

/// A lazy, finite, non-restartable producer of per-face absolute vertex
/// index groups, dispatching on index width and topology.
pub struct FaceIterator {
    pub view: ScalarUntypedView,
    pub geometry: Geometry,
    pub current: usize,
}

impl FaceIterator {
    /// The index view is dense (offset 0, stride 1), of one of the two
    /// index widths, and lies wholly inside its byte window.
    pub open spec fn wf(&self) -> bool {
        match &self.view {
            ScalarUntypedView::U16(x) => x.wf() && x.offset == 0 && x.stride == 1 && x.length * 2
                <= x.view@.len(),
            ScalarUntypedView::U32(x) => x.wf() && x.offset == 0 && x.stride == 1 && x.length * 4
                <= x.view@.len(),
            _ => false,
        }
    }

    /// Number of index slots below the view.
    pub open spec fn spec_len(&self) -> nat {
        self.view.spec_len()
    }

    /// The absolute vertex index at position `k`.
    pub open spec fn spec_index_value(&self, k: int) -> int {
        spec_untyped_index_value(self.view, k)
    }

    /// Total number of faces this iterator yields.
    pub open spec fn spec_face_count(&self) -> nat {
        spec_face_count(self.geometry, self.spec_len())
    }

    /// Every position below the declared length lies inside the byte
    /// window.
    proof fn all_in_bounds(&self, k: int)
        requires
            self.wf(),
            0 <= k < self.spec_len(),
        ensures
            spec_untyped_index_in_bounds(self.view, k),
    {
        match &self.view {
            ScalarUntypedView::U16(x) => {
                assert(x.byte_pos(k) == 2 * k);
                assert((k + 1) * 2 <= x.length * 2) by (nonlinear_arith)
                    requires
                        k + 1 <= x.length,
                ;
            },
            ScalarUntypedView::U32(x) => {
                assert(x.byte_pos(k) == 4 * k);
                assert((k + 1) * 4 <= x.length * 4) by (nonlinear_arith)
                    requires
                        k + 1 <= x.length,
                ;
            },
            _ => {},
        }
    }

    /// The absolute vertex index at position `k`.
    fn index_at(&self, k: usize) -> (r: usize)
        requires
            self.wf(),
            k < self.spec_len(),
        ensures
            r == self.spec_index_value(k as int),
    {
        proof {
            self.all_in_bounds(k as int);
        }
        match self.view.get_usize(k) {
            Some(v) => v,
            None => 0,
        }
    }

    /// Number of faces left in total: the iterator terminates after exactly
    /// this many steps from the start.
    pub fn len(&self) -> (n: usize)
        ensures
            n == self.spec_face_count(),
    {
        let c = self.view.len();
        match self.geometry {
            Geometry::Points => c,
            Geometry::Lines => if c >= 1 {
                c - 1
            } else {
                0
            },
            Geometry::TriangleStrips => if c >= 2 {
                c - 2
            } else {
                0
            },
            Geometry::Triangles => c / 3,
        }
    }

    /// Exact bounds on the number of faces left.
    pub fn size_hint(&self) -> (r: (usize, Option<usize>))
        ensures
            r.0 == self.spec_face_count(),
            r.1 == Some(self.spec_face_count() as usize),
    {
        let length = self.len();
        (length, Some(length))
    }

    /// The next face: the absolute vertex indices its topology reads at the
    /// current step, resolved through the index width.  Yields nothing at
    /// and after `len()` steps.
    pub fn next(&mut self) -> (r: Option<Vec<usize>>)
        requires
            old(self).wf(),
        ensures
            final(self).wf(),
            final(self).view == old(self).view,
            final(self).geometry == old(self).geometry,
            old(self).current >= old(self).spec_face_count() ==> r is None && final(self).current
                == old(self).current,
            old(self).current < old(self).spec_face_count() ==> final(self).current == old(
                self,
            ).current + 1 && r is Some && {
                let v = r.unwrap();
                let offs = spec_face_offsets(old(self).geometry, old(self).current as int);
                &&& v@.len() == offs.len()
                &&& forall|j: int|
                    0 <= j < offs.len() ==> v@[j] == old(self).spec_index_value(offs[j])
            },
    {
        let fc = self.len();
        if self.current >= fc {
            return None;
        }
        let c = self.current;
        let indices: Vec<usize> = match self.geometry {
            Geometry::Points => {
                vec![self.index_at(c)]
            },
            Geometry::Lines => {
                vec![self.index_at(c), self.index_at(c + 1)]
            },
            Geometry::TriangleStrips => {
                vec![self.index_at(c), self.index_at(c + 1), self.index_at(c + 2)]
            },
            Geometry::Triangles => {
                proof {
                    assert(3 * (self.spec_len() / 3) <= self.spec_len()) by (nonlinear_arith);
                }
                let base = 3 * c;
                vec![self.index_at(base), self.index_at(base + 1), self.index_at(base + 2)]
            },
        };
        self.current = c + 1;
        Some(indices)
    }
}

/// A mesh: its name, vertex count, vertex layout, one buffer window per
/// layout, and its submeshes.
#[derive(Debug, Clone)]
pub struct Mesh {
    pub name: String,
    pub vertex_count: usize,
    pub descriptor: Descriptor,
    pub buffers: Vec<Arc<BufferView>>,
    pub submeshes: Vec<Submesh>,
}

impl Mesh {
    /// Every buffer window and every submesh is well formed.
    pub open spec fn wf(&self) -> bool {
        &&& forall|i: int| 0 <= i < self.buffers@.len() ==> (#[trigger] self.buffers@[i]).wf()
        &&& forall|i: int| 0 <= i < self.submeshes@.len() ==> (#[trigger] self.submeshes@[i]).wf()
    }

    /// The first attribute with the given name, or nothing when the mesh
    /// simply has no such attribute.
    pub fn attribute_for(&self, name: &AttributeName) -> (r: Option<&Attribute>)
        ensures
            match spec_first_match(self.descriptor.attributes@, *name, 0) {
                Some(i) => r matches Some(a) && *a == self.descriptor.attributes@[i],
                None => r is None,
            },
    {
        self.descriptor.attribute_for(name)
    }

    /// A format-erased view over the named attribute's column of the vertex
    /// data: one group of `width` elements per vertex, strided by the
    /// owning buffer's layout.  Nothing when the attribute is absent, its
    /// buffer or layout index is out of range, or its offset and stride
    /// break the alignment invariant.
    pub fn untyped_view_for(&self, name: &AttributeName) -> (r: Option<UntypedView>)
        requires
            self.wf(),
        ensures
            match spec_first_match(self.descriptor.attributes@, *name, 0) {
                None => r is None,
                Some(i) => {
                    let a = self.descriptor.attributes@[i];
                    if a.buffer_index < self.buffers@.len() && a.buffer_index
                        < self.descriptor.layouts@.len() && spec_aligned(
                        a.format,
                        a.offset as int,
                        self.descriptor.layouts@[a.buffer_index as int].stride as int,
                    ) {
                        r matches Some(u) && u.wf() && u.spec_scalar() == a.format.0
                            && u.spec_width() == a.format.1 && u.spec_len() == self.vertex_count
                            && u.spec_view() == self.buffers@[a.buffer_index as int]@
                    } else {
                        r is None
                    }
                },
            },
    {
        match self.descriptor.attribute_for(name) {
            Some(attribute) => {
                let bi = attribute.buffer_index;
                if bi >= self.buffers.len() || bi >= self.descriptor.layouts.len() {
                    return None;
                }
                let view = &self.buffers[bi];
                let offset = attribute.offset;
                let stride = self.descriptor.layouts[bi].stride;
                let length = self.vertex_count;
                UntypedView::new(view, attribute.format, offset, stride, length)
            },
            None => None,
        }
    }
}

} // verus!
