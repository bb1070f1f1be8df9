//! One-pass importer for the binary mesh container format: a forward-only
//! cursor over an in-memory byte buffer, no backtracking, no copying of
//! vertex or index payloads.
//!
//! The grammar is stated once as spec-level parse functions over the byte
//! sequence; the executable importer is proved to return a result exactly
//! when the spec parse succeeds, and to build meshes whose fields and
//! buffer windows match the parsed shapes.

use crate::buffer::{arc_clone, Buffer, BufferView};
use crate::index::{spec_index_byte_size, Format as IndexFormat, Geometry};
use crate::typed_view::{spec_le16, spec_le32};
use crate::vertex::{
    spec_format_byte_size, spec_width_from_integer, Attribute, AttributeName, BufferLayout,
    Descriptor, Format, Scalar,
};
use std::sync::Arc;
use vstd::prelude::*;
use vstd::slice::slice_to_vec;

verus! {

/// What a well-formed UTF-8 byte sequence decodes to, and nothing for any
/// other byte sequence.  The decoding is a function of the bytes alone.
pub uninterp spec fn utf8_of(b: Seq<u8>) -> Option<Seq<char>>;

/// Relies on `String::from_utf8` (std): it succeeds exactly on valid UTF-8
/// input and yields its decoding, a function of the bytes alone.
#[verifier::external_body]
fn string_from_utf8(v: Vec<u8>) -> (r: Option<String>)
    ensures
        r is Some <==> utf8_of(v@) is Some,
        r matches Some(s) ==> utf8_of(v@) == Some(s@),
{
    String::from_utf8(v).ok()
}

/// One byte at `p`, and the position after it.
pub open spec fn sp_u8(b: Seq<u8>, p: int) -> Option<(u8, int)> {
    if 0 <= p && p + 1 <= b.len() {
        Some((b[p], p + 1))
    } else {
        None
    }
}

/// Two little-endian bytes at `p` as a value, and the position after them.
pub open spec fn sp_u16(b: Seq<u8>, p: int) -> Option<(int, int)> {
    if 0 <= p && p + 2 <= b.len() {
        Some((spec_le16(b.subrange(p, p + 2)), p + 2))
    } else {
        None
    }
}

/// Four little-endian bytes at `p` as a value, and the position after them.
pub open spec fn sp_u32(b: Seq<u8>, p: int) -> Option<(int, int)> {
    if 0 <= p && p + 4 <= b.len() {
        Some((spec_le32(b.subrange(p, p + 4)), p + 4))
    } else {
        None
    }
}

/// A length-prefixed name: one length byte, then that many bytes decoded as
/// UTF-8 text.
pub open spec fn sp_name(b: Seq<u8>, p: int) -> Option<(Seq<char>, int)> {
    match sp_u8(b, p) {
        None => None,
        Some((n, p1)) => if p1 + n <= b.len() {
            match utf8_of(b.subrange(p1, p1 + n)) {
                None => None,
                Some(cs) => Some((cs, p1 + n)),
            }
        } else {
            None
        },
    }
}

/// The scalar encoding named by the low five bits of a packed type byte.
pub open spec fn spec_scalar_from_code(c: int) -> Option<Scalar> {
    if c == 0 {
        Some(Scalar::I8)
    } else if c == 1 {
        Some(Scalar::I16)
    } else if c == 2 {
        Some(Scalar::I32)
    } else if c == 3 {
        Some(Scalar::F16)
    } else if c == 4 {
        Some(Scalar::F32)
    } else if c == 8 {
        Some(Scalar::U8)
    } else if c == 9 {
        Some(Scalar::U16)
    } else if c == 10 {
        Some(Scalar::U32)
    } else if c == 16 {
        Some(Scalar::I8Normalized)
    } else if c == 17 {
        Some(Scalar::I16Normalized)
    } else if c == 24 {
        Some(Scalar::U8Normalized)
    } else if c == 25 {
        Some(Scalar::U16Normalized)
    } else {
        None
    }
}

/// The attribute semantic named by a usage byte.
pub open spec fn spec_usage_name(u: int) -> Option<AttributeName> {
    if u == 0 {
        Some(AttributeName::Position)
    } else if u == 1 {
        Some(AttributeName::Color)
    } else if u == 2 {
        Some(AttributeName::Normal)
    } else if u == 3 {
        Some(AttributeName::Tangent)
    } else if u == 4 {
        Some(AttributeName::Binormal)
    } else if u == 5 {
        Some(AttributeName::TextureCoordinate)
    } else if u == 6 {
        Some(AttributeName::JointWeights)
    } else if u == 7 {
        Some(AttributeName::JointIndices)
    } else {
        None
    }
}

/// The element format a packed type byte encodes: element count in the top
/// three bits (count value plus one), scalar code in the low five bits.
pub open spec fn spec_packed_format(t: int) -> Option<Format> {
    let elems = t / 32 + 1;
    match spec_width_from_integer(elems as usize) {
        None => None,
        Some(w) => match spec_scalar_from_code(t % 32) {
            None => None,
            Some(s) => Some(Format(s, w)),
        },
    }
}

/// One attribute declaration record at `p`: usage byte, one reserved byte,
/// one packed type byte; `off` is the byte offset accumulated so far.
pub open spec fn sp_attr(b: Seq<u8>, p: int, off: nat) -> Option<(Attribute, int)> {
    if 0 <= p && p + 3 <= b.len() {
        match spec_usage_name(b[p] as int) {
            None => None,
            Some(name) => match spec_packed_format(b[p + 2] as int) {
                None => None,
                Some(format) => Some(
                    (Attribute { name, format, offset: off as usize, buffer_index: 0 }, p + 3),
                ),
            },
        }
    } else {
        None
    }
}

/// `n` attribute declaration records from `p`, accumulating byte offsets in
/// declaration order.  Yields the attributes, the position after them, and
/// the total accumulated size (the vertex stride).
pub open spec fn sp_attrs(b: Seq<u8>, p: int, n: nat, off: nat) -> Option<
    (Seq<Attribute>, int, nat),
>
    decreases n,
{
    if n == 0 {
        Some((Seq::empty(), p, off))
    } else {
        match sp_attr(b, p, off) {
            None => None,
            Some((a, p1)) => match sp_attrs(b, p1, (n - 1) as nat, off + spec_format_byte_size(
                a.format,
            )) {
                None => None,
                Some((rest, p2, off2)) => Some((seq![a] + rest, p2, off2)),
            },
        }
    }
}

/// The parsed shape of one vertex buffer: its attributes, stride, vertex
/// count, and the byte window of its payload.
pub ghost struct VertexShape {
    pub attrs: Seq<Attribute>,
    pub stride: nat,
    pub count: nat,
    pub off: nat,
    pub len: nat,
}

/// A vertex-buffer declaration at `p`: a declaration count, that many
/// attribute records, a vertex count, then exactly `count * stride` payload
/// bytes, taken as a window without copying.
pub open spec fn sp_vertex_buffer(b: Seq<u8>, p: int) -> Option<(VertexShape, int)> {
    match sp_u8(b, p) {
        None => None,
        Some((decl, p1)) => match sp_attrs(b, p1, decl as nat, 0) {
            None => None,
            Some((attrs, p2, stride)) => match sp_u32(b, p2) {
                None => None,
                Some((count, p3)) => if p3 + count * stride <= b.len() {
                    Some(
                        (
                            VertexShape {
                                attrs,
                                stride,
                                count: count as nat,
                                off: p3 as nat,
                                len: (count * stride) as nat,
                            },
                            p3 + count * stride,
                        ),
                    )
                } else {
                    None
                },
            },
        },
    }
}

/// The parsed shape of one index buffer: its format, index count, and the
/// byte window of its payload.
pub ghost struct IndexShape {
    pub format: IndexFormat,
    pub count: nat,
    pub off: nat,
    pub len: nat,
}

/// An index buffer at `p`: a format byte (0 or 1), an index count, then
/// exactly `count * byte_size` payload bytes, taken as a window.
pub open spec fn sp_index_buffer(b: Seq<u8>, p: int) -> Option<(IndexShape, int)> {
    match sp_u8(b, p) {
        None => None,
        Some((f, p1)) => {
            let format: Option<IndexFormat> = if f == 0 {
                Some(IndexFormat::U16)
            } else if f == 1 {
                Some(IndexFormat::U32)
            } else {
                None
            };
            match format {
                None => None,
                Some(format) => match sp_u32(b, p1) {
                    None => None,
                    Some((count, p2)) => {
                        let size = spec_index_byte_size(format) as int;
                        if p2 + count * size <= b.len() {
                            Some(
                                (
                                    IndexShape {
                                        format,
                                        count: count as nat,
                                        off: p2 as nat,
                                        len: (count * size) as nat,
                                    },
                                    p2 + count * size,
                                ),
                            )
                        } else {
                            None
                        }
                    },
                },
            }
        },
    }
}

/// The parsed shape of one submesh ("area"): its name and the sub-window of
/// the mesh's index payload it draws, always as triangles.
pub ghost struct AreaShape {
    pub name: Seq<char>,
    pub index_count: nat,
    pub off: nat,
    pub len: nat,
}

/// One area record at `p`: a name, a start index and a triangle count, six
/// 32-bit bound floats that are skipped, and the derived sub-window of the
/// index payload, which must lie inside it.
pub open spec fn sp_area(b: Seq<u8>, p: int, ib: IndexShape) -> Option<(AreaShape, int)> {
    match sp_name(b, p) {
        None => None,
        Some((nm, p1)) => match sp_u32(b, p1) {
            None => None,
            Some((start, p2)) => match sp_u32(b, p2) {
                None => None,
                Some((cnt, p3)) => if p3 + 24 <= b.len() {
                    let size = spec_index_byte_size(ib.format) as int;
                    let off = ib.off + size * start;
                    let len = size * (3 * cnt);
                    if off + len <= ib.off + ib.len {
                        Some(
                            (
                                AreaShape {
                                    name: nm,
                                    index_count: (3 * cnt) as nat,
                                    off: off as nat,
                                    len: len as nat,
                                },
                                p3 + 24,
                            ),
                        )
                    } else {
                        None
                    }
                } else {
                    None
                },
            },
        },
    }
}

/// `n` area records from `p`.
pub open spec fn sp_areas(b: Seq<u8>, p: int, n: nat, ib: IndexShape) -> Option<
    (Seq<AreaShape>, int),
>
    decreases n,
{
    if n == 0 {
        Some((Seq::empty(), p))
    } else {
        match sp_area(b, p, ib) {
            None => None,
            Some((a, p1)) => match sp_areas(b, p1, (n - 1) as nat, ib) {
                None => None,
                Some((rest, p2)) => Some((seq![a] + rest, p2)),
            },
        }
    }
}

/// `n` length-prefixed names from `p`.
pub open spec fn sp_names(b: Seq<u8>, p: int, n: nat) -> Option<(Seq<Seq<char>>, int)>
    decreases n,
{
    if n == 0 {
        Some((Seq::empty(), p))
    } else {
        match sp_name(b, p) {
            None => None,
            Some((nm, p1)) => match sp_names(b, p1, (n - 1) as nat) {
                None => None,
                Some((rest, p2)) => Some((seq![nm] + rest, p2)),
            },
        }
    }
}

/// The bone-binding section: a count byte and that many names, read and
/// discarded.
pub open spec fn sp_bone_bindings(b: Seq<u8>, p: int) -> Option<(Seq<Seq<char>>, int)> {
    match sp_u8(b, p) {
        None => None,
        Some((n, p1)) => sp_names(b, p1, n as nat),
    }
}

/// The parsed shape of one blend shape: a name and its own vertex and index
/// buffers, which become one extra mesh with a points-topology submesh.
pub ghost struct BlendShapeRec {
    pub name: Seq<char>,
    pub vb: VertexShape,
    pub ib: IndexShape,
}

/// One blend-shape record at `p`.
pub open spec fn sp_blend(b: Seq<u8>, p: int) -> Option<(BlendShapeRec, int)> {
    match sp_name(b, p) {
        None => None,
        Some((nm, p1)) => match sp_vertex_buffer(b, p1) {
            None => None,
            Some((vb, p2)) => match sp_index_buffer(b, p2) {
                None => None,
                Some((ib, p3)) => Some((BlendShapeRec { name: nm, vb, ib }, p3)),
            },
        },
    }
}

/// `n` blend-shape records from `p`.
pub open spec fn sp_blends(b: Seq<u8>, p: int, n: nat) -> Option<(Seq<BlendShapeRec>, int)>
    decreases n,
{
    if n == 0 {
        Some((Seq::empty(), p))
    } else {
        match sp_blend(b, p) {
            None => None,
            Some((bs, p1)) => match sp_blends(b, p1, (n - 1) as nat) {
                None => None,
                Some((rest, p2)) => Some((seq![bs] + rest, p2)),
            },
        }
    }
}

/// The parsed core of one mesh entry: name, vertex buffer, index buffer,
/// and areas.
pub ghost struct MeshCore {
    pub name: Seq<char>,
    pub vb: VertexShape,
    pub ib: IndexShape,
    pub areas: Seq<AreaShape>,
}

/// The parsed shape of one full mesh entry: its core and its blend shapes
/// (bone bindings are read and discarded).
pub ghost struct MeshShape {
    pub core: MeshCore,
    pub blends: Seq<BlendShapeRec>,
}

/// The core of a mesh entry at `p`: name, vertex buffer, index buffer, an
/// area count and its areas.
pub open spec fn sp_mesh_core(b: Seq<u8>, p: int) -> Option<(MeshCore, int)> {
    match sp_name(b, p) {
        None => None,
        Some((nm, p1)) => match sp_vertex_buffer(b, p1) {
            None => None,
            Some((vb, p2)) => match sp_index_buffer(b, p2) {
                None => None,
                Some((ib, p3)) => match sp_u8(b, p3) {
                    None => None,
                    Some((ac, p4)) => match sp_areas(b, p4, ac as nat, ib) {
                        None => None,
                        Some((areas, p5)) => Some((MeshCore { name: nm, vb, ib, areas }, p5)),
                    },
                },
            },
        },
    }
}

/// One full mesh entry at `p`: its core, the bone-binding section, and a
/// 16-bit blend-shape count with its records.
pub open spec fn sp_mesh(b: Seq<u8>, p: int) -> Option<(MeshShape, int)> {
    match sp_mesh_core(b, p) {
        None => None,
        Some((core, p5)) => match sp_bone_bindings(b, p5) {
            None => None,
            Some((bones, p6)) => match sp_u16(b, p6) {
                None => None,
                Some((bc, p7)) => match sp_blends(b, p7, bc as nat) {
                    None => None,
                    Some((blends, p8)) => Some((MeshShape { core, blends }, p8)),
                },
            },
        },
    }
}

/// `n` mesh entries from `p`.
pub open spec fn sp_meshes(b: Seq<u8>, p: int, n: nat) -> Option<(Seq<MeshShape>, int)>
    decreases n,
{
    if n == 0 {
        Some((Seq::empty(), p))
    } else {
        match sp_mesh(b, p) {
            None => None,
            Some((m, p1)) => match sp_meshes(b, p1, (n - 1) as nat) {
                None => None,
                Some((rest, p2)) => Some((seq![m] + rest, p2)),
            },
        }
    }
}

/// The whole container: a version byte that must be 0, a mesh count, and
/// that many mesh entries.
pub open spec fn sp_asset(b: Seq<u8>) -> Option<Seq<MeshShape>> {
    match sp_u8(b, 0) {
        None => None,
        Some((v, p0)) => if v != 0 {
            None
        } else {
            match sp_u8(b, p0) {
                None => None,
                Some((n, p1)) => match sp_meshes(b, p1, n as nat) {
                    None => None,
                    Some((shapes, p2)) => Some(shapes),
                },
            }
        },
    }
}

/// A mesh value carries a parsed vertex buffer: its count, attributes,
/// single layout, and single buffer window over the input.
pub open spec fn vb_matches(m: crate::mesh::Mesh, vb: VertexShape, input: Arc<Buffer>) -> bool {
    &&& m.vertex_count == vb.count
    &&& m.descriptor.attributes@ == vb.attrs
    &&& m.descriptor.layouts@.len() == 1
    &&& m.descriptor.layouts@[0].stride == vb.stride
    &&& m.buffers@.len() == 1
    &&& m.buffers@[0].buffer == input
    &&& m.buffers@[0].offset == vb.off
    &&& m.buffers@[0].length == vb.len
    &&& m.buffers@[0].wf()
}

/// A submesh value carries a parsed area: its name, index sub-window,
/// count, format, and triangles topology.
pub open spec fn submesh_matches_area(
    s: crate::mesh::Submesh,
    a: AreaShape,
    format: IndexFormat,
    input: Arc<Buffer>,
) -> bool {
    &&& s.name@ == a.name
    &&& s.index_count == a.index_count
    &&& s.index_format == format
    &&& s.geometry == Geometry::Triangles
    &&& s.view.buffer == input
    &&& s.view.offset == a.off
    &&& s.view.length == a.len
    &&& s.wf()
}

/// A mesh value carries a parsed mesh core.
pub open spec fn mesh_matches_core(m: crate::mesh::Mesh, c: MeshCore, input: Arc<Buffer>) -> bool {
    &&& m.name@ == c.name
    &&& vb_matches(m, c.vb, input)
    &&& m.submeshes@.len() == c.areas.len()
    &&& forall|i: int|
        0 <= i < c.areas.len() ==> submesh_matches_area(
            #[trigger] m.submeshes@[i],
            c.areas[i],
            c.ib.format,
            input,
        )
}

/// A mesh value carries a parsed blend shape: its own buffers and one
/// points-topology submesh over the whole index window.
pub open spec fn mesh_matches_blend(
    m: crate::mesh::Mesh,
    bs: BlendShapeRec,
    input: Arc<Buffer>,
) -> bool {
    &&& m.name@ == bs.name
    &&& vb_matches(m, bs.vb, input)
    &&& m.submeshes@.len() == 1
    &&& m.submeshes@[0].name@ == bs.name
    &&& m.submeshes@[0].index_count == bs.ib.count
    &&& m.submeshes@[0].index_format == bs.ib.format
    &&& m.submeshes@[0].geometry == Geometry::Points
    &&& m.submeshes@[0].view.buffer == input
    &&& m.submeshes@[0].view.offset == bs.ib.off
    &&& m.submeshes@[0].view.length == bs.ib.len
    &&& m.submeshes@[0].wf()
}

/// The object list one mesh entry contributes: the mesh itself, then one
/// mesh per blend shape.
pub open spec fn objects_match_shape(
    objs: Seq<crate::asset::Object>,
    sh: MeshShape,
    input: Arc<Buffer>,
) -> bool {
    &&& objs.len() == 1 + sh.blends.len()
    &&& (objs[0] matches crate::asset::Object::Mesh(m) && mesh_matches_core(m, sh.core, input))
    &&& forall|j: int|
        0 <= j < sh.blends.len() ==> ((#[trigger] objs[j + 1]) matches crate::asset::Object::Mesh(
            m,
        ) && mesh_matches_blend(m, sh.blends[j], input))
}

/// The whole object list carries the whole list of parsed mesh entries, in
/// order.
pub open spec fn objects_match(
    objs: Seq<crate::asset::Object>,
    shapes: Seq<MeshShape>,
    input: Arc<Buffer>,
) -> bool
    decreases shapes.len(),
{
    if shapes.len() == 0 {
        objs.len() == 0
    } else {
        let k = 1 + shapes[0].blends.len() as int;
        &&& objs.len() >= k
        &&& objects_match_shape(objs.take(k), shapes[0], input)
        &&& objects_match(objs.skip(k), shapes.skip(1), input)
    }
}

/// One byte of the input at `pos`.
fn read_u8(input: &Arc<Buffer>, pos: usize) -> (r: Option<(u8, usize)>)
    ensures
        r is Some <==> sp_u8(input@, pos as int) is Some,
        r matches Some((v, q)) ==> sp_u8(input@, pos as int) == Some((v, q as int)),
{
    let s = input.as_slice();
    if pos < s.len() {
        Some((*vstd::slice::slice_index_get(s, pos), pos + 1))
    } else {
        None
    }
}

/// Two little-endian bytes of the input at `pos`.
fn read_u16(input: &Arc<Buffer>, pos: usize) -> (r: Option<(u16, usize)>)
    ensures
        r is Some <==> sp_u16(input@, pos as int) is Some,
        r matches Some((v, q)) ==> sp_u16(input@, pos as int) == Some((v as int, q as int)),
{
    let s = input.as_slice();
    let n = s.len();
    if pos < n && 2 <= n - pos {
        let v = <u16 as crate::typed_view::Element>::decode_at(s, pos);
        proof {
            assert(0 <= spec_le16(input@.subrange(pos as int, pos + 2)) < 0x10000);
        }
        Some((v, pos + 2))
    } else {
        None
    }
}

/// Four little-endian bytes of the input at `pos`.
fn read_u32(input: &Arc<Buffer>, pos: usize) -> (r: Option<(u32, usize)>)
    ensures
        r is Some <==> sp_u32(input@, pos as int) is Some,
        r matches Some((v, q)) ==> sp_u32(input@, pos as int) == Some((v as int, q as int)),
{
    let s = input.as_slice();
    let n = s.len();
    if pos < n && 4 <= n - pos {
        let v = <u32 as crate::typed_view::Element>::decode_at(s, pos);
        proof {
            assert(0 <= spec_le32(input@.subrange(pos as int, pos + 4)) < 0x1_0000_0000);
        }
        Some((v, pos + 4))
    } else {
        None
    }
}

/// A length-prefixed UTF-8 name of the input at `pos`.
pub fn read_string(input: &Arc<Buffer>, pos: usize) -> (r: Option<(String, usize)>)
    ensures
        r is Some <==> sp_name(input@, pos as int) is Some,
        r matches Some((s, q)) ==> sp_name(input@, pos as int) == Some((s@, q as int)),
{
    let (n, p1) = match read_u8(input, pos) {
        Some(x) => x,
        None => {
            return None;
        },
    };
    let s = input.as_slice();
    let total = s.len();
    if p1 <= total && (n as usize) <= total - p1 {
        let raw = vstd::slice::slice_subrange(s, p1, p1 + n as usize);
        let bytes = slice_to_vec(raw);
        match string_from_utf8(bytes) {
            Some(text) => Some((text, p1 + n as usize)),
            None => None,
        }
    } else {
        None
    }
}

/// `n` attribute declaration records at `p1`, with offsets accumulated
/// from zero; yields the attributes, the next position, and the total size.
fn read_attrs(input: &Arc<Buffer>, p1: usize, n: usize) -> (r: Option<
    (Vec<Attribute>, usize, usize),
>)
    requires
        n <= 255,
    ensures
        r is Some <==> sp_attrs(input@, p1 as int, n as nat, 0) is Some,
        r matches Some((v, q, s)) ==> sp_attrs(input@, p1 as int, n as nat, 0) == Some(
            (v@, q as int, s as nat),
        ),
{
    let ghost b = input@;
    let mut attrs: Vec<Attribute> = Vec::new();
    let mut cursor: usize = p1;
    let mut size: usize = 0;
    let mut i: usize = 0;
    while i < n
        invariant
            i <= n,
            n <= 255,
            input@ == b,
            attrs@.len() == i,
            size <= 36 * i,
            match sp_attrs(b, cursor as int, (n - i) as nat, size as nat) {
                Some((rest, pe, offe)) => sp_attrs(b, p1 as int, n as nat, 0) == Some::<
                    (Seq<Attribute>, int, nat),
                >((attrs@ + rest, pe, offe)),
                None => sp_attrs(b, p1 as int, n as nat, 0) is None,
            },
        decreases n - i,
    {
        let step = read_one_attr(input, cursor, size);
        match step {
            None => {
                proof {
                    assert(sp_attrs(b, cursor as int, (n - i) as nat, size as nat) is None);
                }
                return None;
            },
            Some((attribute, q3)) => {
                let ghost old_attrs = attrs@;
                let step_size = attribute.format.byte_size();
                attrs.push(attribute);
                size = size + step_size;
                cursor = q3;
                i = i + 1;
                proof {
                    match sp_attrs(b, cursor as int, (n - i) as nat, size as nat) {
                        Some((rest, pe, offe)) => {
                            assert(old_attrs + (seq![attribute] + rest) =~= attrs@ + rest);
                        },
                        None => {},
                    }
                }
            },
        }
    }
    proof {
        assert(attrs@ + Seq::<Attribute>::empty() =~= attrs@);
    }
    Some((attrs, cursor, size))
}

/// One attribute declaration record at `p`, given the offset accumulated so
/// far.
fn read_one_attr(input: &Arc<Buffer>, p: usize, off: usize) -> (r: Option<(Attribute, usize)>)
    ensures
        r is Some <==> sp_attr(input@, p as int, off as nat) is Some,
        r matches Some((x, qq)) ==> sp_attr(input@, p as int, off as nat) == Some(
            (x, qq as int),
        ),
{
    let (usage, q1) = match read_u8(input, p) {
        Some(x) => x,
        None => {
            return None;
        },
    };
    let (_reserved, q2) = match read_u8(input, q1) {
        Some(x) => x,
        None => {
            return None;
        },
    };
    let (packed, q3) = match read_u8(input, q2) {
        Some(x) => x,
        None => {
            return None;
        },
    };
    let name = match usage_name(usage) {
        Some(x) => x,
        None => {
            return None;
        },
    };
    let format = match packed_format(packed) {
        Some(x) => x,
        None => {
            return None;
        },
    };
    Some((Attribute { name, format, offset: off, buffer_index: 0 }, q3))
}

/// The vertex-buffer declaration at `pos`: attribute records with
/// accumulated offsets, the vertex count, and the payload sliced out of the
/// input as a window without copying.
fn read_vertex_buffer(input: &Arc<Buffer>, pos: usize) -> (r: Option<
    ((usize, Arc<BufferView>, Descriptor), usize),
>)
    ensures
        r is Some <==> sp_vertex_buffer(input@, pos as int) is Some,
        r matches Some(((count, view, descriptor), p)) ==> {
            let (vb, p2) = sp_vertex_buffer(input@, pos as int).unwrap();
            &&& p == p2
            &&& count == vb.count
            &&& descriptor.attributes@ == vb.attrs
            &&& descriptor.layouts@.len() == 1
            &&& descriptor.layouts@[0].stride == vb.stride
            &&& view.buffer == *input
            &&& view.offset == vb.off
            &&& view.length == vb.len
            &&& view.wf()
        },
{
    let (decl, p1) = match read_u8(input, pos) {
        Some(x) => x,
        None => {
            return None;
        },
    };
    let (attrs, p2, size) = match read_attrs(input, p1, decl as usize) {
        Some(x) => x,
        None => {
            return None;
        },
    };
    let (count, p3) = match read_u32(input, p2) {
        Some(x) => x,
        None => {
            return None;
        },
    };
    let total = input.len();
    let payload: usize = match (count as usize).checked_mul(size) {
        Some(x) => x,
        None => {
            proof {
                assert((count as int) * (size as int) >= 0) by (nonlinear_arith)
                    requires
                        count >= 0,
                        size >= 0,
                ;
            }
            return None;
        },
    };
    if p3 > total || payload > total - p3 {
        return None;
    }
    let view = BufferView::new(None, arc_clone(input), p3, payload);
    let descriptor = Descriptor { attributes: attrs, layouts: vec![BufferLayout { stride: size }] };
    Some(((count as usize, view, descriptor), p3 + payload))
}

/// The index buffer at `pos`: its format byte and count, and the payload
/// sliced out of the input as a window without copying.
fn read_index_buffer(input: &Arc<Buffer>, pos: usize) -> (r: Option<
    ((usize, Arc<BufferView>, IndexFormat), usize),
>)
    ensures
        r is Some <==> sp_index_buffer(input@, pos as int) is Some,
        r matches Some(((count, view, format), p)) ==> {
            let (ib, p2) = sp_index_buffer(input@, pos as int).unwrap();
            &&& p == p2
            &&& count == ib.count
            &&& format == ib.format
            &&& view.buffer == *input
            &&& view.offset == ib.off
            &&& view.length == ib.len
            &&& view.wf()
        },
{
    let (f, p1) = match read_u8(input, pos) {
        Some(x) => x,
        None => {
            return None;
        },
    };
    let format = if f == 0 {
        IndexFormat::U16
    } else if f == 1 {
        IndexFormat::U32
    } else {
        return None;
    };
    let (count, p2) = match read_u32(input, p1) {
        Some(x) => x,
        None => {
            return None;
        },
    };
    let size = format.byte_size();
    let total = input.len();
    let payload: usize = match (count as usize).checked_mul(size) {
        Some(x) => x,
        None => {
            proof {
                assert((count as int) * (size as int) >= 0) by (nonlinear_arith)
                    requires
                        count >= 0,
                        size >= 0,
                ;
            }
            return None;
        },
    };
    if p2 > total || payload > total - p2 {
        return None;
    }
    let view = BufferView::new(None, arc_clone(input), p2, payload);
    Some(((count as usize, view, format), p2 + payload))
}

/// The scalar encoding named by a five-bit code.
fn scalar_from_code(c: u8) -> (r: Option<Scalar>)
    ensures
        r == spec_scalar_from_code(c as int),
{
    match c {
        0u8 => Some(Scalar::I8),
        1u8 => Some(Scalar::I16),
        2u8 => Some(Scalar::I32),
        3u8 => Some(Scalar::F16),
        4u8 => Some(Scalar::F32),
        8u8 => Some(Scalar::U8),
        9u8 => Some(Scalar::U16),
        10u8 => Some(Scalar::U32),
        16u8 => Some(Scalar::I8Normalized),
        17u8 => Some(Scalar::I16Normalized),
        24u8 => Some(Scalar::U8Normalized),
        25u8 => Some(Scalar::U16Normalized),
        _ => None,
    }
}

/// The attribute semantic named by a usage byte.
fn usage_name(u: u8) -> (r: Option<AttributeName>)
    ensures
        r == spec_usage_name(u as int),
{
    match u {
        0u8 => Some(AttributeName::Position),
        1u8 => Some(AttributeName::Color),
        2u8 => Some(AttributeName::Normal),
        3u8 => Some(AttributeName::Tangent),
        4u8 => Some(AttributeName::Binormal),
        5u8 => Some(AttributeName::TextureCoordinate),
        6u8 => Some(AttributeName::JointWeights),
        7u8 => Some(AttributeName::JointIndices),
        _ => None,
    }
}

/// The element format a packed type byte encodes.
fn packed_format(t: u8) -> (r: Option<Format>)
    ensures
        r == spec_packed_format(t as int),
{
    let elems: usize = (t / 32) as usize + 1;
    match crate::vertex::Width::from_integer(elems) {
        None => None,
        Some(w) => match scalar_from_code(t % 32) {
            None => None,
            Some(s) => Some(Format(s, w)),
        },
    }
}

/// One area record at `pos`, resolved against the mesh's index window.
fn read_mesh_area(
    input: &Arc<Buffer>,
    pos: usize,
    ib_view: &Arc<BufferView>,
    format: IndexFormat,
    Ghost(ib): Ghost<IndexShape>,
) -> (r: Option<(crate::mesh::Submesh, usize)>)
    requires
        ib_view.wf(),
        ib_view.buffer == *input,
        ib.format == format,
        ib.off == ib_view.offset,
        ib.len == ib_view.length,
    ensures
        r is Some <==> sp_area(input@, pos as int, ib) is Some,
        r matches Some((s, q)) ==> {
            let (a, q2) = sp_area(input@, pos as int, ib).unwrap();
            q == q2 && submesh_matches_area(s, a, format, *input)
        },
{
    let ghost blen = input@.len();
    let total = input.len();
    proof {
        assert(ib.off + ib.len <= blen);
    }
    let (name, p1) = match read_string(input, pos) {
        Some(x) => x,
        None => {
            return None;
        },
    };
    let (start, p2) = match read_u32(input, p1) {
        Some(x) => x,
        None => {
            return None;
        },
    };
    let (cnt, p3) = match read_u32(input, p2) {
        Some(x) => x,
        None => {
            return None;
        },
    };
    if p3 > total || 24 > total - p3 {
        return None;
    }
    let p4 = p3 + 24;
    let size = format.byte_size();
    let scaled = match size.checked_mul(start as usize) {
        Some(x) => x,
        None => {
            return None;
        },
    };
    let off = match ib_view.offset.checked_add(scaled) {
        Some(x) => x,
        None => {
            return None;
        },
    };
    let three = match (cnt as usize).checked_mul(3) {
        Some(x) => x,
        None => {
            proof {
                assert((cnt as int) * (size as int) * 3 >= (cnt as int) * 3) by (nonlinear_arith)
                    requires
                        size >= 1,
                        cnt >= 0,
                ;
            }
            return None;
        },
    };
    let len = match size.checked_mul(three) {
        Some(x) => x,
        None => {
            return None;
        },
    };
    let end_w = match off.checked_add(len) {
        Some(x) => x,
        None => {
            return None;
        },
    };
    let ib_end = ib_view.offset + ib_view.length;
    if end_w > ib_end {
        return None;
    }
    proof {
        assert((size as int) * (3 * (cnt as int)) == (3 * (cnt as int)) * (size as int))
            by (nonlinear_arith);
    }
    let view = BufferView::new(None, arc_clone(input), off, len);
    Some(
        (
            crate::mesh::Submesh {
                name,
                view,
                index_count: three,
                index_format: format,
                geometry: Geometry::Triangles,
            },
            p4,
        ),
    )
}

/// `n` area records at `p4`, resolved against the mesh's index window.
fn read_areas(
    input: &Arc<Buffer>,
    p4: usize,
    n: usize,
    ib_view: &Arc<BufferView>,
    format: IndexFormat,
    Ghost(ib): Ghost<IndexShape>,
) -> (r: Option<(Vec<crate::mesh::Submesh>, usize)>)
    requires
        ib_view.wf(),
        ib_view.buffer == *input,
        ib.format == format,
        ib.off == ib_view.offset,
        ib.len == ib_view.length,
    ensures
        r is Some <==> sp_areas(input@, p4 as int, n as nat, ib) is Some,
        r matches Some((subs, q)) ==> {
            let (areas, q2) = sp_areas(input@, p4 as int, n as nat, ib).unwrap();
            &&& q == q2
            &&& subs@.len() == areas.len()
            &&& forall|k: int|
                0 <= k < areas.len() ==> submesh_matches_area(
                    #[trigger] subs@[k],
                    areas[k],
                    format,
                    *input,
                )
        },
{
    let ghost b = input@;
    let mut subs: Vec<crate::mesh::Submesh> = Vec::new();
    let ghost mut recs: Seq<AreaShape> = Seq::empty();
    let mut cursor: usize = p4;
    let mut i: usize = 0;
    while i < n
        invariant
            i <= n,
            input@ == b,
            ib_view.wf(),
            ib_view.buffer == *input,
            ib.format == format,
            ib.off == ib_view.offset,
            ib.len == ib_view.length,
            subs@.len() == i,
            recs.len() == i,
            forall|k: int|
                0 <= k < i ==> submesh_matches_area(#[trigger] subs@[k], recs[k], format, *input),
            match sp_areas(b, cursor as int, (n - i) as nat, ib) {
                Some((rest, pe)) => sp_areas(b, p4 as int, n as nat, ib) == Some::<
                    (Seq<AreaShape>, int),
                >((recs + rest, pe)),
                None => sp_areas(b, p4 as int, n as nat, ib) is None,
            },
        decreases n - i,
    {
        let step = read_mesh_area(input, cursor, ib_view, format, Ghost(ib));
        match step {
            None => {
                proof {
                    assert(sp_areas(b, cursor as int, (n - i) as nat, ib) is None);
                }
                return None;
            },
            Some((s, q)) => {
                let ghost a = sp_area(b, cursor as int, ib).unwrap().0;
                subs.push(s);
                proof {
                    recs = recs.push(a);
                }
                cursor = q;
                i = i + 1;
                proof {
                    assert(recs =~= recs.subrange(0, recs.len() - 1).push(a));
                    match sp_areas(b, cursor as int, (n - i) as nat, ib) {
                        Some((rest, pe)) => {
                            assert((recs.subrange(0, recs.len() - 1) + (seq![a] + rest)) =~= (recs
                                + rest));
                        },
                        None => {},
                    }
                }
            },
        }
    }
    proof {
        assert(recs + Seq::<AreaShape>::empty() =~= recs);
    }
    Some((subs, cursor))
}

/// One mesh entry at `pos`: name, vertex buffer, index buffer, and its
/// areas, built as a mesh whose windows alias the input without copying.
pub fn read_mesh(input: &Arc<Buffer>, pos: usize) -> (r: Option<(crate::mesh::Mesh, usize)>)
    ensures
        r is Some <==> sp_mesh_core(input@, pos as int) is Some,
        r matches Some((m, q)) ==> {
            let (c, q2) = sp_mesh_core(input@, pos as int).unwrap();
            q == q2 && mesh_matches_core(m, c, *input) && m.wf()
        },
{
    let (name, p1) = match read_string(input, pos) {
        Some(x) => x,
        None => {
            return None;
        },
    };
    let ((vertex_count, vertex_buffer, descriptor), p2) = match read_vertex_buffer(input, p1) {
        Some(x) => x,
        None => {
            return None;
        },
    };
    let ((_, index_buffer, index_format), p3) = match read_index_buffer(input, p2) {
        Some(x) => x,
        None => {
            return None;
        },
    };
    let ghost ib = sp_index_buffer(input@, p2 as int).unwrap().0;
    let (area_count, p4) = match read_u8(input, p3) {
        Some(x) => x,
        None => {
            return None;
        },
    };
    let (submeshes, p5) = match read_areas(
        input,
        p4,
        area_count as usize,
        &index_buffer,
        index_format,
        Ghost(ib),
    ) {
        Some(x) => x,
        None => {
            return None;
        },
    };
    let mesh = crate::mesh::Mesh {
        name,
        vertex_count,
        descriptor,
        buffers: vec![vertex_buffer],
        submeshes,
    };
    Some((mesh, p5))
}

/// The bone-binding section at `pos`: a count and that many names, which
/// the importer reads and hands back without using them.
pub fn read_bone_bindings(input: &Arc<Buffer>, pos: usize) -> (r: Option<(Vec<String>, usize)>)
    ensures
        r is Some <==> sp_bone_bindings(input@, pos as int) is Some,
        r matches Some((v, q)) ==> sp_bone_bindings(input@, pos as int) == Some(
            (v@.map_values(|s: String| s@), q as int),
        ),
{
    let (n, p1) = match read_u8(input, pos) {
        Some(x) => x,
        None => {
            return None;
        },
    };
    let ghost b = input@;
    let count: usize = n as usize;
    let mut names: Vec<String> = Vec::new();
    let mut cursor: usize = p1;
    let mut i: usize = 0;
    while i < count
        invariant
            i <= count,
            input@ == b,
            names@.len() == i,
            sp_bone_bindings(b, pos as int) == sp_names(b, p1 as int, count as nat),
            match sp_names(b, cursor as int, (count - i) as nat) {
                Some((rest, pe)) => sp_names(b, p1 as int, count as nat) == Some::<
                    (Seq<Seq<char>>, int),
                >((names@.map_values(|s: String| s@) + rest, pe)),
                None => sp_names(b, p1 as int, count as nat) is None,
            },
        decreases count - i,
    {
        let step = read_string(input, cursor);
        match step {
            None => {
                proof {
                    assert(sp_names(b, cursor as int, (count - i) as nat) is None);
                }
                return None;
            },
            Some((s, q)) => {
                let ghost old_names = names@;
                let ghost cs = s@;
                names.push(s);
                cursor = q;
                i = i + 1;
                proof {
                    assert(names@.map_values(|s: String| s@) =~= old_names.map_values(
                        |s: String| s@,
                    ).push(cs));
                    match sp_names(b, cursor as int, (count - i) as nat) {
                        Some((rest, pe)) => {
                            assert((old_names.map_values(|s: String| s@) + (seq![cs] + rest)) =~= (
                            names@.map_values(|s: String| s@) + rest));
                        },
                        None => {},
                    }
                }
            },
        }
    }
    proof {
        assert(names@.map_values(|s: String| s@) + Seq::<Seq<char>>::empty() =~= names@.map_values(
            |s: String| s@,
        ));
    }
    Some((names, cursor))
}

/// A mesh-binding list at `pos`: a count byte and that many one-byte mesh
/// indices.
pub open spec fn sp_mesh_bindings(b: Seq<u8>, p: int) -> Option<(Seq<u8>, int)> {
    match sp_u8(b, p) {
        None => None,
        Some((n, p1)) => if p1 + n <= b.len() {
            Some((b.subrange(p1, p1 + n), p1 + n))
        } else {
            None
        },
    }
}

/// The mesh-binding list at `pos`, widened to indices.
pub fn read_mesh_bindings(input: &Arc<Buffer>, pos: usize) -> (r: Option<(Vec<usize>, usize)>)
    ensures
        r is Some <==> sp_mesh_bindings(input@, pos as int) is Some,
        r matches Some((v, q)) ==> {
            let (raw, q2) = sp_mesh_bindings(input@, pos as int).unwrap();
            &&& q == q2
            &&& v@.len() == raw.len()
            &&& forall|k: int| 0 <= k < raw.len() ==> v@[k] == raw[k]
        },
{
    let (n, p1) = match read_u8(input, pos) {
        Some(x) => x,
        None => {
            return None;
        },
    };
    let total = input.len();
    let count: usize = n as usize;
    if p1 > total || count > total - p1 {
        return None;
    }
    let s = input.as_slice();
    let mut out: Vec<usize> = Vec::new();
    let mut i: usize = 0;
    while i < count
        invariant
            i <= count,
            p1 + count <= usize::MAX,
            p1 + count <= input@.len(),
            s@ == input@,
            out@.len() == i,
            forall|k: int| 0 <= k < i ==> out@[k] == input@[p1 + k],
        decreases count - i,
    {
        let v = *vstd::slice::slice_index_get(s, p1 + i);
        out.push(v as usize);
        i = i + 1;
    }
    Some((out, p1 + count))
}

/// One blend-shape record at `pos`: a name and its own vertex and index
/// buffers, built as one extra mesh with a points-topology submesh over the
/// whole index window.
fn read_blend_shape(input: &Arc<Buffer>, pos: usize) -> (r: Option<(crate::mesh::Mesh, usize)>)
    ensures
        r is Some <==> sp_blend(input@, pos as int) is Some,
        r matches Some((m, q)) ==> {
            let (bs, q2) = sp_blend(input@, pos as int).unwrap();
            q == q2 && mesh_matches_blend(m, bs, *input) && m.wf()
        },
{
    let (name, p1) = match read_string(input, pos) {
        Some(x) => x,
        None => {
            return None;
        },
    };
    let ((vertex_count, vertex_buffer, descriptor), p2) = match read_vertex_buffer(input, p1) {
        Some(x) => x,
        None => {
            return None;
        },
    };
    let ((index_count, index_buffer, index_format), p3) = match read_index_buffer(input, p2) {
        Some(x) => x,
        None => {
            return None;
        },
    };
    proof {
        let ib = sp_index_buffer(input@, p2 as int).unwrap().0;
        assert((ib.count as int) * (spec_index_byte_size(ib.format) as int) == ib.len as int);
    }
    let submesh = crate::mesh::Submesh {
        name: name.clone(),
        view: index_buffer,
        index_count,
        index_format,
        geometry: Geometry::Points,
    };
    let mesh = crate::mesh::Mesh {
        name,
        vertex_count,
        descriptor,
        buffers: vec![vertex_buffer],
        submeshes: vec![submesh],
    };
    Some((mesh, p3))
}

/// The blend-shape section at `pos`: a 16-bit count and that many records,
/// one extra mesh each.
pub fn read_blend_shapes(input: &Arc<Buffer>, pos: usize) -> (r: Option<
    (Vec<crate::mesh::Mesh>, usize),
>)
    ensures
        r is Some <==> (match sp_u16(input@, pos as int) {
            None => None::<(Seq<BlendShapeRec>, int)>,
            Some((bc, p7)) => sp_blends(input@, p7, bc as nat),
        }) is Some,
        r matches Some((v, q)) ==> (match sp_u16(input@, pos as int) {
            None => false,
            Some((bc, p7)) => {
                let (recs, q2) = sp_blends(input@, p7, bc as nat).unwrap();
                &&& q == q2
                &&& v@.len() == recs.len()
                &&& forall|k: int|
                    0 <= k < recs.len() ==> mesh_matches_blend(#[trigger] v@[k], recs[k], *input)
                    && v@[k].wf()
            },
        }),
{
    let (bc, p7) = match read_u16(input, pos) {
        Some(x) => x,
        None => {
            return None;
        },
    };
    let ghost b = input@;
    let count: usize = bc as usize;
    let mut meshes: Vec<crate::mesh::Mesh> = Vec::new();
    let ghost mut recs: Seq<BlendShapeRec> = Seq::empty();
    let mut cursor: usize = p7;
    let mut i: usize = 0;
    while i < count
        invariant
            i <= count,
            input@ == b,
            sp_u16(b, pos as int) == Some::<(int, int)>((bc as int, p7 as int)),
            count == bc,
            meshes@.len() == i,
            recs.len() == i,
            forall|k: int|
                0 <= k < i ==> mesh_matches_blend(#[trigger] meshes@[k], recs[k], *input)
                && meshes@[k].wf(),
            match sp_blends(b, cursor as int, (count - i) as nat) {
                Some((rest, pe)) => sp_blends(b, p7 as int, count as nat) == Some::<
                    (Seq<BlendShapeRec>, int),
                >((recs + rest, pe)),
                None => sp_blends(b, p7 as int, count as nat) is None,
            },
        decreases count - i,
    {
        let step = read_blend_shape(input, cursor);
        match step {
            None => {
                proof {
                    assert(sp_blends(b, cursor as int, (count - i) as nat) is None);
                }
                return None;
            },
            Some((m, q)) => {
                let ghost bs = sp_blend(b, cursor as int).unwrap().0;
                meshes.push(m);
                proof {
                    recs = recs.push(bs);
                }
                cursor = q;
                i = i + 1;
                proof {
                    match sp_blends(b, cursor as int, (count - i) as nat) {
                        Some((rest, pe)) => {
                            assert((recs.subrange(0, recs.len() - 1) + (seq![bs] + rest)) =~= (recs
                                + rest));
                        },
                        None => {},
                    }
                }
            },
        }
    }
    proof {
        assert(recs + Seq::<BlendShapeRec>::empty() =~= recs);
    }
    Some((meshes, cursor))
}

/// Appending one mesh entry's object block keeps the whole list matching.
proof fn lemma_objects_match_append(
    objs: Seq<crate::asset::Object>,
    shapes: Seq<MeshShape>,
    block: Seq<crate::asset::Object>,
    sh: MeshShape,
    input: Arc<Buffer>,
)
    requires
        objects_match(objs, shapes, input),
        objects_match_shape(block, sh, input),
    ensures
        objects_match(objs + block, shapes.push(sh), input),
    decreases shapes.len(),
{
    let all = objs + block;
    let news = shapes.push(sh);
    if shapes.len() == 0 {
        assert(objs.len() == 0);
        assert(all =~= block);
        let k = 1 + sh.blends.len() as int;
        assert(news[0] == sh);
        assert(all.take(k) =~= block.take(k));
        assert(block.take(k) =~= block);
        assert(all.skip(k) =~= Seq::<crate::asset::Object>::empty());
        assert(news.skip(1) =~= Seq::<MeshShape>::empty());
        assert(objects_match(all.skip(k), news.skip(1), input));
    } else {
        let k = 1 + shapes[0].blends.len() as int;
        assert(news[0] == shapes[0]);
        assert(all.take(k) =~= objs.take(k));
        assert(all.skip(k) =~= objs.skip(k) + block);
        assert(news.skip(1) =~= shapes.skip(1).push(sh));
        lemma_objects_match_append(objs.skip(k), shapes.skip(1), block, sh, input);
    }
}

/// Imports a container: validates the version byte, reads each mesh entry
/// with its bone bindings and blend shapes, and yields every mesh and blend
/// shape as an object whose buffer windows alias the input.  Any malformed
/// or truncated stream, unknown code, or out-of-range window yields no
/// result at all.
#[verifier::rlimit(100)]
#[verifier::spinoff_prover]
pub fn import(input: Arc<Buffer>) -> (r: Option<crate::asset::Asset>)
    ensures
        r is Some <==> sp_asset(input@) is Some,
        r matches Some(a) ==> {
            &&& a.buffers@.len() == 1
            &&& a.buffers@[0] == input
            &&& objects_match(a.objects@, sp_asset(input@).unwrap(), input)
        },
{
    let ghost b = input@;
    let (version, p0) = match read_u8(&input, 0) {
        Some(x) => x,
        None => {
            return None;
        },
    };
    if version != 0 {
        return None;
    }
    let (mesh_count, p1) = match read_u8(&input, p0) {
        Some(x) => x,
        None => {
            return None;
        },
    };
    let count: usize = mesh_count as usize;
    let mut objects: Vec<crate::asset::Object> = Vec::new();
    let ghost mut shapes: Seq<MeshShape> = Seq::empty();
    let mut cursor: usize = p1;
    let mut i: usize = 0;
    while i < count
        invariant
            i <= count,
            input@ == b,
            shapes.len() == i,
            sp_asset(b) == (match sp_meshes(b, p1 as int, count as nat) {
                None => None::<Seq<MeshShape>>,
                Some((all, pe)) => Some(all),
            }),
            objects_match(objects@, shapes, input),
            match sp_meshes(b, cursor as int, (count - i) as nat) {
                Some((rest, pe)) => sp_meshes(b, p1 as int, count as nat) == Some::<
                    (Seq<MeshShape>, int),
                >((shapes + rest, pe)),
                None => sp_meshes(b, p1 as int, count as nat) is None,
            },
        decreases count - i,
    {
        let (mesh, q5) = match read_mesh(&input, cursor) {
            Some(x) => x,
            None => {
                proof {
                    assert(sp_mesh(b, cursor as int) is None);
                    assert(sp_meshes(b, cursor as int, (count - i) as nat) is None);
                }
                return None;
            },
        };
        let (_bones, q6) = match read_bone_bindings(&input, q5) {
            Some(x) => x,
            None => {
                proof {
                    assert(sp_mesh(b, cursor as int) is None);
                    assert(sp_meshes(b, cursor as int, (count - i) as nat) is None);
                }
                return None;
            },
        };
        let (blends, q8) = match read_blend_shapes(&input, q6) {
            Some(x) => x,
            None => {
                proof {
                    assert(sp_mesh(b, cursor as int) is None);
                    assert(sp_meshes(b, cursor as int, (count - i) as nat) is None);
                }
                return None;
            },
        };
        let ghost sh = sp_mesh(b, cursor as int).unwrap().0;
        let ghost old_objects = objects@;
        let ghost all0 = blends@;
        objects.push(crate::asset::Object::Mesh(mesh));
        let mut restv = blends;
        proof {
            assert(all0.skip(0) =~= all0);
        }
        while restv.len() > 0
            invariant
                restv@.len() <= all0.len(),
                restv@ == all0.skip(all0.len() - restv@.len()),
                input@ == b,
                all0.len() == sh.blends.len(),
                forall|k: int|
                    0 <= k < sh.blends.len() ==> mesh_matches_blend(
                        #[trigger] all0[k],
                        sh.blends[k],
                        input,
                    ),
                objects@.len() == old_objects.len() + 1 + (all0.len() - restv@.len()),
                objects@.subrange(0, old_objects.len() as int) == old_objects,
                (objects@[old_objects.len() as int] matches crate::asset::Object::Mesh(m)
                    && mesh_matches_core(m, sh.core, input)),
                forall|k: int|
                    0 <= k < all0.len() - restv@.len() ==> #[trigger] objects@[old_objects.len() + 1
                        + k] == crate::asset::Object::Mesh(all0[k]),
            decreases restv@.len(),
        {
            let ghost done = all0.len() - restv@.len();
            let bm = restv.remove(0);
            proof {
                assert(bm == all0.skip(done as int)[0]);
                assert(bm == all0[done as int]);
                assert(restv@ =~= all0.skip(done + 1));
            }
            objects.push(crate::asset::Object::Mesh(bm));
        }
        proof {
            assert(all0.skip(all0.len() as int) =~= Seq::<crate::mesh::Mesh>::empty());
            let block = objects@.skip(old_objects.len() as int);
            assert(block.len() == 1 + sh.blends.len());
            assert(block[0] == objects@[old_objects.len() as int]);
            assert forall|k: int| 0 <= k < sh.blends.len() implies (#[trigger] block[k + 1]) matches
                crate::asset::Object::Mesh(m) && mesh_matches_blend(m, sh.blends[k], input) by {
                assert(block[k + 1] == objects@[old_objects.len() + 1 + k]);
                assert(objects@[old_objects.len() + 1 + k] == crate::asset::Object::Mesh(all0[k]));
            }
            assert(objects_match_shape(block, sh, input));
            assert(old_objects + block =~= objects@);
            lemma_objects_match_append(old_objects, shapes, block, sh, input);
            shapes = shapes.push(sh);
        }
        cursor = q8;
        i = i + 1;
        proof {
            match sp_meshes(b, cursor as int, (count - i) as nat) {
                Some((rest, pe)) => {
                    assert((shapes.subrange(0, shapes.len() - 1) + (seq![sh] + rest)) =~= (shapes
                        + rest));
                },
                None => {},
            }
        }
    }
    proof {
        assert(shapes + Seq::<MeshShape>::empty() =~= shapes);
    }
    let buffers = vec![input];
    Some(crate::asset::Asset { buffers, objects })
}

/// The usage byte that names an attribute semantic on disk.
pub open spec fn spec_usage_code(n: AttributeName) -> int {
    match n {
        AttributeName::Position => 0,
        AttributeName::Color => 1,
        AttributeName::Normal => 2,
        AttributeName::Tangent => 3,
        AttributeName::Binormal => 4,
        AttributeName::TextureCoordinate => 5,
        AttributeName::JointWeights => 6,
        AttributeName::JointIndices => 7,
        _ => 0xff,
    }
}

/// The five-bit code of a scalar encoding; the 32-bit normalized encodings
/// have no on-disk code.
pub open spec fn spec_scalar_code(s: Scalar) -> int {
    match s {
        Scalar::I8 => 0,
        Scalar::I16 => 1,
        Scalar::I32 => 2,
        Scalar::F16 => 3,
        Scalar::F32 => 4,
        Scalar::U8 => 8,
        Scalar::U16 => 9,
        Scalar::U32 => 10,
        Scalar::I8Normalized => 16,
        Scalar::I16Normalized => 17,
        Scalar::U8Normalized => 24,
        Scalar::U16Normalized => 25,
        _ => 0xff,
    }
}

/// An attribute the on-disk declaration can express: one of the eight
/// declarable semantics, a scalar with an on-disk code, an arity the three
/// width bits can carry, and buffer index zero.
pub open spec fn attr_encodable(a: Attribute) -> bool {
    &&& spec_usage_code(a.name) <= 7
    &&& spec_scalar_code(a.format.0) <= 25
    &&& a.format.1 != crate::vertex::Width::Matrix3x3
    &&& a.buffer_index == 0
}

/// The packed type byte of an encodable format: arity minus one in the top
/// three bits, scalar code in the low five.
pub open spec fn spec_packed_code(f: Format) -> int {
    (crate::vertex::spec_width_elements(f.1) - 1) * 32 + spec_scalar_code(f.0)
}

/// The three declaration bytes of one attribute.
pub open spec fn enc_attr(a: Attribute) -> Seq<u8> {
    seq![
        spec_usage_code(a.name) as u8,
        0u8,
        spec_packed_code(a.format) as u8,
    ]
}

/// The declaration bytes of a whole attribute list, in order.
pub open spec fn enc_attrs(attrs: Seq<Attribute>) -> Seq<u8>
    decreases attrs.len(),
{
    if attrs.len() == 0 {
        Seq::empty()
    } else {
        enc_attr(attrs[0]) + enc_attrs(attrs.skip(1))
    }
}

/// The attribute offsets accumulate in declaration order starting at `off`.
pub open spec fn offsets_consistent(attrs: Seq<Attribute>, off: nat) -> bool
    decreases attrs.len(),
{
    if attrs.len() == 0 {
        true
    } else {
        attrs[0].offset == off && offsets_consistent(
            attrs.skip(1),
            off + spec_format_byte_size(attrs[0].format),
        )
    }
}

/// Total byte size of one vertex under an attribute list.
pub open spec fn attrs_total_size(attrs: Seq<Attribute>) -> nat
    decreases attrs.len(),
{
    if attrs.len() == 0 {
        0
    } else {
        spec_format_byte_size(attrs[0].format) + attrs_total_size(attrs.skip(1))
    }
}

/// Decoding inverts the usage code of a declarable semantic.
proof fn lemma_usage_code_round_trip(n: AttributeName)
    requires
        spec_usage_code(n) <= 7,
    ensures
        spec_usage_name(spec_usage_code(n)) == Some(n),
{
}

/// Decoding inverts the packed type byte of an encodable format.
proof fn lemma_packed_code_round_trip(f: Format)
    requires
        spec_scalar_code(f.0) <= 25,
        f.1 != crate::vertex::Width::Matrix3x3,
    ensures
        0 <= spec_packed_code(f) < 256,
        spec_packed_format(spec_packed_code(f)) == Some(f),
{
    let e = crate::vertex::spec_width_elements(f.1) as int;
    let sc = spec_scalar_code(f.0);
    let t = (e - 1) * 32 + sc;
    assert(1 <= e <= 4);
    assert(0 <= sc < 32);
    assert(t / 32 == e - 1 && t % 32 == sc) by (nonlinear_arith)
        requires
            t == (e - 1) * 32 + sc,
            0 <= sc < 32,
            1 <= e <= 4,
    ;
    assert(spec_scalar_from_code(sc) == Some(f.0));
    assert(spec_width_from_integer(e as usize) == Some(f.1));
}

/// One encoded attribute record parses back to exactly that attribute.
proof fn lemma_attr_round_trip(a: Attribute, b: Seq<u8>, p: int)
    requires
        attr_encodable(a),
        0 <= p,
        p + 3 <= b.len(),
        b.subrange(p, p + 3) == enc_attr(a),
    ensures
        sp_attr(b, p, a.offset as nat) == Some((a, p + 3)),
{
    lemma_usage_code_round_trip(a.name);
    lemma_packed_code_round_trip(a.format);
    let w = b.subrange(p, p + 3);
    assert(b[p] == w[0] && b[p + 1] == w[1] && b[p + 2] == w[2]);
    assert(w[0] == spec_usage_code(a.name) as u8);
    assert(w[2] == spec_packed_code(a.format) as u8);
    assert(spec_usage_code(a.name) as u8 as int == spec_usage_code(a.name));
    assert(spec_packed_code(a.format) as u8 as int == spec_packed_code(a.format));
    assert(a.offset as nat as usize == a.offset);
}

/// An encoded attribute list parses back to exactly that list, with the
/// same accumulated offsets and total size.
pub proof fn lemma_attrs_round_trip(attrs: Seq<Attribute>, b: Seq<u8>, p: int, off: nat)
    requires
        forall|i: int| 0 <= i < attrs.len() ==> attr_encodable(#[trigger] attrs[i]),
        offsets_consistent(attrs, off),
        0 <= p,
        p + 3 * attrs.len() <= b.len(),
        b.subrange(p, p + 3 * attrs.len()) == enc_attrs(attrs),
    ensures
        sp_attrs(b, p, attrs.len(), off) == Some(
            (attrs, p + 3 * attrs.len(), (off + attrs_total_size(attrs)) as nat),
        ),
    decreases attrs.len(),
{
    if attrs.len() == 0 {
        assert(sp_attrs(b, p, 0, off) == Some((Seq::<Attribute>::empty(), p, off)));
        assert(attrs =~= Seq::<Attribute>::empty());
    } else {
        let a = attrs[0];
        let rest = attrs.skip(1);
        let whole = b.subrange(p, p + 3 * attrs.len());
        assert(enc_attrs(attrs) == enc_attr(a) + enc_attrs(rest));
        assert(b.subrange(p, p + 3) =~= enc_attr(a)) by {
            assert forall|k: int| 0 <= k < 3 implies b.subrange(p, p + 3)[k] == enc_attr(a)[k] by {
                assert(b.subrange(p, p + 3)[k] == whole[k]);
                assert(whole[k] == (enc_attr(a) + enc_attrs(rest))[k]);
            }
        }
        assert(a.offset == off);
        lemma_attr_round_trip(a, b, p);
        assert(b.subrange(p + 3, p + 3 + 3 * rest.len()) =~= enc_attrs(rest)) by {
            assert forall|k: int| 0 <= k < 3 * rest.len() implies b.subrange(
                p + 3,
                p + 3 + 3 * rest.len(),
            )[k] == enc_attrs(rest)[k] by {
                assert(b.subrange(p + 3, p + 3 + 3 * rest.len())[k] == b[p + 3 + k]);
                assert(b[p + 3 + k] == whole[3 + k]);
                assert(whole[3 + k] == (enc_attr(a) + enc_attrs(rest))[3 + k]);
            }
        }
        lemma_attrs_round_trip(rest, b, p + 3, off + spec_format_byte_size(a.format));
        assert(seq![a] + rest =~= attrs);
    }
}

/// The four little-endian bytes of a 32-bit value.
pub open spec fn enc_u32(v: int) -> Seq<u8> {
    seq![
        (v % 256) as u8,
        ((v / 256) % 256) as u8,
        ((v / 65536) % 256) as u8,
        ((v / 16777216) % 256) as u8,
    ]
}

/// Reading back the four little-endian bytes of a 32-bit value yields the
/// value.
proof fn lemma_enc_u32(v: int)
    requires
        0 <= v < 0x1_0000_0000,
    ensures
        spec_le32(enc_u32(v)) == v,
{
    let r1 = v / 256;
    let r2 = r1 / 256;
    let r3 = r2 / 256;
    vstd::arithmetic::div_mod::lemma_fundamental_div_mod(v, 256);
    vstd::arithmetic::div_mod::lemma_fundamental_div_mod(r1, 256);
    vstd::arithmetic::div_mod::lemma_fundamental_div_mod(r2, 256);
    vstd::arithmetic::div_mod::lemma_fundamental_div_mod(r3, 256);
    vstd::arithmetic::div_mod::lemma_div_denominator(v, 256, 256);
    vstd::arithmetic::div_mod::lemma_div_denominator(v, 65536, 256);
    vstd::arithmetic::div_mod::lemma_div_denominator(r1, 256, 256);
    assert(r2 == v / 65536);
    assert(r3 == v / 16777216);
    assert(0 <= r3 < 256) by (nonlinear_arith)
        requires
            0 <= v < 0x1_0000_0000,
            r3 == v / 16777216,
    ;
    assert(r3 % 256 == r3);
    let b = enc_u32(v);
    assert(b[0] == (v % 256) as u8 && b[1] == (r1 % 256) as u8 && b[2] == (r2 % 256) as u8 && b[3]
        == (r3 % 256) as u8);
}

/// The length of the encoded declaration records: three bytes each.
proof fn lemma_enc_attrs_len(attrs: Seq<Attribute>)
    ensures
        enc_attrs(attrs).len() == 3 * attrs.len(),
    decreases attrs.len(),
{
    if attrs.len() > 0 {
        lemma_enc_attrs_len(attrs.skip(1));
    }
}

/// The full vertex-buffer declaration for an attribute list, vertex count,
/// and payload: declaration count, attribute records, count, payload.
pub open spec fn enc_vertex_buffer(attrs: Seq<Attribute>, count: int, payload: Seq<u8>) -> Seq<
    u8,
> {
    seq![attrs.len() as u8] + enc_attrs(attrs) + enc_u32(count) + payload
}

/// Round trip of the vertex-buffer declaration: encoding an encodable
/// attribute list with a vertex count and a payload of exactly
/// `count * stride` bytes, then parsing it back, reproduces the same
/// attributes (order, formats, offsets), the same stride, and the same
/// vertex count.
pub proof fn lemma_vertex_buffer_round_trip(
    attrs: Seq<Attribute>,
    count: int,
    payload: Seq<u8>,
    b: Seq<u8>,
    p: int,
)
    requires
        forall|i: int| 0 <= i < attrs.len() ==> attr_encodable(#[trigger] attrs[i]),
        offsets_consistent(attrs, 0),
        attrs.len() <= 255,
        0 <= count < 0x1_0000_0000,
        payload.len() == count * attrs_total_size(attrs),
        0 <= p,
        p + enc_vertex_buffer(attrs, count, payload).len() <= b.len(),
        b.subrange(p, p + enc_vertex_buffer(attrs, count, payload).len()) == enc_vertex_buffer(
            attrs,
            count,
            payload,
        ),
    ensures
        sp_vertex_buffer(b, p) matches Some((vb, q)) && vb.attrs == attrs && vb.stride
            == attrs_total_size(attrs) && vb.count == count && q == p + enc_vertex_buffer(
            attrs,
            count,
            payload,
        ).len(),
{
    let enc = enc_vertex_buffer(attrs, count, payload);
    let n = attrs.len() as int;
    let stride = attrs_total_size(attrs) as int;
    lemma_enc_attrs_len(attrs);
    lemma_enc_u32(count);
    let cbytes = enc_u32(count);
    assert(enc.len() == 1 + 3 * n + 4 + payload.len());
    let whole = b.subrange(p, p + enc.len());
    assert forall|k: int| 0 <= k < enc.len() implies b[p + k] == enc[k] by {
        assert(whole[k] == enc[k]);
    }
    assert(b[p] == enc[0]);
    assert(enc[0] == attrs.len() as u8);
    assert(sp_u8(b, p) == Some((attrs.len() as u8, p + 1)));
    assert(b.subrange(p + 1, p + 1 + 3 * n) =~= enc_attrs(attrs)) by {
        assert forall|k: int| 0 <= k < 3 * n implies b.subrange(p + 1, p + 1 + 3 * n)[k]
            == enc_attrs(attrs)[k] by {
            assert(b.subrange(p + 1, p + 1 + 3 * n)[k] == b[p + 1 + k]);
            assert(b[p + 1 + k] == enc[1 + k]);
            assert(enc[1 + k] == (seq![attrs.len() as u8] + enc_attrs(attrs) + cbytes + payload)[1
                + k]);
        }
    }
    lemma_attrs_round_trip(attrs, b, p + 1, 0);
    let p2 = p + 1 + 3 * n;
    assert(b.subrange(p2, p2 + 4) =~= cbytes) by {
        assert forall|k: int| 0 <= k < 4 implies b.subrange(p2, p2 + 4)[k] == cbytes[k] by {
            assert(b.subrange(p2, p2 + 4)[k] == b[p2 + k]);
            assert(b[p2 + k] == enc[1 + 3 * n + k]);
        }
    }
    assert(spec_le32(cbytes) == count);
    assert(sp_u32(b, p2) == Some((count, p2 + 4)));
    let p3 = p2 + 4;
    assert(p3 + count * stride <= b.len());
}
/// An attribute declaration whose packed type byte holds an unrecognized
/// scalar code is rejected, so a container that reaches it yields no mesh
/// at all.
pub proof fn lemma_unknown_packed_type_rejected(b: Seq<u8>, p: int, off: nat)
    requires
        0 <= p,
        p + 3 <= b.len(),
        spec_scalar_from_code((b[p + 2] as int) % 32) is None,
    ensures
        sp_attr(b, p, off) is None,
{
}

} // verus!
