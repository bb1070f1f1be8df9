//! Vertex-layout vocabulary: scalar encodings, element arities, attribute
//! formats, and the descriptor that ties attributes to vertex buffers.

use vstd::prelude::*;

verus! {

/// One numeric on-disk encoding: integer width and signedness, an optional
/// normalized (fixed-point) decode rule, or a half/single float.
#[derive(Debug, PartialEq, Eq, Structural, Clone, Copy)]
pub enum Scalar {
    F16,
    F32,
    U8,
    U16,
    U32,
    U8Normalized,
    U16Normalized,
    U32Normalized,
    I8,
    I16,
    I32,
    I8Normalized,
    I16Normalized,
    I32Normalized,
}

/// Byte width of a scalar encoding, as a pure function of the tag.
pub open spec fn spec_scalar_byte_size(s: Scalar) -> nat {
    match s {
        Scalar::U8 | Scalar::U8Normalized | Scalar::I8 | Scalar::I8Normalized => 1,
        Scalar::F16 | Scalar::U16 | Scalar::U16Normalized | Scalar::I16 | Scalar::I16Normalized => 2,
        Scalar::F32 | Scalar::U32 | Scalar::U32Normalized | Scalar::I32 | Scalar::I32Normalized => 4,
    }
}

impl Scalar {
    /// Number of bytes one value of this encoding occupies on disk.
    pub fn byte_size(&self) -> (n: usize)
        ensures
            n == spec_scalar_byte_size(*self),
            1 <= n <= 4,
    {
        match *self {
            Scalar::U8 | Scalar::U8Normalized | Scalar::I8 | Scalar::I8Normalized => 1,
            Scalar::F16 | Scalar::U16 | Scalar::U16Normalized | Scalar::I16
            | Scalar::I16Normalized => 2,
            Scalar::F32 | Scalar::U32 | Scalar::U32Normalized | Scalar::I32
            | Scalar::I32Normalized => 4,
        }
    }
}

/// Element arity of one logical attribute value.
#[derive(Debug, PartialEq, Eq, Structural, Clone, Copy)]
pub enum Width {
    Scalar,
    Vector2,
    Vector3,
    Vector4,
    Matrix3x3,
}

/// Number of scalar elements a width stands for.
pub open spec fn spec_width_elements(w: Width) -> nat {
    match w {
        Width::Scalar => 1,
        Width::Vector2 => 2,
        Width::Vector3 => 3,
        Width::Vector4 => 4,
        Width::Matrix3x3 => 9,
    }
}

/// The width encoded by an element count, if that count is one of the five
/// arities the format knows.
pub open spec fn spec_width_from_integer(n: usize) -> Option<Width> {
    match n {
        1usize => Some(Width::Scalar),
        2usize => Some(Width::Vector2),
        3usize => Some(Width::Vector3),
        4usize => Some(Width::Vector4),
        9usize => Some(Width::Matrix3x3),
        _ => None,
    }
}

impl Width {
    /// Decodes an element count into a width; counts other than 1, 2, 3, 4
    /// and 9 have no width.
    pub fn from_integer(n: usize) -> (r: Option<Width>)
        ensures
            r == spec_width_from_integer(n),
    {
        match n {
            1usize => Some(Width::Scalar),
            2usize => Some(Width::Vector2),
            3usize => Some(Width::Vector3),
            4usize => Some(Width::Vector4),
            9usize => Some(Width::Matrix3x3),
            _ => None,
        }
    }

    /// Number of consecutive scalar elements one logical value of this width
    /// occupies.
    pub fn elements(&self) -> (n: usize)
        ensures
            n == spec_width_elements(*self),
            1 <= n <= 9,
    {
        match *self {
            Width::Scalar => 1,
            Width::Vector2 => 2,
            Width::Vector3 => 3,
            Width::Vector4 => 4,
            Width::Matrix3x3 => 9,
        }
    }
}

/// A full element format: one scalar encoding repeated `width` times.
#[derive(Debug, PartialEq, Eq, Structural, Clone, Copy)]
pub struct Format(pub Scalar, pub Width);

/// Byte size of one logical value of a format.
pub open spec fn spec_format_byte_size(f: Format) -> nat {
    spec_scalar_byte_size(f.0) * spec_width_elements(f.1)
}

impl Format {
    /// The scalar encoding of this format.
    pub fn scalar(&self) -> (s: Scalar)
        ensures
            s == self.0,
    {
        let Format(scalar, _) = *self;
        scalar
    }

    /// The element arity of this format.
    pub fn width(&self) -> (w: Width)
        ensures
            w == self.1,
    {
        let Format(_, width) = *self;
        width
    }

    /// Number of scalar elements in one logical value.
    pub fn elements(&self) -> (n: usize)
        ensures
            n == spec_width_elements(self.1),
    {
        self.width().elements()
    }

    /// Bytes one logical value occupies: scalar byte size times arity.
    pub fn byte_size(&self) -> (n: usize)
        ensures
            n == spec_format_byte_size(*self),
            1 <= n <= 36,
    {
        match *self {
            Format(scalar, width) => scalar.byte_size() * width.elements(),
        }
    }
}

/// Semantic name of a vertex attribute; `Other` carries an open tag.
#[derive(Debug, Clone)]
pub enum AttributeName {
    Ansiotropy,
    Binormal,
    Bitangent,
    Color,
    EdgeCrease,
    JointIndices,
    JointWeights,
    Normal,
    OcclusionValue,
    Position,
    ShadingBasisU,
    ShadingBasisV,
    SubdivisionStencil,
    Tangent,
    TextureCoordinate,
    Other(String),
}

/// Two attribute names mean the same semantic: equal tags, and for `Other`
/// equal tag strings.
pub open spec fn name_eq(a: AttributeName, b: AttributeName) -> bool {
    match (a, b) {
        (AttributeName::Ansiotropy, AttributeName::Ansiotropy) => true,
        (AttributeName::Binormal, AttributeName::Binormal) => true,
        (AttributeName::Bitangent, AttributeName::Bitangent) => true,
        (AttributeName::Color, AttributeName::Color) => true,
        (AttributeName::EdgeCrease, AttributeName::EdgeCrease) => true,
        (AttributeName::JointIndices, AttributeName::JointIndices) => true,
        (AttributeName::JointWeights, AttributeName::JointWeights) => true,
        (AttributeName::Normal, AttributeName::Normal) => true,
        (AttributeName::OcclusionValue, AttributeName::OcclusionValue) => true,
        (AttributeName::Position, AttributeName::Position) => true,
        (AttributeName::ShadingBasisU, AttributeName::ShadingBasisU) => true,
        (AttributeName::ShadingBasisV, AttributeName::ShadingBasisV) => true,
        (AttributeName::SubdivisionStencil, AttributeName::SubdivisionStencil) => true,
        (AttributeName::Tangent, AttributeName::Tangent) => true,
        (AttributeName::TextureCoordinate, AttributeName::TextureCoordinate) => true,
        (AttributeName::Other(x), AttributeName::Other(y)) => x@ == y@,
        _ => false,
    }
}

impl PartialEq for AttributeName {
    fn eq(&self, other: &AttributeName) -> (r: bool) {
        match (self, other) {
            (AttributeName::Ansiotropy, AttributeName::Ansiotropy) => true,
            (AttributeName::Binormal, AttributeName::Binormal) => true,
            (AttributeName::Bitangent, AttributeName::Bitangent) => true,
            (AttributeName::Color, AttributeName::Color) => true,
            (AttributeName::EdgeCrease, AttributeName::EdgeCrease) => true,
            (AttributeName::JointIndices, AttributeName::JointIndices) => true,
            (AttributeName::JointWeights, AttributeName::JointWeights) => true,
            (AttributeName::Normal, AttributeName::Normal) => true,
            (AttributeName::OcclusionValue, AttributeName::OcclusionValue) => true,
            (AttributeName::Position, AttributeName::Position) => true,
            (AttributeName::ShadingBasisU, AttributeName::ShadingBasisU) => true,
            (AttributeName::ShadingBasisV, AttributeName::ShadingBasisV) => true,
            (AttributeName::SubdivisionStencil, AttributeName::SubdivisionStencil) => true,
            (AttributeName::Tangent, AttributeName::Tangent) => true,
            (AttributeName::TextureCoordinate, AttributeName::TextureCoordinate) => true,
            (AttributeName::Other(x), AttributeName::Other(y)) => *x == *y,
            _ => false,
        }
    }
}

impl vstd::std_specs::cmp::PartialEqSpecImpl for AttributeName {
    open spec fn obeys_eq_spec() -> bool {
        true
    }

    open spec fn eq_spec(&self, other: &AttributeName) -> bool {
        name_eq(*self, *other)
    }
}

/// One vertex attribute: semantic name, element format, byte offset within
/// its buffer's stride, and the index of the owning vertex buffer.
#[derive(Debug, Clone)]
pub struct Attribute {
    pub name: AttributeName,
    pub format: Format,
    pub offset: usize,
    pub buffer_index: usize,
}

impl Attribute {
    /// Bytes one logical value of this attribute occupies.
    pub fn byte_size(&self) -> (n: usize)
        ensures
            n == spec_format_byte_size(self.format),
    {
        self.format.byte_size()
    }
}

/// Per-vertex-buffer layout: the stride between consecutive vertices.
#[derive(Debug, PartialEq, Eq, Structural, Clone, Copy)]
pub struct BufferLayout {
    pub stride: usize,
}

/// Full vertex layout: the ordered attributes and one layout per vertex
/// buffer, positionally indexed by `Attribute::buffer_index`.
#[derive(Debug, Clone)]
pub struct Descriptor {
    pub attributes: Vec<Attribute>,
    pub layouts: Vec<BufferLayout>,
}

/// Index of the first attribute in `s` at or after `from` whose name means
/// `name`.
pub open spec fn spec_first_match(s: Seq<Attribute>, name: AttributeName, from: int) -> Option<
    int,
>
    decreases s.len() - from,
{
    if from < 0 || from >= s.len() {
        None
    } else if name_eq(s[from].name, name) {
        Some(from)
    } else {
        spec_first_match(s, name, from + 1)
    }
}

/// Skipping a prefix without a match does not change the first match.
proof fn lemma_first_match_skip(s: Seq<Attribute>, name: AttributeName, j: int)
    requires
        0 <= j <= s.len(),
        forall|k: int| 0 <= k < j ==> !name_eq(s[k].name, name),
    ensures
        spec_first_match(s, name, 0) == spec_first_match(s, name, j),
    decreases j,
{
    if j > 0 {
        lemma_first_match_skip_step(s, name, 0, j);
    }
}

/// One step of the skipping argument, generalized over the start position.
proof fn lemma_first_match_skip_step(s: Seq<Attribute>, name: AttributeName, from: int, j: int)
    requires
        0 <= from <= j <= s.len(),
        forall|k: int| from <= k < j ==> !name_eq(s[k].name, name),
    ensures
        spec_first_match(s, name, from) == spec_first_match(s, name, j),
    decreases j - from,
{
    if from < j {
        lemma_first_match_skip_step(s, name, from + 1, j);
    }
}

impl Descriptor {
    /// The first attribute with the given name, or nothing when no attribute
    /// carries it.  Callers must not rely on duplicates resolving
    /// independently: lookup always returns the first.
    pub fn attribute_for(&self, name: &AttributeName) -> (r: Option<&Attribute>)
        ensures
            match spec_first_match(self.attributes@, *name, 0) {
                Some(i) => r matches Some(a) && *a == self.attributes@[i],
                None => r is None,
            },
    {
        let n = self.attributes.len();
        let mut j: usize = 0;
        while j < n
            invariant
                j <= n,
                n == self.attributes@.len(),
                forall|k: int| 0 <= k < j ==> !name_eq(self.attributes@[k].name, *name),
            decreases n - j,
        {
            if self.attributes[j].name == *name {
                proof {
                    lemma_first_match_skip(self.attributes@, *name, j as int);
                }
                return Some(&self.attributes[j]);
            }
            j = j + 1;
        }
        proof {
            lemma_first_match_skip(self.attributes@, *name, n as int);
        }
        None
    }
}


} // verus!
