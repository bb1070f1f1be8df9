//! Index vocabulary: the two on-disk index widths and the four draw
//! topologies a submesh can carry.

use vstd::prelude::*;

verus! {

/// On-disk width of one vertex index.
#[derive(Debug, PartialEq, Eq, Structural, Clone, Copy)]
pub enum Format {
    U16,
    U32,
}

/// Byte width of an index format.
pub open spec fn spec_index_byte_size(f: Format) -> nat {
    match f {
        Format::U16 => 2,
        Format::U32 => 4,
    }
}

impl Format {
    /// Number of bytes one index of this format occupies.
    pub fn byte_size(&self) -> (n: usize)
        ensures
            n == spec_index_byte_size(*self),
            n == 2 || n == 4,
    {
        match *self {
            Format::U16 => 2,
            Format::U32 => 4,
        }
    }
}

/// Draw topology of a submesh's index sequence.
#[derive(Debug, PartialEq, Eq, Structural, Clone, Copy)]
pub enum Geometry {
    Points,
    Lines,
    Triangles,
    TriangleStrips,
}

} // verus!
