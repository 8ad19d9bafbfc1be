//! The vertices an STL file holds, kept exactly as the file writes them.

use vstd::prelude::*;

verus! {

/// One coordinate of a vertex, as it stands in the file.
#[derive(Debug, PartialEq)]
pub enum Coord {
    /// The IEEE 754 single-precision bit pattern of a binary file.
    Bits(u32),
    /// The text of a decimal token of an ASCII file; the token follows the
    /// grammar that `f32::from_str` accepts.
    Decimal(Vec<u8>),
}

/// The mathematical value of a [`Coord`].
pub enum SpecCoord {
    Bits(int),
    Decimal(Seq<u8>),
}

impl View for Coord {
    type V = SpecCoord;

    open spec fn view(&self) -> SpecCoord {
        match self {
            Coord::Bits(b) => SpecCoord::Bits(*b as int),
            Coord::Decimal(t) => SpecCoord::Decimal(t@),
        }
    }
}

/// A vertex: three coordinates, x, y and z.
#[derive(Debug, PartialEq)]
pub struct Vertex {
    pub x: Coord,
    pub y: Coord,
    pub z: Coord,
}

/// The mathematical value of a [`Vertex`].
pub struct SpecVertex {
    pub x: SpecCoord,
    pub y: SpecCoord,
    pub z: SpecCoord,
}

impl View for Vertex {
    type V = SpecVertex;

    open spec fn view(&self) -> SpecVertex {
        SpecVertex { x: self.x@, y: self.y@, z: self.z@ }
    }
}

/// The values of a sequence of vertices.
pub open spec fn vertices_view(vs: Seq<Vertex>) -> Seq<SpecVertex> {
    vs.map_values(|v: Vertex| v@)
}

pub proof fn lemma_vertices_view_push(vs: Seq<Vertex>, v: Vertex)
    ensures
        vertices_view(vs.push(v)) == vertices_view(vs).push(v@),
{
    assert(vertices_view(vs.push(v)) =~= vertices_view(vs).push(v@));
}

} // verus!

verus! {

/// Why a model is refused.
#[derive(Debug, PartialEq, Eq)]
pub enum StlError {
    /// An ASCII `vertex` line (numbered from 1) lacks one of its three
    /// coordinates, or one of them is not a number.
    MalformedVertex { line: usize },
    /// An ASCII file holds a number of vertices that is not a multiple of 3.
    VertexCount { count: usize },
    /// The data holds no triangle.
    NoTriangles,
}

/// The value of a parse result.
pub open spec fn parsed_view(r: Result<Vec<Vertex>, StlError>) -> Result<Seq<SpecVertex>, StlError> {
    match r {
        Ok(v) => Ok(vertices_view(v@)),
        Err(e) => Err(e),
    }
}

} // verus!
