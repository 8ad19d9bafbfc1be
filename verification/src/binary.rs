//! The binary STL layout: an 80-byte header, a little-endian `u32` triangle
//! count, then 50 bytes per triangle (a normal, three vertices of three
//! little-endian `f32` each, and a 2-byte attribute count).

use vstd::prelude::*;
use crate::model::{Coord, SpecCoord, SpecVertex, Vertex, vertices_view, lemma_vertices_view_push};

verus! {

/// The little-endian unsigned integer of the four bytes at `off`.
pub open spec fn le_word(s: Seq<u8>, off: int) -> int {
    s[off] + s[off + 1] * 256 + s[off + 2] * 65536 + s[off + 3] * 16777216
}

/// The triangle count of the header.
pub open spec fn header_count(s: Seq<u8>) -> int {
    le_word(s, 80)
}

/// The size of a binary file that holds `n` triangles and nothing more.
pub open spec fn binary_size(n: int) -> int {
    84 + 50 * n
}

/// Whether the data starts with the five bytes `solid`.
pub open spec fn starts_with_solid(s: Seq<u8>) -> bool {
    &&& s.len() >= 5
    &&& s[0] == 115 && s[1] == 111 && s[2] == 108 && s[3] == 105 && s[4] == 100
}

/// Whether the data is read as a binary file: the header holds a positive
/// count, the data is at least as long as that count asks (bytes beyond it
/// are ignored), and data that starts with `solid` is binary only when its
/// size matches the count exactly.
pub open spec fn is_binary(s: Seq<u8>) -> bool {
    &&& s.len() >= 84
    &&& header_count(s) > 0
    &&& binary_size(header_count(s)) <= s.len()
    &&& (starts_with_solid(s) ==> s.len() == binary_size(header_count(s)))
}

/// The offset of the first coordinate of vertex `j` (in file order).
pub open spec fn vertex_offset(j: int) -> int {
    84 + 50 * (j / 3) + 12 + 12 * (j % 3)
}

/// Vertex `j` of a binary file.
pub open spec fn binary_vertex(s: Seq<u8>, j: int) -> SpecVertex {
    let o = vertex_offset(j);
    SpecVertex {
        x: SpecCoord::Bits(le_word(s, o)),
        y: SpecCoord::Bits(le_word(s, o + 4)),
        z: SpecCoord::Bits(le_word(s, o + 8)),
    }
}

/// All vertices of a binary file, three per triangle.
pub open spec fn binary_vertices(s: Seq<u8>) -> Seq<SpecVertex> {
    Seq::new((3 * header_count(s)) as nat, |j: int| binary_vertex(s, j))
}

/// Reads the little-endian `u32` at `off`.
pub fn read_le_u32(data: &[u8], off: usize) -> (v: u32)
    requires
        off + 4 <= data@.len(),
    ensures
        v as int == le_word(data@, off as int),
{
    let b0 = data[off] as u32;
    let b1 = data[off + 1] as u32;
    let b2 = data[off + 2] as u32;
    let b3 = data[off + 3] as u32;
    b0 + b1 * 256 + b2 * 65536 + b3 * 16777216
}

/// Whether the data starts with `solid`.
pub fn has_solid_prefix(data: &[u8]) -> (b: bool)
    ensures
        b == starts_with_solid(data@),
{
    data.len() >= 5 && data[0] == 115 && data[1] == 111 && data[2] == 108 && data[3] == 105
        && data[4] == 100
}

/// Decides whether the data is a binary STL file.
pub fn detect_binary(data: &[u8]) -> (b: bool)
    ensures
        b == is_binary(data@),
{
    if data.len() < 84 {
        return false;
    }
    let n = read_le_u32(data, 80) as u64;
    let expected: u64 = 84 + 50 * n;
    let len = data.len() as u64;
    n > 0 && expected <= len && (!has_solid_prefix(data) || len == expected)
}

pub proof fn lemma_vertex_offset(t: int, i: int)
    requires
        0 <= t,
        0 <= i < 3,
    ensures
        vertex_offset(3 * t + i) == 84 + 50 * t + 12 + 12 * i,
{
    assert((3 * t + i) / 3 == t && (3 * t + i) % 3 == i) by (nonlinear_arith)
        requires
            0 <= t,
            0 <= i < 3,
    ;
}

fn read_vertex(data: &[u8], off: usize) -> (v: Vertex)
    requires
        off + 12 <= data.len(),
    ensures
        v@ == (SpecVertex {
            x: SpecCoord::Bits(le_word(data@, off as int)),
            y: SpecCoord::Bits(le_word(data@, off + 4)),
            z: SpecCoord::Bits(le_word(data@, off + 8)),
        }),
{
    let x = read_le_u32(data, off);
    let y = read_le_u32(data, off + 4);
    let z = read_le_u32(data, off + 8);
    Vertex { x: Coord::Bits(x), y: Coord::Bits(y), z: Coord::Bits(z) }
}

/// Reads every vertex of a binary file, in file order.
pub fn read_binary(data: &[u8]) -> (vs: Vec<Vertex>)
    requires
        is_binary(data@),
    ensures
        vertices_view(vs@) == binary_vertices(data@),
{
    let len = data.len();
    let n = read_le_u32(data, 80) as usize;
    let mut vs: Vec<Vertex> = Vec::new();
    let mut t: usize = 0;
    let mut base: usize = 84;
    while t < n
        invariant
            is_binary(data@),
            n as int == header_count(data@),
            len == data@.len(),
            t <= n,
            base as int == 84 + 50 * t,
            vertices_view(vs@) == binary_vertices(data@).take(3 * t as int),
        decreases n - t,
    {
        let mut i: usize = 0;
        while i < 3
            invariant
                is_binary(data@),
                n as int == header_count(data@),
                len == data@.len(),
                t < n,
                i <= 3,
                base as int == 84 + 50 * t,
                vertices_view(vs@) == binary_vertices(data@).take(3 * t + i),
            decreases 3 - i,
        {
            proof {
                lemma_vertex_offset(t as int, i as int);
            }
            let v = read_vertex(data, base + 12 + 12 * i);
            proof {
                lemma_vertices_view_push(vs@, v);
                assert(binary_vertices(data@).take(3 * t + i + 1) =~= binary_vertices(data@).take(
                    3 * t + i,
                ).push(binary_vertex(data@, 3 * t + i)));
            }
            vs.push(v);
            i = i + 1;
        }
        t = t + 1;
        base = base + 50;
    }
    assert(binary_vertices(data@).take(3 * n as int) =~= binary_vertices(data@));
    vs
}

} // verus!
