//! Reading an STL model from the bytes of a file, binary or ASCII.

use vstd::prelude::*;
use crate::model::{SpecCoord, SpecVertex, StlError, Vertex, parsed_view};
use crate::binary::{
    is_binary, binary_vertices, detect_binary, read_binary, header_count, binary_size,
    starts_with_solid, vertex_offset, binary_vertex, lemma_vertex_offset,
};
use crate::ascii::{ascii_vertices, parse_ascii, collect_vertices, split_lines, line_class, SpecLine};
use crate::text::{next_word, is_vertex_keyword};

verus! {

/// The vertices of an STL file, three per triangle, in file order: the
/// binary layout when [`is_binary`] holds, the ASCII format otherwise.
pub open spec fn stl_vertices(s: Seq<u8>) -> Result<Seq<SpecVertex>, StlError> {
    if is_binary(s) {
        Ok(binary_vertices(s))
    } else {
        ascii_vertices(s)
    }
}

/// [`stl_vertices`], with a model that holds no vertex refused.
pub open spec fn model_vertices(s: Seq<u8>) -> Result<Seq<SpecVertex>, StlError> {
    match stl_vertices(s) {
        Ok(vs) => if vs.len() == 0 {
            Err(StlError::NoTriangles)
        } else {
            Ok(vs)
        },
        Err(e) => Err(e),
    }
}

/// Reads the triangles (three vertices each) of a binary or ASCII STL file.
pub fn parse_stl(data: &[u8]) -> (r: Result<Vec<Vertex>, StlError>)
    ensures
        parsed_view(r) == stl_vertices(data@),
{
    if detect_binary(data) {
        Ok(read_binary(data))
    } else {
        parse_ascii(data)
    }
}

/// Reads the triangles of an STL file, refusing a model without any.
pub fn load_stl_data(data: &[u8]) -> (r: Result<Vec<Vertex>, StlError>)
    ensures
        parsed_view(r) == model_vertices(data@),
{
    let vs = parse_stl(data)?;
    if vs.len() == 0 {
        return Err(StlError::NoTriangles);
    }
    Ok(vs)
}

proof fn lemma_vertex_offset_bound(j: int, n: int)
    requires
        0 <= j < 3 * n,
    ensures
        84 <= vertex_offset(j),
        vertex_offset(j) + 12 <= binary_size(n),
{
    assert(0 <= j / 3 < n && 0 <= j % 3 < 3) by (nonlinear_arith)
        requires
            0 <= j < 3 * n,
    ;
}

/// Bytes after the last triangle of a binary file that does not start with
/// `solid` are ignored.
pub proof fn law_binary_ignores_trailing_bytes(data: Seq<u8>, extra: Seq<u8>)
    requires
        is_binary(data),
        !starts_with_solid(data),
    ensures
        stl_vertices(data + extra) == stl_vertices(data),
{
    let whole = data + extra;
    assert(forall|k: int| 0 <= k < data.len() ==> whole[k] == data[k]);
    assert(header_count(whole) == header_count(data));
    assert(!starts_with_solid(whole));
    assert(is_binary(whole));
    let n = header_count(data);
    assert forall|j: int| 0 <= j < 3 * n implies binary_vertex(whole, j) == binary_vertex(
        data,
        j,
    ) by {
        lemma_vertex_offset_bound(j, n);
    }
    assert(binary_vertices(whole) =~= binary_vertices(data));
}

/// Every model that is read holds whole triangles: its number of vertices
/// is a multiple of 3.
pub proof fn law_whole_triangles(data: Seq<u8>)
    ensures
        stl_vertices(data) matches Ok(vs) ==> vs.len() % 3 == 0,
{
    if is_binary(data) {
        let n = header_count(data);
        assert((3 * n) % 3 == 0) by (nonlinear_arith)
            requires
                n > 0,
        ;
    }
}

proof fn lemma_split_lines_len(s: Seq<u8>)
    ensures
        1 <= split_lines(s).len() <= s.len() + 1,
    decreases s.len(),
{
    crate::ascii::lemma_first_newline_bounds(s);
    let e = crate::ascii::first_newline(s);
    if e < s.len() {
        lemma_split_lines_len(s.skip(e + 1));
    }
}

proof fn lemma_collect_error(lines: Seq<Seq<u8>>, first: int)
    ensures
        collect_vertices(lines, first) matches Err(e) ==> {
            &&& first <= e < first + lines.len()
            &&& line_class(lines[e - first]) == SpecLine::Malformed
            &&& forall|k: int| 0 <= k < e - first ==> line_class(#[trigger] lines[k]) != SpecLine::Malformed
        },
        collect_vertices(lines, first) is Ok ==> forall|k: int|
            0 <= k < lines.len() ==> line_class(#[trigger] lines[k]) != SpecLine::Malformed,
    decreases lines.len(),
{
    if lines.len() > 0 {
        lemma_collect_error(lines.drop_first(), first + 1);
        assert forall|k: int| 1 <= k < lines.len() implies #[trigger] lines[k] == lines.drop_first()[k
            - 1] by {}
    }
}

/// An ASCII file is refused for a malformed vertex exactly when one of its
/// lines is a `vertex` line without three numbers, and the error names the
/// first such line (lines are numbered from 1).
pub proof fn law_malformed_vertex_names_first_bad_line(data: Seq<u8>)
    requires
        data.len() < usize::MAX,
        !is_binary(data),
    ensures
        (exists|k: int|
            0 <= k < split_lines(data).len() && line_class(#[trigger] split_lines(data)[k])
                == SpecLine::Malformed) <==> stl_vertices(data) is Err && stl_vertices(
            data,
        )->Err_0 is MalformedVertex,
        stl_vertices(data) matches Err(StlError::MalformedVertex { line }) ==> {
            &&& 1 <= line <= split_lines(data).len()
            &&& line_class(split_lines(data)[line - 1]) == SpecLine::Malformed
            &&& forall|k: int|
                0 <= k < line - 1 ==> line_class(#[trigger] split_lines(data)[k])
                    != SpecLine::Malformed
        },
{
    let lines = split_lines(data);
    lemma_split_lines_len(data);
    lemma_collect_error(lines, 1);
}

} // verus!

verus! {

/// Whether a line's first word is not `vertex` (or it has no word).
pub open spec fn not_vertex_line(line: Seq<u8>) -> bool {
    match next_word(line) {
        None => true,
        Some((w, _)) => !is_vertex_keyword(w),
    }
}

proof fn lemma_collect_without_vertex_lines(lines: Seq<Seq<u8>>, first: int)
    requires
        forall|k: int| 0 <= k < lines.len() ==> not_vertex_line(#[trigger] lines[k]),
    ensures
        collect_vertices(lines, first) == Ok::<Seq<SpecVertex>, int>(Seq::empty()),
    decreases lines.len(),
{
    if lines.len() > 0 {
        assert(not_vertex_line(lines[0]));
        assert forall|k: int| 0 <= k < lines.drop_first().len() implies not_vertex_line(
            #[trigger] lines.drop_first()[k],
        ) by {
            assert(lines.drop_first()[k] == lines[k + 1]);
        }
        lemma_collect_without_vertex_lines(lines.drop_first(), first + 1);
    }
}

/// Text in which no line starts with the word `vertex` holds no vertex: it
/// is read as an empty model, not refused.
pub proof fn law_text_without_vertex_lines_is_empty(data: Seq<u8>)
    requires
        !is_binary(data),
        forall|k: int|
            0 <= k < split_lines(data).len() ==> not_vertex_line(#[trigger] split_lines(data)[k]),
    ensures
        stl_vertices(data) == Ok::<Seq<SpecVertex>, StlError>(Seq::empty()),
{
    lemma_collect_without_vertex_lines(split_lines(data), 1);
}

} // verus!

verus! {

/// The unsigned integer of four bytes, least significant first.
pub open spec fn little_endian(b0: u8, b1: u8, b2: u8, b3: u8) -> int {
    b0 + 256 * b1 + 65536 * b2 + 16777216 * b3
}

/// A binary file is read as the little-endian `u32` count at bytes 80..84
/// says: when the header does not start with `solid`, the count `n` is
/// positive and the data holds `84 + 50 * n` bytes or more, the file gives
/// exactly `3 * n` vertices, and coordinate `k` of vertex `i` of triangle
/// `t` is the little-endian word at `84 + 50 * t + 12 + 12 * i + 4 * k`.
pub proof fn law_binary_triangles_follow_the_count(s: Seq<u8>)
    requires
        s.len() >= 84,
        !(s[0] == 115 && s[1] == 111 && s[2] == 108 && s[3] == 105 && s[4] == 100),
        little_endian(s[80], s[81], s[82], s[83]) > 0,
        84 + 50 * little_endian(s[80], s[81], s[82], s[83]) <= s.len(),
    ensures
        ({
            let n = little_endian(s[80], s[81], s[82], s[83]);
            &&& stl_vertices(s) is Ok
            &&& stl_vertices(s)->Ok_0.len() == 3 * n
            &&& forall|t: int, i: int|
                #![trigger stl_vertices(s)->Ok_0[3 * t + i]]
                0 <= t < n && 0 <= i < 3 ==> {
                    let o = 84 + 50 * t + 12 + 12 * i;
                    stl_vertices(s)->Ok_0[3 * t + i] == SpecVertex {
                        x: SpecCoord::Bits(little_endian(s[o], s[o + 1], s[o + 2], s[o + 3])),
                        y: SpecCoord::Bits(little_endian(s[o + 4], s[o + 5], s[o + 6], s[o + 7])),
                        z: SpecCoord::Bits(
                            little_endian(s[o + 8], s[o + 9], s[o + 10], s[o + 11]),
                        ),
                    }
                }
        }),
{
    let n = little_endian(s[80], s[81], s[82], s[83]);
    assert(header_count(s) == n);
    assert(!starts_with_solid(s));
    assert(is_binary(s));
    assert forall|t: int, i: int| 0 <= t < n && 0 <= i < 3 implies {
        let o = 84 + 50 * t + 12 + 12 * i;
        #[trigger] binary_vertices(s)[3 * t + i] == SpecVertex {
            x: SpecCoord::Bits(little_endian(s[o], s[o + 1], s[o + 2], s[o + 3])),
            y: SpecCoord::Bits(little_endian(s[o + 4], s[o + 5], s[o + 6], s[o + 7])),
            z: SpecCoord::Bits(little_endian(s[o + 8], s[o + 9], s[o + 10], s[o + 11])),
        }
    } by {
        lemma_vertex_offset(t, i);
        assert(0 <= 3 * t + i < 3 * n);
    }
}

} // verus!
