//! The ASCII STL format as this library reads it: the data is cut into lines
//! at each line feed; a line whose first word is `vertex` (in any case)
//! gives a vertex from the next three words, which must be numbers; words
//! after them, and every other line, are ignored.
//!
//! Cutting at line feeds gives the lines of `str::lines`: a carriage return
//! before a line feed is white space within the line, and the empty piece
//! after a final line feed holds no word.

use vstd::prelude::*;
use crate::model::{
    Coord, SpecCoord, SpecVertex, StlError, Vertex, vertices_view, lemma_vertices_view_push,
    parsed_view,
};
use crate::text::{
    next_word, is_vertex_keyword, is_float_text, next_word_at, is_vertex_word, float_text,
    is_visible_ascii, lemma_word_len_of_visible, lemma_next_word_after_space, space_width,
    skip_space,
};

verus! {

/// What a line holds.
pub enum SpecLine {
    Other,
    Vertex(SpecVertex),
    Malformed,
}

/// What a line holds, as computed.
pub enum LineKind {
    /// The line is not a `vertex` line.
    Other,
    /// A `vertex` line with three numbers.
    Vertex(Vertex),
    /// A `vertex` line without three numbers after the keyword.
    Malformed,
}

impl View for LineKind {
    type V = SpecLine;

    open spec fn view(&self) -> SpecLine {
        match self {
            LineKind::Other => SpecLine::Other,
            LineKind::Vertex(v) => SpecLine::Vertex(v@),
            LineKind::Malformed => SpecLine::Malformed,
        }
    }
}

/// The next word of `s` as a coordinate, with what follows it; `None` when
/// there is no next word or it is not a number.
pub open spec fn next_coord(s: Seq<u8>) -> Option<(SpecCoord, Seq<u8>)> {
    match next_word(s) {
        Some((w, r)) => if is_float_text(w) {
            Some((SpecCoord::Decimal(w), r))
        } else {
            None
        },
        None => None,
    }
}

/// What a line holds.
pub open spec fn line_class(line: Seq<u8>) -> SpecLine {
    match next_word(line) {
        None => SpecLine::Other,
        Some((k, r0)) => if !is_vertex_keyword(k) {
            SpecLine::Other
        } else {
            match next_coord(r0) {
                Some((x, r1)) => match next_coord(r1) {
                    Some((y, r2)) => match next_coord(r2) {
                        Some((z, _)) => SpecLine::Vertex(SpecVertex { x, y, z }),
                        None => SpecLine::Malformed,
                    },
                    None => SpecLine::Malformed,
                },
                None => SpecLine::Malformed,
            }
        },
    }
}

/// The position of the first line feed of `s`, or its length.
pub open spec fn first_newline(s: Seq<u8>) -> int
    decreases s.len(),
{
    if s.len() == 0 || s[0] == 10 {
        0
    } else {
        1 + first_newline(s.drop_first())
    }
}

pub proof fn lemma_first_newline_bounds(s: Seq<u8>)
    ensures
        0 <= first_newline(s) <= s.len(),
        first_newline(s) < s.len() ==> s[first_newline(s)] == 10,
        forall|k: int| 0 <= k < first_newline(s) ==> s[k] != 10,
    decreases s.len(),
{
    if s.len() > 0 && s[0] != 10 {
        lemma_first_newline_bounds(s.drop_first());
        assert forall|k: int| 0 <= k < first_newline(s) implies s[k] != 10 by {
            if k > 0 {
                assert(s[k] == s.drop_first()[k - 1]);
            }
        }
    }
}

/// The lines of `s`: the pieces between line feeds.
pub open spec fn split_lines(s: Seq<u8>) -> Seq<Seq<u8>>
    decreases s.len(),
{
    let e = first_newline(s);
    if e < 0 || e >= s.len() {
        seq![s]
    } else {
        seq![s.take(e)] + split_lines(s.skip(e + 1))
    }
}

/// The vertices of `lines`, whose first is numbered `first`; `Err` with the
/// number of the first malformed `vertex` line.
pub open spec fn collect_vertices(lines: Seq<Seq<u8>>, first: int) -> Result<Seq<SpecVertex>, int>
    decreases lines.len(),
{
    if lines.len() == 0 {
        Ok(Seq::empty())
    } else {
        match line_class(lines[0]) {
            SpecLine::Malformed => Err(first),
            SpecLine::Other => collect_vertices(lines.drop_first(), first + 1),
            SpecLine::Vertex(v) => match collect_vertices(lines.drop_first(), first + 1) {
                Ok(vs) => Ok(seq![v] + vs),
                Err(e) => Err(e),
            },
        }
    }
}

/// The result of reading `s` as an ASCII file.
pub open spec fn ascii_vertices(s: Seq<u8>) -> Result<Seq<SpecVertex>, StlError> {
    match collect_vertices(split_lines(s), 1) {
        Err(line) => Err(StlError::MalformedVertex { line: line as usize }),
        Ok(vs) => if vs.len() % 3 != 0 {
            Err(StlError::VertexCount { count: vs.len() as usize })
        } else {
            Ok(vs)
        },
    }
}

spec fn prepend(acc: Seq<SpecVertex>, r: Result<Seq<SpecVertex>, int>) -> Result<
    Seq<SpecVertex>,
    int,
> {
    match r {
        Ok(vs) => Ok(acc + vs),
        Err(e) => Err(e),
    }
}

/// A copy of `s[a..b]`.
pub fn copy_range(s: &[u8], a: usize, b: usize) -> (v: Vec<u8>)
    requires
        a <= b <= s@.len(),
    ensures
        v@ == s@.subrange(a as int, b as int),
{
    let mut v: Vec<u8> = Vec::new();
    let mut k = a;
    while k < b
        invariant
            a <= k <= b,
            b <= s@.len(),
            v@ == s@.subrange(a as int, k as int),
        decreases b - k,
    {
        v.push(s[k]);
        assert(v@ =~= s@.subrange(a as int, k + 1));
        k = k + 1;
    }
    v
}

/// The next word at or after `i` as a coordinate, with the position after
/// it.
fn coord_at(s: &[u8], i: usize) -> (r: Option<(Coord, usize)>)
    requires
        i <= s@.len(),
    ensures
        match r {
            None => next_coord(s@.skip(i as int)) is None,
            Some((c, j)) => j <= s@.len() && next_coord(s@.skip(i as int)) == Some(
                (c@, s@.skip(j as int)),
            ),
        },
{
    match next_word_at(s, i) {
        None => None,
        Some((a, b)) => {
            let w = copy_range(s, a, b);
            if float_text(w.as_slice()) {
                Some((Coord::Decimal(w), b))
            } else {
                None
            }
        },
    }
}

/// Classifies one line.
pub fn classify_line(s: &[u8]) -> (k: LineKind)
    ensures
        k@ == line_class(s@),
{
    assert(s@.skip(0) =~= s@);
    match next_word_at(s, 0) {
        None => LineKind::Other,
        Some((a, b)) => {
            if !is_vertex_word(s, a, b) {
                return LineKind::Other;
            }
            match coord_at(s, b) {
                None => LineKind::Malformed,
                Some((x, j1)) => match coord_at(s, j1) {
                    None => LineKind::Malformed,
                    Some((y, j2)) => match coord_at(s, j2) {
                        None => LineKind::Malformed,
                        Some((z, _)) => LineKind::Vertex(Vertex { x, y, z }),
                    },
                },
            }
        },
    }
}

/// The position of the first line feed at or after `i`, or the length.
fn line_end(s: &[u8], i: usize) -> (j: usize)
    requires
        i <= s@.len(),
    ensures
        i <= j <= s@.len(),
        j - i == first_newline(s@.skip(i as int)),
{
    let len = s.len();
    let mut j = i;
    while j < len && s[j] != 10
        invariant
            i <= j <= len,
            len == s@.len(),
            first_newline(s@.skip(i as int)) == (j - i) + first_newline(s@.skip(j as int)),
        decreases len - j,
    {
        assert(s@.skip(j as int).drop_first() =~= s@.skip(j + 1));
        j = j + 1;
    }
    j
}

/// Reads `data` as an ASCII file.
pub fn parse_ascii(data: &[u8]) -> (r: Result<Vec<Vertex>, StlError>)
    ensures
        parsed_view(r) == ascii_vertices(data@),
{
    let len = data.len();
    let mut out: Vec<Vertex> = Vec::new();
    let mut pos: usize = 0;
    let mut done: usize = 0;
    assert(data@.skip(0) =~= data@);
    loop
        invariant
            pos <= len,
            len == data@.len(),
            done <= pos,
            collect_vertices(split_lines(data@), 1) == prepend(
                vertices_view(out@),
                collect_vertices(split_lines(data@.skip(pos as int)), done + 1),
            ),
        decreases len - pos,
    {
        let end = line_end(data, pos);
        let line = &data[pos..end];
        let ghost t = data@.skip(pos as int);
        let ghost e = end - pos;
        proof {
            lemma_first_newline_bounds(t);
            assert(line@ =~= t.take(e));
        }
        let kind = classify_line(line);
        let ghost rest_lines = if end < len {
            split_lines(data@.skip(end + 1))
        } else {
            Seq::<Seq<u8>>::empty()
        };
        proof {
            if end < len {
                assert(t.skip(e + 1) =~= data@.skip(end + 1));
                assert(split_lines(t) == seq![t.take(e)] + rest_lines);
            } else {
                assert(t.take(e) =~= t);
                assert(split_lines(t) == seq![t]);
                assert(split_lines(t) =~= seq![t.take(e)] + rest_lines);
            }
            let lines = split_lines(t);
            assert(lines[0] == line@);
            assert(lines.drop_first() =~= rest_lines);
        }
        match kind {
            LineKind::Malformed => {
                // A malformed line holds a word, so it is not empty.
                assert(line@.len() > 0);
                return Err(StlError::MalformedVertex { line: done + 1 });
            },
            LineKind::Other => {},
            LineKind::Vertex(v) => {
                proof {
                    lemma_vertices_view_push(out@, v);
                    let old_view = vertices_view(out@);
                    match collect_vertices(rest_lines, done + 2) {
                        Ok(vs) => {
                            assert(old_view + (seq![v@] + vs) =~= old_view.push(v@) + vs);
                        },
                        Err(_) => {},
                    }
                }
                out.push(v);
            },
        }
        if end == len {
            assert(collect_vertices(rest_lines, done + 2) == Ok::<Seq<SpecVertex>, int>(Seq::empty()));
            assert(vertices_view(out@) + Seq::<SpecVertex>::empty() =~= vertices_view(out@));
            if out.len() % 3 != 0 {
                return Err(StlError::VertexCount { count: out.len() });
            }
            return Ok(out);
        }
        pos = end + 1;
        done = done + 1;
    }
}

} // verus!

verus! {

/// The bytes of the word `vertex`.
pub open spec fn vertex_word() -> Seq<u8> {
    seq![118u8, 101, 114, 116, 101, 120]
}

/// A line `vertex a b c ...` whose words `a`, `b` and `c` are numbers gives
/// the vertex whose coordinates are those three words, each kept whole.
pub proof fn law_vertex_line_keeps_whole_words(
    w1: Seq<u8>,
    w2: Seq<u8>,
    w3: Seq<u8>,
    rest: Seq<u8>,
)
    requires
        w1.len() > 0 && is_visible_ascii(w1) && is_float_text(w1),
        w2.len() > 0 && is_visible_ascii(w2) && is_float_text(w2),
        w3.len() > 0 && is_visible_ascii(w3) && is_float_text(w3),
        rest.len() == 0 || rest[0] == 32,
    ensures
        line_class(
            vertex_word() + seq![32u8] + w1 + seq![32u8] + w2 + seq![32u8] + w3 + rest,
        ) == SpecLine::Vertex(
            SpecVertex {
                x: SpecCoord::Decimal(w1),
                y: SpecCoord::Decimal(w2),
                z: SpecCoord::Decimal(w3),
            },
        ),
{
    let sp = seq![32u8];
    let kw = vertex_word();
    let r2 = sp + w3 + rest;
    let r1 = sp + w2 + r2;
    let r0 = sp + w1 + r1;
    let line = kw + sp + w1 + sp + w2 + sp + w3 + rest;
    assert(line =~= kw + r0);
    assert(is_visible_ascii(kw));
    lemma_word_len_of_visible(kw, r0);
    assert((kw + r0)[0] == 118);
    assert(space_width(kw + r0) == 0);
    assert(skip_space(kw + r0) == kw + r0);
    assert((kw + r0).take(6) =~= kw);
    assert((kw + r0).skip(6) =~= r0);
    assert(is_vertex_keyword(kw));
    assert(next_word(line) == Some((kw, r0)));
    lemma_next_word_after_space(w3, rest);
    lemma_next_word_after_space(w2, r2);
    lemma_next_word_after_space(w1, r1);
}

} // verus!
