//! Reading binary and ASCII STL data.

use stl2png::model::{Coord, Vertex};
use stl2png::stl::parse_stl;

type V3 = [f32; 3];

// ---- fixtures ---------------------------------------------------------

/// Build a binary STL from triangles, with the given header and trailing bytes.
fn binary_stl(header: &[u8], tris: &[[V3; 3]], trailer: &[u8]) -> Vec<u8> {
    let mut d = Vec::new();
    d.extend_from_slice(header);
    d.resize(80, 0);
    d.extend_from_slice(&(tris.len() as u32).to_le_bytes());
    for t in tris {
        d.extend_from_slice(&[0u8; 12]); // normal, ignored
        for p in t {
            for c in p { d.extend_from_slice(&c.to_le_bytes()); }
        }
        d.extend_from_slice(&[0u8; 2]); // attribute byte count
    }
    d.extend_from_slice(trailer);
    d
}

/// Build an ASCII STL from triangles.
fn ascii_stl(tris: &[[V3; 3]]) -> String {
    let mut s = String::from("solid test\n");
    for t in tris {
        s.push_str("  facet normal 0 0 0\n    outer loop\n");
        for p in t {
            s.push_str(&format!("      vertex {} {} {}\n", p[0], p[1], p[2]));
        }
        s.push_str("    endloop\n  endfacet\n");
    }
    s.push_str("endsolid test\n");
    s
}

const TRI: [V3; 3] = [[0.0, 0.0, 0.0], [10.0, 0.0, 0.0], [0.0, 0.0, 10.0]];
const TRI2: [V3; 3] = [[1.5, -2.0, 3.25], [4.0, 5.0, 6.0], [-7.0, 8.0, 9.5]];

fn flat(tris: &[[V3; 3]]) -> Vec<V3> { tris.iter().flatten().copied().collect() }

/// The numbers that the coordinates stand for.
fn coord_value(c: &Coord) -> f32 {
    match c {
        Coord::Bits(b) => f32::from_bits(*b),
        Coord::Decimal(t) => std::str::from_utf8(t).unwrap().parse().unwrap(),
    }
}

fn floats(vs: &[Vertex]) -> Vec<V3> {
    vs.iter().map(|v| [coord_value(&v.x), coord_value(&v.y), coord_value(&v.z)]).collect()
}

// ---- STL parsing ------------------------------------------------------

#[test]
fn parses_binary_stl() {
    let data = binary_stl(b"binary header", &[TRI, TRI2], b"");
    assert_eq!(floats(&parse_stl(&data).unwrap()), flat(&[TRI, TRI2]));
}

#[test]
fn binary_stl_tolerates_trailing_junk() {
    let data = binary_stl(b"", &[TRI], b"some junk appended by an exporter");
    assert_eq!(floats(&parse_stl(&data).unwrap()), flat(&[TRI]));
}

#[test]
fn binary_stl_whose_header_starts_with_solid_is_still_binary() {
    // Some exporters write "solid" in the binary header. If the triangle count
    // matches the file size exactly, treat it as binary.
    let data = binary_stl(b"solid exported-by-foo", &[TRI, TRI2], b"");
    assert_eq!(floats(&parse_stl(&data).unwrap()), flat(&[TRI, TRI2]));
}

#[test]
fn binary_stl_starting_with_solid_and_trailing_junk_falls_back_to_ascii() {
    // Ambiguous: looks like ASCII and the count doesn't match the size. The
    // ASCII path finds no "vertex" lines, so the result is empty rather than
    // garbage triangles.
    let data = binary_stl(b"solid", &[TRI], b"junk");
    assert!(parse_stl(&data).unwrap().is_empty());
}

#[test]
fn truncated_binary_stl_is_not_trusted() {
    let mut data = binary_stl(b"", &[TRI, TRI2], b"");
    data.truncate(data.len() - 1);
    // Count says 2 triangles but the file is too short: falls through to the
    // ASCII parser, which finds nothing.
    assert!(parse_stl(&data).unwrap().is_empty());
}

#[test]
fn binary_stl_with_huge_count_does_not_overflow() {
    let mut data = vec![0u8; 84];
    data[80..84].copy_from_slice(&u32::MAX.to_le_bytes());
    data.extend_from_slice(&[0u8; 50]);
    assert!(parse_stl(&data).unwrap().is_empty());
}

#[test]
fn binary_stl_with_zero_count_yields_nothing() {
    let data = binary_stl(b"", &[], b"");
    assert_eq!(data.len(), 84);
    assert!(parse_stl(&data).unwrap().is_empty());
}

#[test]
fn parses_ascii_stl() {
    let data = ascii_stl(&[TRI, TRI2]);
    assert!(data.len() >= 84, "fixture should exercise the binary sniffing path");
    assert_eq!(floats(&parse_stl(data.as_bytes()).unwrap()), flat(&[TRI, TRI2]));
}

#[test]
fn parses_short_ascii_stl() {
    let data = "vertex 0 0 0\nvertex 1 0 0\nvertex 0 1 0\n";
    assert!(data.len() < 84);
    assert_eq!(
        floats(&parse_stl(data.as_bytes()).unwrap()),
        vec![[0.0, 0.0, 0.0], [1.0, 0.0, 0.0], [0.0, 1.0, 0.0]]
    );
}

#[test]
fn ascii_stl_is_case_insensitive_and_accepts_exponents() {
    let data = "SOLID x\nVERTEX 1e1 -2.5E-1 +3\nVertex 0 0 0\nvertex\t1\t2\t3\nENDSOLID x\n";
    assert_eq!(
        floats(&parse_stl(data.as_bytes()).unwrap()),
        vec![[10.0, -0.25, 3.0], [0.0, 0.0, 0.0], [1.0, 2.0, 3.0]]
    );
}

#[test]
fn ascii_stl_ignores_extra_tokens_after_coordinates() {
    let data = "vertex 1 2 3 extra\nvertex 4 5 6\nvertex 7 8 9\n";
    assert_eq!(parse_stl(data.as_bytes()).unwrap().len(), 3);
}

#[test]
fn ascii_stl_reports_malformed_vertex_with_line_number() {
    let data = "solid x\nvertex 1 2 3\nvertex 4 five 6\nvertex 7 8 9\n";
    assert_eq!(parse_stl(data.as_bytes()).unwrap_err().message(), "line 3: malformed vertex");
    let data = "vertex 1 2\n";
    assert_eq!(parse_stl(data.as_bytes()).unwrap_err().message(), "line 1: malformed vertex");
}

#[test]
fn ascii_stl_rejects_vertex_count_not_multiple_of_three() {
    let data = "vertex 1 2 3\nvertex 4 5 6\n";
    assert_eq!(
        parse_stl(data.as_bytes()).unwrap_err().message(),
        "vertex count 2 is not a multiple of 3"
    );
}

#[test]
fn empty_and_textual_input_yield_no_triangles() {
    assert!(parse_stl(b"").unwrap().is_empty());
    assert!(parse_stl(b"solid empty\nendsolid empty\n").unwrap().is_empty());
    assert!(parse_stl("not an stl at all \u{fffd}\u{1f600}".as_bytes()).unwrap().is_empty());
}

#[test]
fn invalid_utf8_does_not_panic() {
    let mut data = b"vertex 1 2 3\n".to_vec();
    data.extend_from_slice(&[0xff, 0xfe, 0xc0]);
    data.extend_from_slice(b"\nvertex 4 5 6\nvertex 7 8 9\n");
    assert_eq!(parse_stl(&data).unwrap().len(), 3);
}
