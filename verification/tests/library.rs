//! Scenarios for the parts of the library beyond the STL reader's own tests.

use stl2png::cli::{parse_args, parse_size, Action};
use stl2png::encode::{encode_png, EncodeError};
use stl2png::image::{compose_rgba, coverage, downsample, drop_non_finite, Point, Rgb};
use stl2png::model::{Coord, StlError, Vertex};
use stl2png::stl::{load_stl_data, parse_stl};
use stl2png::text::float_text;

fn dec(s: &str) -> Coord { Coord::Decimal(s.as_bytes().to_vec()) }

fn args(a: &[&str]) -> Vec<Vec<u8>> { a.iter().map(|s| s.as_bytes().to_vec()).collect() }

// ---- ASCII words and numbers ------------------------------------------

#[test]
fn float_grammar_follows_f32_from_str() {
    for ok in ["0", "1.", ".5", "-2.5E-1", "+3", "1e1", "1E+05", "inf", "-Infinity", "NaN", "+nan", "007"] {
        assert!(float_text(ok.as_bytes()), "{ok} should be accepted");
        assert!(ok.parse::<f32>().is_ok());
    }
    for bad in ["", ".", "+", "-", "e5", "1e", "1e+", "1.2.3", "five", "+-1", "1_0", "infinit", "0x10", "1 "] {
        assert!(!float_text(bad.as_bytes()), "{bad:?} should be refused");
        assert!(bad.parse::<f32>().is_err());
    }
}

#[test]
fn ascii_coordinates_keep_their_text() {
    let v = parse_stl(b"vertex 1e1 -2.5E-1 +3\nvertex 0 0 0\nvertex 1 2 3\n").unwrap();
    assert_eq!(v[0], Vertex { x: dec("1e1"), y: dec("-2.5E-1"), z: dec("+3") });
}

#[test]
fn unicode_white_space_separates_words() {
    let data = "vertex\u{a0}1\u{2003}2\u{3000}3\r\nvertex 4 5 6\u{85}\nvertex 7 8 9";
    let v = parse_stl(data.as_bytes()).unwrap();
    assert_eq!(v.len(), 3);
    assert_eq!(v[0], Vertex { x: dec("1"), y: dec("2"), z: dec("3") });
    assert_eq!(v[1].z, dec("6"));
}

#[test]
fn non_space_unicode_joins_words() {
    // U+200B ZERO WIDTH SPACE is not white space.
    let data = "vertex 1\u{200b}2 3\n";
    assert_eq!(parse_stl(data.as_bytes()).unwrap_err(), StlError::MalformedVertex { line: 1 });
}

#[test]
fn keyword_must_be_a_whole_word() {
    let data = "vertices 1 2 3\nvertex1 2 3 4\n  outer vertex 1 2 3\n";
    assert!(parse_stl(data.as_bytes()).unwrap().is_empty());
}

#[test]
fn first_malformed_line_is_reported() {
    let data = "vertex 1 2 3\n\nvertex 1 2\nvertex a b c\n";
    assert_eq!(parse_stl(data.as_bytes()).unwrap_err(), StlError::MalformedVertex { line: 3 });
}

#[test]
fn binary_coordinates_are_bit_patterns() {
    let mut d = vec![0u8; 80];
    d.extend_from_slice(&1u32.to_le_bytes());
    d.extend_from_slice(&[0u8; 12]);
    for k in 0..9u32 {
        d.extend_from_slice(&(0x3f80_0000u32 + k).to_le_bytes());
    }
    d.extend_from_slice(&[0u8; 2]);
    let v = parse_stl(&d).unwrap();
    assert_eq!(v.len(), 3);
    assert_eq!(v[0].x, Coord::Bits(0x3f80_0000));
    assert_eq!(v[2].z, Coord::Bits(0x3f80_0008));
}

#[test]
fn binary_with_solid_header_and_junk_is_read_as_text() {
    let mut d = b"solid x\nvertex 1 2 3\nvertex 4 5 6\nvertex 7 8 9\n".to_vec();
    d.resize(80, b' ');
    d.extend_from_slice(&1u32.to_le_bytes());
    d.extend_from_slice(&[b' '; 60]);
    let v = parse_stl(&d).unwrap();
    assert_eq!(v[1], Vertex { x: dec("4"), y: dec("5"), z: dec("6") });
}

// ---- errors -------------------------------------------------------------

#[test]
fn error_messages() {
    assert_eq!(StlError::MalformedVertex { line: 0 }.message(), "line 0: malformed vertex");
    assert_eq!(StlError::MalformedVertex { line: 1234567 }.message(), "line 1234567: malformed vertex");
    assert_eq!(StlError::VertexCount { count: 10 }.message(), "vertex count 10 is not a multiple of 3");
    assert_eq!(StlError::NoTriangles.message(), "no triangles found");
}

#[test]
fn empty_model_is_refused() {
    assert_eq!(load_stl_data(b"solid e\nendsolid e\n").unwrap_err(), StlError::NoTriangles);
    assert_eq!(load_stl_data(b"vertex 1 2\n").unwrap_err(), StlError::MalformedVertex { line: 1 });
    assert_eq!(load_stl_data(b"vertex 1 2 3\nvertex 1 2 3\nvertex 1 2 3\n").unwrap().len(), 3);
}

// ---- command line -------------------------------------------------------

#[test]
fn help_and_version_win_where_they_stand() {
    assert_eq!(parse_args(&args(&["-h"])), Action::Help);
    assert_eq!(parse_args(&args(&["a", "--help", "-s", "0"])), Action::Help);
    assert_eq!(parse_args(&args(&["-V"])), Action::Version);
    assert_eq!(parse_args(&args(&["--version", "x"])), Action::Version);
    assert_eq!(parse_args(&args(&["-s", "0", "-h"])), Action::BadSize);
}

#[test]
fn file_names_and_sizes() {
    assert_eq!(parse_args(&args(&["a.stl", "b.png"])), Action::Render { size: 256, input: 0, output: 1 });
    assert_eq!(parse_args(&args(&["a.stl", "b.png", "--size", "32"])), Action::Render { size: 32, input: 0, output: 1 });
    assert_eq!(parse_args(&args(&["-s", "+17", "a", "b"])), Action::Render { size: 17, input: 2, output: 3 });
    assert_eq!(parse_args(&args(&["-s", "2", "-s", "4096", "a", "b"])), Action::Render { size: 4096, input: 4, output: 5 });
    for wrong in [&[][..], &["only.stl"][..], &["a.stl", "b.png", "c.png"][..], &["-s", "64"][..]] {
        assert_eq!(parse_args(&args(wrong)), Action::Usage);
    }
}

#[test]
fn invalid_sizes() {
    for size in ["0", "4097", "-1", "abc", "12.5", "", "+", "99999999999999999999999"] {
        assert_eq!(parse_args(&args(&["-s", size, "a", "b"])), Action::BadSize, "{size:?}");
        assert_eq!(parse_size(&size.as_bytes().to_vec()), None);
    }
    assert_eq!(parse_args(&args(&["a", "b", "-s"])), Action::BadSize);
    assert_eq!(parse_size(&b"0004096".to_vec()), Some(4096));
    assert_eq!(parse_size(&b"1".to_vec()), Some(1));
}

// ---- image ----------------------------------------------------------------

fn pt(x: f32, y: f32, z: f32) -> Point { Point { x: x.to_bits(), y: y.to_bits(), z: z.to_bits() } }

#[test]
fn non_finite_triangles_are_dropped() {
    let good = [pt(0.0, 0.0, 0.0), pt(1.0, 0.0, 0.0), pt(0.0, 0.0, 1.0)];
    let nan = [pt(f32::NAN, 0.0, 0.0), pt(1.0, 0.0, 0.0), pt(0.0, 0.0, 1.0)];
    let inf = [pt(0.0, 0.0, 0.0), pt(0.0, f32::INFINITY, 0.0), pt(0.0, 0.0, 1.0)];
    let neg = [pt(0.0, 0.0, 0.0), pt(0.0, 0.0, 0.0), pt(0.0, 0.0, f32::NEG_INFINITY)];
    let mut mixed = Vec::new();
    for t in [nan, good, inf, neg] { mixed.extend_from_slice(&t); }
    mixed.push(pt(2.0, 2.0, 2.0)); // an incomplete triangle
    assert_eq!(drop_non_finite(&mixed), good.to_vec());
    assert_eq!(drop_non_finite(&good.to_vec()), good.to_vec());
    let tiny = [pt(f32::MIN_POSITIVE, -0.0, f32::MAX), pt(1e-45, 0.0, f32::MIN), pt(0.0, 0.0, 0.0)];
    assert_eq!(drop_non_finite(&tiny.to_vec()), tiny.to_vec());
}

#[test]
fn coverage_counts_samples() {
    // 2x2 output pixels over 4x4 samples.
    let mut hit = vec![false; 16];
    assert_eq!(coverage(&hit, 2), None);
    hit[0] = true; // pixel (0, 0)
    hit[5] = true; // pixel (0, 0)
    hit[6] = true; // pixel (0, 1)
    for i in [10, 11, 14, 15] { hit[i] = true; } // pixel (1, 1)
    assert_eq!(coverage(&hit, 2), Some(vec![2, 1, 0, 4]));
}

#[test]
fn alpha_is_coverage_and_background_is_transparent_black() {
    let c = Rgb { r: 10, g: 20, b: 30 };
    let img = compose_rgba(&vec![0, 1, 2, 3, 4], &vec![c; 5]);
    assert_eq!(img, vec![0, 0, 0, 0, 10, 20, 30, 63, 10, 20, 30, 127, 10, 20, 30, 191, 10, 20, 30, 255]);
}

#[test]
fn downsample_builds_the_thumbnail() {
    let mut hit = vec![false; 16];
    assert_eq!(downsample(&hit, 2, &vec![Rgb { r: 1, g: 2, b: 3 }; 4]), None);
    for i in [2, 3, 6, 7] { hit[i] = true; }
    hit[8] = true;
    let colours = vec![Rgb { r: 9, g: 9, b: 9 }, Rgb { r: 1, g: 2, b: 3 }, Rgb { r: 4, g: 5, b: 6 }, Rgb { r: 7, g: 7, b: 7 }];
    let img = downsample(&hit, 2, &colours).unwrap();
    assert_eq!(img, vec![0, 0, 0, 0, 1, 2, 3, 255, 4, 5, 6, 63, 0, 0, 0, 0]);
    assert_eq!(downsample(&vec![true; 4], 1, &vec![Rgb { r: 5, g: 6, b: 7 }]), Some(vec![5, 6, 7, 255]));
}

// ---- PNG ------------------------------------------------------------------

#[test]
fn png_encoding_round_trips() {
    let size = 3;
    let rgba: Vec<u8> = (0..36u32).map(|i| (i * 7) as u8).collect();
    let bytes = encode_png(size, &rgba).unwrap();
    assert_eq!(&bytes[..8], &[137, 80, 78, 71, 13, 10, 26, 10]);
    let decoder = png::Decoder::new(std::io::Cursor::new(bytes));
    let mut reader = decoder.read_info().unwrap();
    let mut buf = vec![0; reader.output_buffer_size()];
    let info = reader.next_frame(&mut buf).unwrap();
    assert_eq!((info.width, info.height), (3, 3));
    assert_eq!(info.color_type, png::ColorType::Rgba);
    assert_eq!(info.bit_depth, png::BitDepth::Eight);
    assert_eq!(&buf[..info.buffer_size()], &rgba[..]);
}

#[test]
fn png_encoder_refuses_bad_buffers() {
    let refused = |m: &str| Err(EncodeError::Refused { message: m.to_string() });
    assert_eq!(encode_png(0, &[]), refused("Zero width not allowed"));
    assert_eq!(encode_png(2, &[0u8; 15]), refused("wrong data size, expected 16 got 15"));
    assert_eq!(encode_png(2, &[0u8; 17]), refused("wrong data size, expected 16 got 17"));
    assert!(encode_png(2, &[0u8; 16]).is_ok());
    assert!(encode_png(1, &[1, 2, 3, 4]).is_ok());
}
