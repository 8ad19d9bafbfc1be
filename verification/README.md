# stl2png

A tiny CPU-only STL thumbnailer: `stl2png [-s SIZE] input.stl output.png`
renders a model from a fixed three-quarter view into a transparent
`SIZE`×`SIZE` PNG (default 256, at most 4096).

The library under `src/` is verified with Verus:

- `binary`, `text`, `ascii`, `stl` — reading an STL model from the bytes of a
  file. The binary layout is recognised from its header and size; the ASCII
  format is read line by line, with the words cut as `split_whitespace` cuts
  them and the numbers checked against the grammar of `f32::from_str`.
  Coordinates are kept exactly as the file writes them (a bit pattern or the
  decimal text).
- `report` — the messages of the errors.
- `cli` — what the command line asks for.
- `image` — dropping triangles with non-finite coordinates, the coverage of
  the supersampled raster, and the RGBA image whose alpha is that coverage.
- `encode` — the PNG encoding, through the `png` crate.

`app/main.rs` is the program around it: file I/O, printing, and the
floating-point geometry (camera, rasterization, shading).
