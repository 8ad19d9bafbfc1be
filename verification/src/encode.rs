//! Encoding the thumbnail as a PNG image (8-bit RGBA), through the `png`
//! crate.

use vstd::prelude::*;
use crate::report::decimal_text;

verus! {

/// What the `png` crate makes of a `size` by `size` 8-bit RGBA image with
/// the given pixels, written into memory with its default compression and
/// filtering: the bytes of the PNG image, or `None` where it refuses the
/// image. Nothing else goes into the encoding (the writer is a `Vec`), so
/// this is a function of the size and the pixels alone.
pub uninterp spec fn png_rgba8(size: u32, rgba: Seq<u8>) -> Option<Seq<u8>>;

/// The text with which the `png` crate refuses a `size` by `size` 8-bit RGBA
/// image whose pixel data holds `len` bytes: the `Display` text of its
/// zero-width error, or of its wrong-buffer-size error, which names the
/// `4 * size * size` bytes it expected and the bytes it got.
pub open spec fn png_refusal(size: int, len: int) -> Seq<char> {
    if size == 0 {
        "Zero width not allowed"@
    } else {
        "wrong data size, expected "@ + decimal_text((4 * size * size) as nat) + " got "@
            + decimal_text(len as nat)
    }
}

/// Encodes a square 8-bit RGBA image into a byte vector, or gives the text
/// of the encoder's error. Calls, on a `Vec` as the writer,
/// `png::Encoder::new(_, size, size)`, `set_color(Rgba)`, `set_depth(Eight)`,
/// `write_header`, `Writer::write_image_data` and `Writer::finish`, and the
/// error's `to_string`. The crate's source shows that `write_header` refuses
/// a zero width (`Zero width not allowed`), that `write_image_data` refuses
/// data that does not hold `4 * size * size` bytes (`wrong data size,
/// expected N got M`), and that with a `Vec` as the writer nothing else
/// fails; what the bytes are is named by [`png_rgba8`].
#[verifier::external_body]
fn encode_rgba8(size: u32, rgba: &[u8]) -> (r: Result<Vec<u8>, String>)
    requires
        4 * size * size <= usize::MAX,
    ensures
        size > 0 && rgba@.len() == 4 * size * size ==> r is Ok,
        r matches Ok(bytes) ==> png_rgba8(size, rgba@) == Some(bytes@),
        r matches Err(text) ==> png_rgba8(size, rgba@) is None && text@ == png_refusal(
            size as int,
            rgba@.len() as int,
        ),
        size == 0 || rgba@.len() != 4 * size * size ==> r is Err,
{
    let mut out: Vec<u8> = Vec::new();
    let mut enc = png::Encoder::new(&mut out, size, size);
    enc.set_color(png::ColorType::Rgba);
    enc.set_depth(png::BitDepth::Eight);
    let written = match enc.write_header() {
        Ok(mut w) => match w.write_image_data(rgba) {
            Ok(()) => w.finish(),
            Err(e) => Err(e),
        },
        Err(e) => Err(e),
    };
    match written {
        Ok(()) => Ok(out),
        Err(e) => Err(e.to_string()),
    }
}

/// Why an image could not be encoded.
#[derive(Debug, PartialEq, Eq)]
pub enum EncodeError {
    /// The encoder refused the image, because its size is 0 or the pixel
    /// data does not hold 4 bytes for each of the `size * size` pixels;
    /// `message` is the encoder's own text for the refusal (see
    /// [`png_refusal`]).
    Refused { message: String },
}

/// Encodes a `size` by `size` RGBA image (4 bytes per pixel, row by row) as
/// a PNG file's bytes.
pub fn encode_png(size: usize, rgba: &[u8]) -> (r: Result<Vec<u8>, EncodeError>)
    requires
        4 * size * size <= usize::MAX,
    ensures
        r is Ok <==> size > 0 && rgba@.len() == 4 * size * size,
        r matches Ok(out) ==> png_rgba8(size as u32, rgba@) == Some(out@),
        r matches Err(EncodeError::Refused { message }) ==> message@ == png_refusal(
            size as int,
            rgba@.len() as int,
        ),
{
    proof {
        assert(size <= 0x7fff_ffff) by (nonlinear_arith)
            requires
                4 * size * size <= usize::MAX,
                usize::MAX <= 0xffff_ffff_ffff_ffff,
        ;
    }
    let side = size as u32;
    match encode_rgba8(side, rgba) {
        Ok(bytes) => Ok(bytes),
        Err(message) => Err(EncodeError::Refused { message }),
    }
}

} // verus!
