//! A captured screen region as the data URL sent to a vision model: the
//! pixels turned from BGRA to opaque RGBA, encoded as PNG, in base64.
use vstd::prelude::*;

use crate::types::PublicError;
use base64::Engine;

verus! {

/// Each full BGRA pixel of `b` as an opaque RGBA pixel, in order; a last
/// partial pixel is dropped.
pub open spec fn bgra_to_rgba(b: Seq<u8>) -> Seq<u8>
    decreases b.len(),
{
    if b.len() < 4 {
        seq![]
    } else {
        seq![b[2], b[1], b[0], 255u8] + bgra_to_rgba(b.subrange(4, b.len() as int))
    }
}

proof fn lemma_bgra_to_rgba_split(b: Seq<u8>, i: int)
    requires
        0 <= i,
        i % 4 == 0,
        i + 4 <= b.len(),
    ensures
        bgra_to_rgba(b.subrange(i, b.len() as int)) == seq![b[i + 2], b[i + 1], b[i], 255u8]
            + bgra_to_rgba(b.subrange(i + 4, b.len() as int)),
{
    let s = b.subrange(i, b.len() as int);
    assert(s.subrange(4, s.len() as int) =~= b.subrange(i + 4, b.len() as int));
}

/// The pixels of a capture, converted (see `bgra_to_rgba`).
pub fn bgra_pixels_to_rgba(bgra: &[u8]) -> (r: Vec<u8>)
    ensures
        r@ == bgra_to_rgba(bgra@),
{
    let mut out: Vec<u8> = Vec::new();
    let mut i: usize = 0;
    assert(bgra@.subrange(0, bgra@.len() as int) =~= bgra@);
    while 4 <= bgra.len() - i
        invariant
            i <= bgra@.len(),
            i % 4 == 0,
            bgra_to_rgba(bgra@) == out@ + bgra_to_rgba(bgra@.subrange(i as int, bgra@.len() as int)),
        decreases bgra.len() - i,
    {
        proof {
            lemma_bgra_to_rgba_split(bgra@, i as int);
        }
        let ghost before = out@;
        out.push(bgra[i + 2]);
        out.push(bgra[i + 1]);
        out.push(bgra[i]);
        out.push(255u8);
        assert(out@ =~= before + seq![bgra@[i + 2], bgra@[i + 1], bgra@[i as int], 255u8]);
        i = i + 4;
    }
    assert(out@ + bgra_to_rgba(bgra@.subrange(i as int, bgra@.len() as int)) =~= out@);
    out
}

/// The bytes of an 8-bit RGBA image of this size fit in `usize`.
pub open spec fn image_size_fits(width: u32, height: u32) -> bool {
    width as int * 4 * height as int <= usize::MAX
}

/// The PNG that `png::Encoder` writes for an 8-bit RGBA image of the given
/// size and pixels, or the text of its error.
pub uninterp spec fn spec_png_rgba8(rgba: Seq<u8>, width: u32, height: u32) -> Result<Seq<u8>, Seq<char>>;

/// Encodes 8-bit RGBA pixels with `png::Encoder` (`write_header`, then
/// `write_image_data`). Claimed: the bytes, or the displayed error, are a
/// function of the pixels and the size (`spec_png_rgba8`).
/// The encoder computes the size of the image as `width * 4 * height`
/// without checking it, so that size must fit in `usize`; it refuses a zero
/// width or height, and pixels of another size, with an error.
#[verifier::external_body]
fn encode_png_rgba8(rgba: &[u8], width: u32, height: u32) -> (r: Result<Vec<u8>, String>)
    requires
        image_size_fits(width, height),
    ensures
        match r {
            Ok(bytes) => spec_png_rgba8(rgba@, width, height) == Ok::<Seq<u8>, Seq<char>>(bytes@),
            Err(m) => spec_png_rgba8(rgba@, width, height) == Err::<Seq<u8>, Seq<char>>(m@),
        },
{
    let mut png_bytes: Vec<u8> = Vec::new();
    {
        let mut encoder = png::Encoder::new(&mut png_bytes, width, height);
        encoder.set_color(png::ColorType::Rgba);
        encoder.set_depth(png::BitDepth::Eight);
        let mut writer = encoder.write_header().map_err(|err| err.to_string())?;
        writer.write_image_data(rgba).map_err(|err| err.to_string())?;
    }
    Ok(png_bytes)
}

/// The character of a 6-bit value in the standard base64 alphabet
/// (`A`-`Z`, `a`-`z`, `0`-`9`, `+`, `/`).
pub open spec fn base64_char(v: int) -> char {
    if v < 26 {
        (65 + v) as char
    } else if v < 52 {
        (97 + v - 26) as char
    } else if v < 62 {
        (48 + v - 52) as char
    } else if v == 62 {
        '+'
    } else {
        '/'
    }
}

/// The standard base64 text of some bytes, with padding: each group of
/// three bytes becomes four characters, 6 bits each; a last group of one or
/// two bytes is padded with `=`.
pub open spec fn spec_base64_standard(bytes: Seq<u8>) -> Seq<char>
    decreases bytes.len(),
{
    if bytes.len() == 0 {
        seq![]
    } else if bytes.len() == 1 {
        let n = bytes[0] as int;
        seq![base64_char(n / 4), base64_char((n % 4) * 16), '=', '=']
    } else if bytes.len() == 2 {
        let n = bytes[0] as int * 256 + bytes[1] as int;
        seq![base64_char(n / 1024), base64_char((n / 16) % 64), base64_char((n % 16) * 4), '=']
    } else {
        let n = bytes[0] as int * 65536 + bytes[1] as int * 256 + bytes[2] as int;
        seq![
            base64_char(n / 262144),
            base64_char((n / 4096) % 64),
            base64_char((n / 64) % 64),
            base64_char(n % 64),
        ] + spec_base64_standard(bytes.subrange(3, bytes.len() as int))
    }
}

/// `base64::engine::general_purpose::STANDARD.encode`. Claimed: the text is
/// the standard padded base64 of the bytes (`spec_base64_standard`). The
/// encoder panics where the text's length overflows `usize`, which the
/// bound rules out.
#[verifier::external_body]
fn base64_standard(bytes: &[u8]) -> (r: String)
    requires
        bytes@.len() < usize::MAX / 2,
    ensures
        r@ == spec_base64_standard(bytes@),
{
    base64::engine::general_purpose::STANDARD.encode(bytes)
}

/// The message of a capture too large to encode.
pub open spec fn image_too_large_message() -> Seq<char> {
    "截图区域过大，无法编码。"@
}

/// The data URL of a captured region: its BGRA pixels as an RGBA PNG, in
/// base64; refused where the image's size does not fit in memory, and with
/// the encoder's error.
pub fn png_data_url_from_bgra(bgra: &[u8], width: u32, height: u32) -> (r: Result<
    String,
    PublicError,
>)
    ensures
        !image_size_fits(width, height) ==> (r matches Err(e) && e.code@ == "screenshot_encode_failed"@
            && e.message@ == image_too_large_message()),
        image_size_fits(width, height) ==> match spec_png_rgba8(bgra_to_rgba(bgra@), width, height) {
            Ok(png) => png.len() < usize::MAX / 2 ==> (r matches Ok(url) && url@ == "data:image/png;base64,"@
                + spec_base64_standard(png)),
            Err(m) => r matches Err(e) && e.code@ == "screenshot_encode_failed"@ && e.message@ == m,
        },
        r matches Err(e) ==> e.code@ == "screenshot_encode_failed"@,
{
    let w4: u128 = (width as u128) * 4;
    let h: u128 = height as u128;
    assert(w4 * h <= 0x4_0000_0000 * 0x1_0000_0000) by (nonlinear_arith)
        requires
            w4 <= 0x4_0000_0000,
            h <= 0x1_0000_0000,
    ;
    let too_large = w4 * h > usize::MAX as u128;
    if too_large {
        return Err(crate::types::public_error("screenshot_encode_failed", "截图区域过大，无法编码。"));
    }
    let rgba = bgra_pixels_to_rgba(bgra);
    let png = match encode_png_rgba8(&rgba, width, height) {
        Ok(bytes) => bytes,
        Err(m) => {
            return Err(PublicError { code: crate::text::owned("screenshot_encode_failed"), message: m });
        },
    };
    if png.len() >= usize::MAX / 2 {
        return Err(crate::types::public_error("screenshot_encode_failed", "PNG data is too large."));
    }
    let mut url = crate::text::chars_of("data:image/png;base64,");
    let encoded = base64_standard(&png);
    crate::text::push_str(&mut url, encoded.as_str());
    Ok(crate::text::string_of(&url))
}

} // verus!
