//! Trusted wrappers around the outside codec libraries. Each transform is a
//! pure function from input bytes (and a fixed quality or preset level) to
//! output bytes, and whether it succeeds depends on those arguments alone;
//! each result is therefore named, `None` standing for the codec's failure,
//! so that callers' contracts can be exact without restating an encoder
//! page by page.
use vstd::prelude::*;

verus! {

/// The bytes of a PNG losslessly re-optimized at a preset level, or `None`
/// when the input does not decode as a PNG.
pub uninterp spec fn png_optimized(data: Seq<u8>, level: u8) -> Option<Seq<u8>>;

/// The bytes of an image re-encoded as JPEG in its own color mode, or
/// `None` when the input does not decode or its color mode cannot be
/// written as JPEG.
pub uninterp spec fn jpeg_reencoded(data: Seq<u8>, quality: u8) -> Option<Seq<u8>>;

/// The bytes of an image flattened to RGB and encoded as JPEG, or `None`
/// when the input does not decode or the encode fails.
pub uninterp spec fn jpeg_converted(data: Seq<u8>, quality: u8) -> Option<Seq<u8>>;

/// The bytes of an image re-encoded as PNG, or `None` when the input does
/// not decode or the encode fails.
pub uninterp spec fn png_converted(data: Seq<u8>) -> Option<Seq<u8>>;

/// The bytes of an image re-encoded as WebP, or `None` when the input does
/// not decode or the encode fails (a dimension beyond the format's limit).
pub uninterp spec fn webp_converted(data: Seq<u8>) -> Option<Seq<u8>>;

/// Relies on oxipng::optimize_from_memory with oxipng::Options::from_preset:
/// a lossless PNG re-encode, a function of the input bytes and the preset
/// level alone.
#[verifier::external_body]
pub(crate) fn optimize_png(data: &Vec<u8>, level: u8) -> (r: Result<Vec<u8>, String>)
    ensures
        (r is Ok) == (png_optimized(data@, level) is Some),
        r matches Ok(v) ==> Some(v@) == png_optimized(data@, level),
{
    let options = oxipng::Options::from_preset(level);
    oxipng::optimize_from_memory(data.as_slice(), &options).map_err(|e| e.to_string())
}

/// Relies on image::load_from_memory (format sniffed from the content) and
/// image::codecs::jpeg::JpegEncoder::encode at a fixed quality, keeping the
/// decoded color mode; a function of the input bytes and the quality alone.
#[verifier::external_body]
pub(crate) fn reencode_jpeg(data: &Vec<u8>, quality: u8) -> (r: Result<Vec<u8>, String>)
    ensures
        (r is Ok) == (jpeg_reencoded(data@, quality) is Some),
        r matches Ok(v) ==> Some(v@) == jpeg_reencoded(data@, quality),
{
    let img = image::load_from_memory(data.as_slice()).map_err(|e| e.to_string())?;
    let mut cursor = std::io::Cursor::new(Vec::new());
    let mut encoder = image::codecs::jpeg::JpegEncoder::new_with_quality(&mut cursor, quality);
    encoder
        .encode(img.as_bytes(), img.width(), img.height(), img.color().into())
        .map_err(|e| e.to_string())?;
    Ok(cursor.into_inner())
}

/// Relies on image::load_from_memory, DynamicImage::to_rgb8 (flattening away
/// transparency, which JPEG cannot carry) and JpegEncoder::encode; a function
/// of the input bytes and the quality alone.
#[verifier::external_body]
pub(crate) fn convert_to_jpeg(data: &Vec<u8>, quality: u8) -> (r: Result<Vec<u8>, String>)
    ensures
        (r is Ok) == (jpeg_converted(data@, quality) is Some),
        r matches Ok(v) ==> Some(v@) == jpeg_converted(data@, quality),
{
    let img = image::load_from_memory(data.as_slice()).map_err(|e| e.to_string())?;
    let rgb = img.to_rgb8();
    let mut cursor = std::io::Cursor::new(Vec::new());
    let mut encoder = image::codecs::jpeg::JpegEncoder::new_with_quality(&mut cursor, quality);
    encoder
        .encode(&rgb, rgb.width(), rgb.height(), image::ExtendedColorType::Rgb8)
        .map_err(|e| e.to_string())?;
    Ok(cursor.into_inner())
}

/// Relies on image::load_from_memory and DynamicImage::write_to with the PNG
/// format; a function of the input bytes alone.
#[verifier::external_body]
pub(crate) fn convert_to_png(data: &Vec<u8>) -> (r: Result<Vec<u8>, String>)
    ensures
        (r is Ok) == (png_converted(data@) is Some),
        r matches Ok(v) ==> Some(v@) == png_converted(data@),
{
    let img = image::load_from_memory(data.as_slice()).map_err(|e| e.to_string())?;
    let mut cursor = std::io::Cursor::new(Vec::new());
    img.write_to(&mut cursor, image::ImageFormat::Png).map_err(|e| e.to_string())?;
    Ok(cursor.into_inner())
}

/// Relies on image::load_from_memory and DynamicImage::write_to with the
/// WebP format; a function of the input bytes alone.
#[verifier::external_body]
pub(crate) fn convert_to_webp(data: &Vec<u8>) -> (r: Result<Vec<u8>, String>)
    ensures
        (r is Ok) == (webp_converted(data@) is Some),
        r matches Ok(v) ==> Some(v@) == webp_converted(data@),
{
    let img = image::load_from_memory(data.as_slice()).map_err(|e| e.to_string())?;
    let mut cursor = std::io::Cursor::new(Vec::new());
    img.write_to(&mut cursor, image::ImageFormat::WebP).map_err(|e| e.to_string())?;
    Ok(cursor.into_inner())
}

/// A lowercase hexadecimal digit.
pub open spec fn is_lower_hex_digit(c: char) -> bool {
    ('0' <= c && c <= '9') || ('a' <= c && c <= 'f')
}

/// Where the hyphens stand in a hyphenated token.
pub open spec fn is_token_hyphen_pos(i: int) -> bool {
    i == 8 || i == 13 || i == 18 || i == 23
}

/// Relies on uuid::Uuid::new_v4 and its hyphenated rendering: a random
/// token of 36 characters, lowercase hex digits with hyphens at the four
/// fixed positions. Randomness is the point: nothing relates two calls, so
/// only the shape is stated. The call aborts if the operating system's
/// random source fails — purely environmental, no input reaches it.
#[verifier::external_body]
pub(crate) fn fresh_token() -> (r: String)
    ensures
        r@.len() == 36,
        forall|i: int|
            0 <= i < 36 ==> if is_token_hyphen_pos(i) {
                #[trigger] r@[i] == '-'
            } else {
                is_lower_hex_digit(r@[i])
            },
{
    format!("{}", uuid::Uuid::new_v4())
}

} // verus!
