//! Trusted bindings to the external image codec, resampler, and font
//! rasterizer.
//!
//! Each function here is the single place where one external call is made;
//! its contract states only what the external crate's source shows. Results
//! that would take pages to state exactly (a resampled image, a glyph run, a
//! PNG stream) are given names instead: uninterpreted functions of the call's
//! arguments alone.

use vstd::prelude::*;

use crate::colors::Color;
use crate::picture::FilterType;

verus! {

/// Whether the external font parser accepts these bytes as a font: a
/// deterministic function of the bytes alone.
pub uninterp spec fn font_parses(bytes: Seq<u8>) -> bool;

/// The raw RGBA bytes of the glyph run that the external rasterizer draws
/// for `content` at uniform point scale `size`, tinted with the RGBA fill
/// `(red, green, blue, alpha)`, onto a transparent `width * height`
/// surface placed at the surface's origin.
pub uninterp spec fn text_raster(
    font: Seq<u8>,
    content: Seq<char>,
    size: u16,
    red: u8,
    green: u8,
    blue: u8,
    alpha: u8,
    width: u32,
    height: u32,
) -> Seq<u8>;

/// The raw RGBA bytes of the external resampler's output when a
/// `width * height` RGBA source is resized to `nwidth * nheight` with the
/// filter numbered `filter` (see `filter_code`).
pub uninterp spec fn resize_bytes(
    data: Seq<u8>,
    width: u32,
    height: u32,
    nwidth: u32,
    nheight: u32,
    filter: int,
) -> Seq<u8>;

/// The PNG byte stream that the external encoder produces for a
/// `width * height` 8-bit RGBA image with these raw bytes.
pub uninterp spec fn png_bytes(data: Seq<u8>, width: u32, height: u32) -> Seq<u8>;

/// A stable number for each resampling filter, used to name the resampler's
/// result per filter.
pub open spec fn filter_code(f: FilterType) -> int {
    match f {
        FilterType::Nearest => 0,
        FilterType::Triangle => 1,
        FilterType::CatmullRom => 2,
        FilterType::Gaussian => 3,
        FilterType::Lanczos3 => 4,
    }
}

/// Relies on rusttype's `Font::try_from_vec`: whether raw bytes parse as a
/// font depends on the bytes alone.
#[verifier::external_body]
pub(crate) fn try_parse_font(bytes: &Vec<u8>) -> (r: bool)
    ensures
        r == font_parses(bytes@),
{
    rusttype::Font::try_from_vec(bytes.clone()).is_some()
}

/// Relies on rusttype's `Font::try_from_vec` and imageproc's
/// `draw_text_mut`: draws the glyph run for `content` at uniform scale
/// `size`, tinted with `color`, onto a transparent `width * height` surface,
/// and returns that surface's raw RGBA bytes; the surface keeps its
/// dimensions. Returns `None` exactly when the font bytes do not parse.
#[verifier::external_body]
pub(crate) fn rasterize_text(
    font: &Vec<u8>,
    content: &str,
    size: u16,
    color: Color,
    width: u32,
    height: u32,
) -> (r: Option<Vec<u8>>)
    requires
        4 * (width as int) * (height as int) <= usize::MAX as int,
    ensures
        (r is Some) == font_parses(font@),
        r matches Some(v) ==> v@ == text_raster(
            font@,
            content@,
            size,
            color.r,
            color.g,
            color.b,
            color.a,
            width,
            height,
        ) && v@.len() == 4 * (width as int) * (height as int),
{
    match rusttype::Font::try_from_vec(font.clone()) {
        None => None,
        Some(f) => {
            let mut img = image::ImageBuffer::from_pixel(width, height, image::Rgba([0u8, 0, 0, 0]));
            let scale = rusttype::Scale::uniform(size.into());
            let fill = image::Rgba([color.r, color.g, color.b, color.a]);
            imageproc::drawing::draw_text_mut(&mut img, fill, 0, 0, scale, &f, content);
            Some(img.into_raw())
        },
    }
}

/// Relies on image's `imageops::resize`: resamples a `width * height` RGBA
/// source to exactly `nwidth * nheight` with the given filter; the output
/// pixels depend on the inputs alone. The bounds keep the resampler's own
/// intermediate `f32` surface within addressable memory.
#[verifier::external_body]
pub(crate) fn resize_raw(
    data: &Vec<u8>,
    width: u32,
    height: u32,
    nwidth: u32,
    nheight: u32,
    filter: FilterType,
) -> (r: Vec<u8>)
    requires
        data@.len() == 4 * (width as int) * (height as int),
        16 * (width as int) * (nheight as int) <= usize::MAX as int,
        16 * (nwidth as int) * (nheight as int) <= usize::MAX as int,
    ensures
        r@.len() == 4 * (nwidth as int) * (nheight as int),
        r@ == resize_bytes(data@, width, height, nwidth, nheight, filter_code(filter)),
{
    let img: image::RgbaImage = image::ImageBuffer::from_raw(width, height, data.clone()).unwrap();
    let ft = match filter {
        FilterType::Nearest => image::imageops::FilterType::Nearest,
        FilterType::Triangle => image::imageops::FilterType::Triangle,
        FilterType::CatmullRom => image::imageops::FilterType::CatmullRom,
        FilterType::Gaussian => image::imageops::FilterType::Gaussian,
        FilterType::Lanczos3 => image::imageops::FilterType::Lanczos3,
    };
    image::imageops::resize(&img, nwidth, nheight, ft).into_raw()
}

/// Relies on image's `PngEncoder::write_image` with an in-memory sink: the
/// encoder refuses zero dimensions and otherwise deterministically encodes
/// the raw RGBA bytes of a `width * height` image as a PNG stream.
#[verifier::external_body]
pub(crate) fn encode_png(data: &Vec<u8>, width: u32, height: u32) -> (r: Option<Vec<u8>>)
    requires
        data@.len() == 4 * (width as int) * (height as int),
    ensures
        (r is Some) == (width > 0 && height > 0),
        r matches Some(v) ==> v@ == png_bytes(data@, width, height),
{
    let mut out: Vec<u8> = Vec::new();
    let enc = image::codecs::png::PngEncoder::new(&mut out);
    match image::ImageEncoder::write_image(enc, data, width, height, image::ColorType::Rgba8) {
        Ok(()) => Some(out),
        Err(_) => None,
    }
}

} // verus!
