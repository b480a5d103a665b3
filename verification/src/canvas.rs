//! The canvas: an ordered sequence of elements over a background surface,
//! a font registry, and the single rendering pass that composites them.

use vstd::prelude::*;

use crate::buffer::Buffer;
use crate::buffer::bytes_of;
use crate::buffer::colors_of;
use crate::buffer::crop;
use crate::buffer::crop_spec;
use crate::buffer::in_region;
use crate::buffer::lemma_blend_opaque;
use crate::buffer::lemma_crop_identity;
use crate::buffer::lemma_index_in_grid;
use crate::buffer::lemma_overlay_fully_outside;
use crate::buffer::lemma_overlay_spec_pixel;
use crate::buffer::lemma_overlay_transparent_source;
use crate::buffer::overlay;
use crate::buffer::overlay_spec;
use crate::buffer::pixel_of;
use crate::buffer::solid_spec;
use crate::colors::Color;
use crate::colors::str_eq;
use crate::picture::CropValues;
use crate::picture::Picture;
use crate::picture::ResizeValues;
use crate::raster::encode_png;
use crate::raster::filter_code;
use crate::raster::font_parses;
use crate::raster::png_bytes;
use crate::raster::rasterize_text;
use crate::raster::resize_bytes;
use crate::raster::resize_raw;
use crate::raster::text_raster;
use crate::raster::try_parse_font;
use crate::rect::Rect;
use crate::text::Text;

verus! {

/// One drawable unit with its full configuration, stored in paint order:
/// later elements paint over earlier ones.
#[derive(Debug)]
pub enum Element {
    Text(Text),
    Rect(Rect),
    Picture(Picture),
}

/// Every error the canvas reports. Configuration errors surface at the call
/// that makes them (`new`, `add_custom_font`); resource and lookup errors
/// surface at render time, since fonts and pictures are resolved lazily.
#[derive(Debug, PartialEq, Eq)]
pub enum ImageError {
    /// The canvas was asked for a zero width or height.
    ZeroDimension,
    /// A surface would exceed addressable memory, or a picture buffer does
    /// not hold one color per pixel.
    TooLarge,
    /// A text element names a font that was never registered.
    UnknownFont(String),
    /// Font bytes that the font parser does not accept.
    InvalidFont(String),
    /// A picture's crop region exceeds its source dimensions.
    CropOutOfBounds,
}

/// The font registered under `name`, if any: the most recently registered
/// binding wins, so re-registering a name overwrites it.
pub open spec fn font_lookup(fonts: Seq<(String, Vec<u8>)>, name: Seq<char>) -> Option<Seq<u8>>
    decreases fonts.len(),
{
    if fonts.len() == 0 {
        None
    } else if fonts.last().0@ == name {
        Some(fonts.last().1@)
    } else {
        font_lookup(fonts.drop_last(), name)
    }
}

/// The glyph-run surface a text element contributes, as colors: the external
/// rasterizer's output for the element's content, size, and fill color,
/// drawn on a transparent canvas-sized scratch surface.
pub open spec fn text_src(fonts: Seq<(String, Vec<u8>)>, w: u32, h: u32, t: Text) -> Seq<Color> {
    colors_of(
        text_raster(
            font_lookup(fonts, t.font_name@).unwrap(),
            t.content@,
            t.size as u16,
            t.color.r,
            t.color.g,
            t.color.b,
            t.color.a,
            w,
            h,
        ),
    )
}

/// The width of a picture's source after the crop step.
pub open spec fn pic_crop_w(p: Picture) -> u32 {
    match p.crop {
        Some(c) => c.width,
        None => p.img.width,
    }
}

/// The height of a picture's source after the crop step.
pub open spec fn pic_crop_h(p: Picture) -> u32 {
    match p.crop {
        Some(c) => c.height,
        None => p.img.height,
    }
}

/// A picture's source pixels after the crop step: the configured
/// sub-rectangle, or the whole source when no crop is set.
pub open spec fn pic_cropped_data(p: Picture) -> Seq<Color> {
    match p.crop {
        Some(c) => crop_spec(
            p.img.data@,
            p.img.width as int,
            c.x as int,
            c.y as int,
            c.width as int,
            c.height as int,
        ),
        None => p.img.data@,
    }
}

/// The width of the pixels a picture element finally contributes.
pub open spec fn pic_src_w(p: Picture) -> u32 {
    match p.resize {
        Some(rz) => rz.nwidth,
        None => pic_crop_w(p),
    }
}

/// The height of the pixels a picture element finally contributes.
pub open spec fn pic_src_h(p: Picture) -> u32 {
    match p.resize {
        Some(rz) => rz.nheight,
        None => pic_crop_h(p),
    }
}

/// The pixels a picture element contributes to the canvas: its source,
/// cropped first if a crop is set, then resized if a resize is set — always
/// in that order.
pub open spec fn pic_src_data(p: Picture) -> Seq<Color> {
    match p.resize {
        Some(rz) => colors_of(
            resize_bytes(
                bytes_of(pic_cropped_data(p)),
                pic_crop_w(p),
                pic_crop_h(p),
                rz.nwidth,
                rz.nheight,
                filter_code(rz.filter),
            ),
        ),
        None => pic_cropped_data(p),
    }
}

/// One element composited over an accumulated canvas surface of width `w`
/// and height `h`, by the straight alpha-over rule with silent clipping.
pub open spec fn apply_elem(
    fonts: Seq<(String, Vec<u8>)>,
    w: u32,
    h: u32,
    e: Element,
    acc: Seq<Color>,
) -> Seq<Color> {
    match e {
        Element::Rect(r) => overlay_spec(
            acc,
            w as int,
            solid_spec((r.width as int) * (r.height as int), r.color),
            r.width as int,
            r.height as int,
            r.x as int,
            r.y as int,
        ),
        Element::Text(t) => overlay_spec(
            acc,
            w as int,
            text_src(fonts, w, h, t),
            w as int,
            h as int,
            t.x as int,
            t.y as int,
        ),
        Element::Picture(p) => overlay_spec(
            acc,
            w as int,
            pic_src_data(p),
            pic_src_w(p) as int,
            pic_src_h(p) as int,
            p.x as int,
            p.y as int,
        ),
    }
}

/// The canvas surface after the first `n` elements have been composited over
/// the background fill, in insertion order: the paint order is the sole
/// z-ordering mechanism.
pub open spec fn render_upto(
    fonts: Seq<(String, Vec<u8>)>,
    w: u32,
    h: u32,
    bg: Color,
    elems: Seq<Element>,
    n: int,
) -> Seq<Color>
    decreases n,
{
    if n <= 0 {
        solid_spec((w as int) * (h as int), bg)
    } else {
        apply_elem(fonts, w, h, elems[n - 1], render_upto(fonts, w, h, bg, elems, n - 1))
    }
}

/// Whether an element can be resolved at render time: its fonts are
/// registered and parse, its crop region fits its source, and every surface
/// it needs fits in addressable memory.
pub open spec fn elem_ok(fonts: Seq<(String, Vec<u8>)>, e: Element) -> bool {
    match e {
        Element::Rect(r) => 4 * (r.width as int) * (r.height as int) <= usize::MAX as int,
        Element::Text(t) => {
            &&& t.size <= u16::MAX
            &&& font_lookup(fonts, t.font_name@) is Some
            &&& font_parses(font_lookup(fonts, t.font_name@).unwrap())
        },
        Element::Picture(p) => {
            &&& p.img.wf()
            &&& (match p.crop {
                Some(c) => c.x as int + c.width as int <= p.img.width as int && c.y as int
                    + c.height as int <= p.img.height as int,
                None => true,
            })
            &&& (match p.resize {
                Some(rz) => 16 * (pic_crop_w(p) as int) * (rz.nheight as int) <= usize::MAX as int
                    && 16 * (rz.nwidth as int) * (rz.nheight as int) <= usize::MAX as int,
                None => true,
            })
        },
    }
}

/// The error render reports for an unresolvable element: the first check
/// that fails, in the order the checks are made.
pub open spec fn elem_err(fonts: Seq<(String, Vec<u8>)>, e: Element, err: ImageError) -> bool {
    match e {
        Element::Rect(r) => err == ImageError::TooLarge,
        Element::Text(t) => {
            if t.size > u16::MAX {
                err == ImageError::TooLarge
            } else if font_lookup(fonts, t.font_name@) is None {
                err matches ImageError::UnknownFont(n) && n@ == t.font_name@
            } else {
                err matches ImageError::InvalidFont(n) && n@ == t.font_name@
            }
        },
        Element::Picture(p) => {
            if !p.img.wf() {
                err == ImageError::TooLarge
            } else if (match p.crop {
                Some(c) => c.x as int + c.width as int > p.img.width as int || c.y as int
                    + c.height as int > p.img.height as int,
                None => false,
            }) {
                err == ImageError::CropOutOfBounds
            } else {
                err == ImageError::TooLarge
            }
        },
    }
}

/// Whether a `w * h` surface of four-byte pixels fits in addressable memory.
fn size4_fits(w: u32, h: u32) -> (r: bool)
    ensures
        r == (4 * (w as int) * (h as int) <= usize::MAX as int),
{
    proof {
        assert(4 * (w as int) * (h as int) <= 0x40000000000000000) by (nonlinear_arith)
            requires
                0 <= w as int <= 0xFFFFFFFF,
                0 <= h as int <= 0xFFFFFFFF,
        ;
    }
    4u128 * (w as u128) * (h as u128) <= usize::MAX as u128
}

/// Whether a `w * h` surface of sixteen-byte pixels — the resampler's
/// intermediate format — fits in addressable memory.
fn size16_fits(w: u32, h: u32) -> (r: bool)
    ensures
        r == (16 * (w as int) * (h as int) <= usize::MAX as int),
{
    proof {
        assert(16 * (w as int) * (h as int) <= 0x100000000000000000) by (nonlinear_arith)
            requires
                0 <= w as int <= 0xFFFFFFFF,
                0 <= h as int <= 0xFFFFFFFF,
        ;
    }
    16u128 * (w as u128) * (h as u128) <= usize::MAX as u128
}

/// The canvas being built: a background color, fixed positive dimensions,
/// the registered fonts, and the ordered element sequence.
#[derive(Debug)]
pub struct Image {
    pub background: Color,
    pub width: u32,
    pub height: u32,
    pub fonts: Vec<(String, Vec<u8>)>,
    pub elements: Vec<Element>,
}

impl Image {
    /// The canvas has positive dimensions and its surface fits in memory:
    /// established by `new` and preserved by every method.
    pub open spec fn wf(self) -> bool {
        &&& self.width > 0
        &&& self.height > 0
        &&& 4 * (self.width as int) * (self.height as int) <= usize::MAX as int
    }

    /// Creates a canvas of `width * height` pixels, all set to `background`,
    /// with no elements and no registered fonts. A zero dimension is
    /// rejected as a degenerate canvas, and a surface beyond addressable
    /// memory is rejected as too large.
    pub fn new(width: u32, height: u32, background: Color) -> (r: Result<Image, ImageError>)
        ensures
            (r is Ok) <==> (width > 0 && height > 0 && 4 * (width as int) * (height as int)
                <= usize::MAX as int),
            r matches Ok(img) ==> img == (Image {
                background,
                width,
                height,
                fonts: img.fonts,
                elements: img.elements,
            }) && img.fonts@.len() == 0 && img.elements@.len() == 0 && img.wf(),
            r matches Err(e) ==> if width == 0 || height == 0 {
                e == ImageError::ZeroDimension
            } else {
                e == ImageError::TooLarge
            },
    {
        if width == 0 || height == 0 {
            return Err(ImageError::ZeroDimension);
        }
        proof {
            assert(4 * (width as int) * (height as int) <= 0x40000000000000000) by (nonlinear_arith)
                requires
                    0 <= width as int <= 0xFFFFFFFF,
                    0 <= height as int <= 0xFFFFFFFF,
            ;
        }
        if 4u128 * (width as u128) * (height as u128) > usize::MAX as u128 {
            return Err(ImageError::TooLarge);
        }
        Ok(Image { background, width, height, fonts: Vec::new(), elements: Vec::new() })
    }

    /// Registers `font` under `name`, overwriting any earlier binding of the
    /// same name. The bytes are parsed up front: bytes the font parser does
    /// not accept are rejected here, and the registry is left unchanged.
    pub fn add_custom_font(&mut self, name: &str, font: Vec<u8>) -> (r: Result<(), ImageError>)
        ensures
            (r is Ok) == font_parses(font@),
            final(self).background == old(self).background,
            final(self).width == old(self).width,
            final(self).height == old(self).height,
            final(self).elements@ == old(self).elements@,
            r is Ok ==> forall|nm: Seq<char>|
                font_lookup(final(self).fonts@, nm) == if nm == name@ {
                    Some(font@)
                } else {
                    font_lookup(old(self).fonts@, nm)
                },
            r is Err ==> final(self).fonts@ == old(self).fonts@,
            r matches Err(e) ==> e matches ImageError::InvalidFont(n) && n@ == name@,
    {
        if !try_parse_font(&font) {
            return Err(ImageError::InvalidFont(name.to_owned()));
        }
        let ghost fonts0 = self.fonts@;
        self.fonts.push((name.to_owned(), font));
        proof {
            let fonts1 = self.fonts@;
            assert(fonts1.drop_last() =~= fonts0);
            assert forall|nm: Seq<char>|
                font_lookup(fonts1, nm) == if nm == name@ {
                    Some(fonts1.last().1@)
                } else {
                    font_lookup(fonts0, nm)
                } by {}
        }
        Ok(())
    }

    /// Appends a picture element; nothing is rendered until `render`.
    pub fn add_picture(&mut self, picture: Picture)
        ensures
            final(self).elements@ == old(self).elements@.push(Element::Picture(picture)),
            final(self).background == old(self).background,
            final(self).width == old(self).width,
            final(self).height == old(self).height,
            final(self).fonts@ == old(self).fonts@,
    {
        self.elements.push(Element::Picture(picture));
    }

    /// Appends a text element; nothing is rendered until `render`.
    pub fn add_text(&mut self, text: Text)
        ensures
            final(self).elements@ == old(self).elements@.push(Element::Text(text)),
            final(self).background == old(self).background,
            final(self).width == old(self).width,
            final(self).height == old(self).height,
            final(self).fonts@ == old(self).fonts@,
    {
        self.elements.push(Element::Text(text));
    }

    /// Appends a rectangle element; nothing is rendered until `render`.
    pub fn add_rect(&mut self, rect: Rect)
        ensures
            final(self).elements@ == old(self).elements@.push(Element::Rect(rect)),
            final(self).background == old(self).background,
            final(self).width == old(self).width,
            final(self).height == old(self).height,
            final(self).fonts@ == old(self).fonts@,
    {
        self.elements.push(Element::Rect(rect));
    }

    /// Finds the registered font bytes for `name`, scanning the most recent
    /// registrations first.
    fn get_font<'a>(&'a self, name: &str) -> (r: Option<&'a Vec<u8>>)
        ensures
            match r {
                Some(b) => font_lookup(self.fonts@, name@) == Some(b@),
                None => font_lookup(self.fonts@, name@) is None,
            },
    {
        let mut i: usize = self.fonts.len();
        proof {
            assert(self.fonts@.take(i as int) =~= self.fonts@);
        }
        while i > 0
            invariant
                i <= self.fonts@.len(),
                font_lookup(self.fonts@, name@) == font_lookup(
                    self.fonts@.take(i as int),
                    name@,
                ),
            decreases i,
        {
            i = i - 1;
            proof {
                assert(self.fonts@.take(i as int + 1).last() == self.fonts@[i as int]);
                assert(self.fonts@.take(i as int + 1).drop_last() =~= self.fonts@.take(i as int));
            }
            let pair = &self.fonts[i];
            if str_eq(pair.0.as_str(), name) {
                return Some(&pair.1);
            }
        }
        None
    }

    /// Whether every element of the canvas can be resolved at render time.
    pub open spec fn elems_ok(self) -> bool {
        forall|i: int|
            0 <= i < self.elements@.len() ==> elem_ok(self.fonts@, #[trigger] self.elements@[i])
    }

    /// The fully composited surface: every element applied over the
    /// background fill, in insertion order.
    pub open spec fn render_spec(self) -> Seq<Color> {
        render_upto(
            self.fonts@,
            self.width,
            self.height,
            self.background,
            self.elements@,
            self.elements@.len() as int,
        )
    }

    /// Checks every element resource before any drawing starts, reporting
    /// the first element that cannot be resolved, in insertion order.
    fn validate(&self) -> (r: Result<(), ImageError>)
        ensures
            (r is Ok) <==> self.elems_ok(),
            r matches Err(e) ==> exists|i: int|
                0 <= i < self.elements@.len() && !elem_ok(
                    self.fonts@,
                    #[trigger] self.elements@[i],
                ) && elem_err(self.fonts@, self.elements@[i], e) && (forall|j: int|
                    0 <= j < i ==> elem_ok(self.fonts@, #[trigger] self.elements@[j])),
    {
        let n = self.elements.len();
        for i in 0..n
            invariant
                n == self.elements@.len(),
                forall|j: int| 0 <= j < i ==> elem_ok(self.fonts@, #[trigger] self.elements@[j]),
        {
            let e = &self.elements[i];
            let ghost ei = self.elements@[i as int];
            match e {
                Element::Rect(rc) => {
                    if !size4_fits(rc.width, rc.height) {
                        return Err(ImageError::TooLarge);
                    }
                },
                Element::Text(t) => {
                    if t.size > 65535 {
                        return Err(ImageError::TooLarge);
                    }
                    match self.get_font(t.font_name.as_str()) {
                        None => {
                            return Err(ImageError::UnknownFont(t.font_name.clone()));
                        },
                        Some(fb) => {
                            if !try_parse_font(fb) {
                                return Err(ImageError::InvalidFont(t.font_name.clone()));
                            }
                        },
                    }
                },
                Element::Picture(p) => {
                    if !size4_fits(p.img.width, p.img.height) {
                        return Err(ImageError::TooLarge);
                    }
                    proof {
                        assert((p.img.width as int) * (p.img.height as int) < 0x10000000000000000)
                            by (nonlinear_arith)
                            requires
                                0 <= p.img.width as int <= 0xFFFFFFFF,
                                0 <= p.img.height as int <= 0xFFFFFFFF,
                        ;
                    }
                    let area = (p.img.width as u64) * (p.img.height as u64);
                    if (p.img.data.len() as u64) != area {
                        return Err(ImageError::TooLarge);
                    }
                    match p.crop {
                        Some(c) => {
                            if (c.x as u64) + (c.width as u64) > (p.img.width as u64) || (c.y
                                as u64) + (c.height as u64) > (p.img.height as u64) {
                                return Err(ImageError::CropOutOfBounds);
                            }
                        },
                        None => {},
                    }
                    let cw = match p.crop {
                        Some(c) => c.width,
                        None => p.img.width,
                    };
                    match p.resize {
                        Some(rz) => {
                            if !size16_fits(cw, rz.nheight) || !size16_fits(
                                rz.nwidth,
                                rz.nheight,
                            ) {
                                return Err(ImageError::TooLarge);
                            }
                        },
                        None => {},
                    }
                },
            }
            proof {
                assert(elem_ok(self.fonts@, ei));
            }
        }
        Ok(())
    }

    /// The single rendering pass: starts from a fresh background-filled
    /// surface and composites every element over it in insertion order,
    /// blending by each pixel's alpha and silently clipping whatever falls
    /// outside the canvas. The canvas itself is not changed, so repeated
    /// renders of the same canvas give identical pixels. All element
    /// resources are validated before any drawing starts; the first element
    /// that cannot be resolved is reported and nothing is drawn.
    pub fn render(&self) -> (r: Result<Buffer, ImageError>)
        requires
            self.wf(),
        ensures
            (r is Ok) <==> self.elems_ok(),
            r matches Ok(b) ==> b.wf() && b.width == self.width && b.height == self.height
                && b.data@ == self.render_spec(),
            r matches Err(e) ==> exists|i: int|
                0 <= i < self.elements@.len() && !elem_ok(
                    self.fonts@,
                    #[trigger] self.elements@[i],
                ) && elem_err(self.fonts@, self.elements@[i], e) && (forall|j: int|
                    0 <= j < i ==> elem_ok(self.fonts@, #[trigger] self.elements@[j])),
    {
        match self.validate() {
            Err(e) => {
                return Err(e);
            },
            Ok(()) => {},
        }
        let mut buf = Buffer::from_pixel(self.width, self.height, self.background);
        let n = self.elements.len();
        for i in 0..n
            invariant
                self.wf(),
                self.elems_ok(),
                n == self.elements@.len(),
                buf.wf(),
                buf.width == self.width,
                buf.height == self.height,
                buf.data@ == render_upto(
                    self.fonts@,
                    self.width,
                    self.height,
                    self.background,
                    self.elements@,
                    i as int,
                ),
        {
            let e = &self.elements[i];
            let ghost ei = self.elements@[i as int];
            let ghost acc = buf.data@;
            proof {
                assert(elem_ok(self.fonts@, ei));
            }
            match e {
                Element::Rect(rc) => {
                    let scratch = Buffer::from_pixel(rc.width, rc.height, rc.color);
                    overlay(&mut buf, &scratch, rc.x, rc.y);
                },
                Element::Text(t) => {
                    let fopt = self.get_font(t.font_name.as_str());
                    let fb = match fopt {
                        Some(fb) => fb,
                        None => {
                            proof {
                                assert(false);
                            }
                            return Err(ImageError::TooLarge);
                        },
                    };
                    let ropt = rasterize_text(
                        fb,
                        t.content.as_str(),
                        t.size as u16,
                        t.color,
                        self.width,
                        self.height,
                    );
                    let raw = match ropt {
                        Some(raw) => raw,
                        None => {
                            proof {
                                assert(false);
                            }
                            return Err(ImageError::TooLarge);
                        },
                    };
                    let sbuf = Buffer::from_raw(self.width, self.height, &raw);
                    overlay(&mut buf, &sbuf, t.x, t.y);
                    proof {
                        assert(sbuf.data@ == text_src(self.fonts@, self.width, self.height, *t));
                    }
                },
                Element::Picture(p) => {
                    let cropped: Buffer = match p.crop {
                        Some(c) => crop(&p.img, c.x, c.y, c.width, c.height),
                        None => {
                            let full = crop(&p.img, 0, 0, p.img.width, p.img.height);
                            proof {
                                lemma_crop_identity(
                                    p.img.data@,
                                    p.img.width as int,
                                    p.img.height as int,
                                );
                            }
                            full
                        },
                    };
                    proof {
                        assert(cropped.data@ == pic_cropped_data(*p));
                        assert(cropped.width == pic_crop_w(*p));
                        assert(cropped.height == pic_crop_h(*p));
                    }
                    let placed: Buffer = match p.resize {
                        Some(rz) => {
                            let rawc = cropped.to_raw();
                            proof {
                                assert(4 * ((cropped.width as int) * (cropped.height as int)) == 4
                                    * (cropped.width as int) * (cropped.height as int))
                                    by (nonlinear_arith);
                            }
                            let out = resize_raw(
                                &rawc,
                                cropped.width,
                                cropped.height,
                                rz.nwidth,
                                rz.nheight,
                                rz.filter,
                            );
                            Buffer::from_raw(rz.nwidth, rz.nheight, &out)
                        },
                        None => cropped,
                    };
                    proof {
                        assert(placed.data@ == pic_src_data(*p));
                        assert(placed.width == pic_src_w(*p));
                        assert(placed.height == pic_src_h(*p));
                    }
                    overlay(&mut buf, &placed, p.x, p.y);
                },
            }
            proof {
                assert(buf.data@ == apply_elem(self.fonts@, self.width, self.height, ei, acc));
                assert(buf.data@ == render_upto(
                    self.fonts@,
                    self.width,
                    self.height,
                    self.background,
                    self.elements@,
                    i as int + 1,
                ));
            }
        }
        Ok(buf)
    }

    /// Renders the canvas and encodes the finished surface as a PNG byte
    /// stream, exactly as `render` leaves it: 8-bit RGBA at the canvas
    /// dimensions.
    pub fn render_png(&self) -> (r: Result<Vec<u8>, ImageError>)
        requires
            self.wf(),
        ensures
            (r is Ok) <==> self.elems_ok(),
            r matches Ok(v) ==> v@ == png_bytes(
                bytes_of(self.render_spec()),
                self.width,
                self.height,
            ),
            r matches Err(e) ==> exists|i: int|
                0 <= i < self.elements@.len() && !elem_ok(
                    self.fonts@,
                    #[trigger] self.elements@[i],
                ) && elem_err(self.fonts@, self.elements@[i], e) && (forall|j: int|
                    0 <= j < i ==> elem_ok(self.fonts@, #[trigger] self.elements@[j])),
    {
        let buf = match self.render() {
            Ok(buf) => buf,
            Err(e) => {
                return Err(e);
            },
        };
        let raw = buf.to_raw();
        proof {
            assert(4 * ((buf.width as int) * (buf.height as int)) == 4 * (buf.width as int) * (
            buf.height as int)) by (nonlinear_arith);
        }
        match encode_png(&raw, buf.width, buf.height) {
            Some(v) => Ok(v),
            None => {
                // Unreachable: the canvas dimensions are positive, and the
                // encoder accepts any positive-size RGBA surface.
                proof {
                    assert(false);
                }
                Err(ImageError::TooLarge)
            },
        }
    }
}

/// The placement offset of an element, horizontal part.
pub open spec fn elem_x(e: Element) -> u32 {
    match e {
        Element::Rect(r) => r.x,
        Element::Text(t) => t.x,
        Element::Picture(p) => p.x,
    }
}

/// The placement offset of an element, vertical part.
pub open spec fn elem_y(e: Element) -> u32 {
    match e {
        Element::Rect(r) => r.y,
        Element::Text(t) => t.y,
        Element::Picture(p) => p.y,
    }
}

/// Compositing never changes the surface's size: after any number of
/// elements, the surface still holds one color per canvas pixel.
pub proof fn lemma_render_upto_len(
    fonts: Seq<(String, Vec<u8>)>,
    w: u32,
    h: u32,
    bg: Color,
    elems: Seq<Element>,
    n: int,
)
    ensures
        render_upto(fonts, w, h, bg, elems, n).len() == (w as int) * (h as int),
    decreases n,
{
    assert(0 <= (w as int) * (h as int)) by (nonlinear_arith)
        requires
            0 <= w as int,
            0 <= h as int,
    ;
    if n > 0 {
        lemma_render_upto_len(fonts, w, h, bg, elems, n - 1);
    }
}

/// A freshly constructed canvas with no elements renders to a surface whose
/// every pixel is exactly the background color.
pub proof fn lemma_render_empty(img: Image, px: int, py: int)
    requires
        img.elements@.len() == 0,
        0 <= px < img.width as int,
        0 <= py < img.height as int,
    ensures
        pixel_of(img.render_spec(), img.width as int, px, py) == img.background,
{
    lemma_index_in_grid(img.width as int, img.height as int, px, py);
}

/// Rendering is repeatable: two renders of the same unmodified canvas hold
/// identical pixels, and therefore encode to byte-identical streams.
pub proof fn lemma_render_idempotent(img: Image, b1: Buffer, b2: Buffer)
    requires
        b1.data@ == img.render_spec(),
        b2.data@ == img.render_spec(),
    ensures
        b1.data@ == b2.data@,
        bytes_of(b1.data@) == bytes_of(b2.data@),
{
}

/// Paint order is the sole z-ordering mechanism: a fully opaque rectangle
/// appended last paints over everything beneath it, so every canvas pixel it
/// covers renders to exactly its fill color, whatever elements came before.
pub proof fn lemma_opaque_rect_wins(img: Image, rc: Rect, px: int, py: int)
    requires
        img.wf(),
        img.elements@.len() > 0,
        img.elements@.last() == Element::Rect(rc),
        rc.color.a == 255,
        0 <= px < img.width as int,
        0 <= py < img.height as int,
        in_region(rc.x as int, rc.y as int, rc.width as int, rc.height as int, px, py),
    ensures
        pixel_of(img.render_spec(), img.width as int, px, py) == rc.color,
{
    let n = img.elements@.len() as int;
    let prev = render_upto(img.fonts@, img.width, img.height, img.background, img.elements@, n - 1);
    lemma_render_upto_len(img.fonts@, img.width, img.height, img.background, img.elements@, n - 1);
    let solid = solid_spec((rc.width as int) * (rc.height as int), rc.color);
    lemma_overlay_spec_pixel(
        prev,
        img.width as int,
        img.height as int,
        solid,
        rc.width as int,
        rc.height as int,
        rc.x as int,
        rc.y as int,
        px,
        py,
    );
    lemma_index_in_grid(rc.width as int, rc.height as int, px - rc.x, py - rc.y);
    lemma_blend_opaque(rc.color, pixel_of(prev, img.width as int, px, py));
}

/// Compositing a fully transparent element is a no-op: a rectangle whose
/// fill alpha is zero, appended last, leaves the rendered surface exactly as
/// it was without that element.
pub proof fn lemma_transparent_rect_noop(img: Image, rc: Rect)
    requires
        img.wf(),
        img.elements@.len() > 0,
        img.elements@.last() == Element::Rect(rc),
        rc.color.a == 0,
    ensures
        img.render_spec() == render_upto(
            img.fonts@,
            img.width,
            img.height,
            img.background,
            img.elements@,
            img.elements@.len() - 1,
        ),
{
    let n = img.elements@.len() as int;
    let prev = render_upto(img.fonts@, img.width, img.height, img.background, img.elements@, n - 1);
    lemma_render_upto_len(img.fonts@, img.width, img.height, img.background, img.elements@, n - 1);
    assert(0 <= (rc.width as int) * (rc.height as int)) by (nonlinear_arith)
        requires
            0 <= rc.width as int,
            0 <= rc.height as int,
    ;
    let solid = solid_spec((rc.width as int) * (rc.height as int), rc.color);
    lemma_overlay_transparent_source(
        prev,
        img.width as int,
        img.height as int,
        solid,
        rc.width as int,
        rc.height as int,
        rc.x as int,
        rc.y as int,
    );
}

/// An element placed entirely beyond the canvas's right or bottom edge is
/// clipped in full: it does not error, does not wrap, and leaves no visible
/// trace on the rendered surface.
pub proof fn lemma_offscreen_element_invisible(img: Image)
    requires
        img.wf(),
        img.elements@.len() > 0,
        elem_x(img.elements@.last()) as int >= img.width as int || elem_y(img.elements@.last())
            as int >= img.height as int,
    ensures
        img.render_spec() == render_upto(
            img.fonts@,
            img.width,
            img.height,
            img.background,
            img.elements@,
            img.elements@.len() - 1,
        ),
{
    let n = img.elements@.len() as int;
    let wi = img.width as int;
    let hi = img.height as int;
    let prev = render_upto(img.fonts@, img.width, img.height, img.background, img.elements@, n - 1);
    lemma_render_upto_len(img.fonts@, img.width, img.height, img.background, img.elements@, n - 1);
    match img.elements@.last() {
        Element::Rect(r) => {
            lemma_overlay_fully_outside(
                prev,
                wi,
                hi,
                solid_spec((r.width as int) * (r.height as int), r.color),
                r.width as int,
                r.height as int,
                r.x as int,
                r.y as int,
            );
        },
        Element::Text(t) => {
            lemma_overlay_fully_outside(
                prev,
                wi,
                hi,
                text_src(img.fonts@, img.width, img.height, t),
                wi,
                hi,
                t.x as int,
                t.y as int,
            );
        },
        Element::Picture(p) => {
            lemma_overlay_fully_outside(
                prev,
                wi,
                hi,
                pic_src_data(p),
                pic_src_w(p) as int,
                pic_src_h(p) as int,
                p.x as int,
                p.y as int,
            );
        },
    }
}

/// Crop-before-resize: when a picture configures both a crop and a resize,
/// the pixels it contributes are the resampler's output applied to the
/// cropped sub-rectangle, at the resize target dimensions — never the other
/// order, whatever order the builder calls were made in.
pub proof fn lemma_crop_before_resize(p: Picture, c: CropValues, rz: ResizeValues)
    requires
        p.crop == Some(c),
        p.resize == Some(rz),
    ensures
        pic_src_data(p) == colors_of(
            resize_bytes(
                bytes_of(
                    crop_spec(
                        p.img.data@,
                        p.img.width as int,
                        c.x as int,
                        c.y as int,
                        c.width as int,
                        c.height as int,
                    ),
                ),
                c.width,
                c.height,
                rz.nwidth,
                rz.nheight,
                filter_code(rz.filter),
            ),
        ),
        pic_src_w(p) == rz.nwidth,
        pic_src_h(p) == rz.nheight,
{
}

} // verus!
