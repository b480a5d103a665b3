use image_builder::Buffer;
use image_builder::Color;
use image_builder::FilterType;
use image_builder::Image;
use image_builder::ImageError;
use image_builder::Picture;
use image_builder::Rect;
use image_builder::Text;

const WHITE: Color = Color { r: 255, g: 255, b: 255, a: 255 };
const RED: Color = Color { r: 255, g: 0, b: 0, a: 255 };
const BLUE: Color = Color { r: 0, g: 112, b: 192, a: 255 };

fn push_u16(v: &mut Vec<u8>, x: u16) {
    v.push((x >> 8) as u8);
    v.push(x as u8);
}

fn push_u32(v: &mut Vec<u8>, x: u32) {
    push_u16(v, (x >> 16) as u16);
    push_u16(v, x as u16);
}

/// A smallest-possible TrueType font: the three mandatory tables (`head`,
/// `hhea`, `maxp`), metrics for a single glyph, and no outlines, so every
/// glyph run rasterizes to a fully transparent surface.
fn minimal_font() -> Vec<u8> {
    let mut f: Vec<u8> = Vec::new();
    // sfnt header: version 1.0, four tables
    push_u32(&mut f, 0x00010000);
    push_u16(&mut f, 4);
    push_u16(&mut f, 64);
    push_u16(&mut f, 2);
    push_u16(&mut f, 0);
    // table directory: tag, checksum, offset, length
    for (tag, offset, length) in [
        (*b"head", 76u32, 54u32),
        (*b"hhea", 130, 36),
        (*b"hmtx", 172, 4),
        (*b"maxp", 166, 6),
    ] {
        f.extend_from_slice(&tag);
        push_u32(&mut f, 0);
        push_u32(&mut f, offset);
        push_u32(&mut f, length);
    }
    // head
    push_u32(&mut f, 0x00010000); // version
    push_u32(&mut f, 0); // revision
    push_u32(&mut f, 0); // checksum adjustment
    push_u32(&mut f, 0x5F0F3CF5); // magic
    push_u16(&mut f, 0); // flags
    push_u16(&mut f, 1000); // units per em
    push_u32(&mut f, 0); // created, high
    push_u32(&mut f, 0); // created, low
    push_u32(&mut f, 0); // modified, high
    push_u32(&mut f, 0); // modified, low
    push_u16(&mut f, 0); // x min
    push_u16(&mut f, 0); // y min
    push_u16(&mut f, 100); // x max
    push_u16(&mut f, 100); // y max
    push_u16(&mut f, 0); // mac style
    push_u16(&mut f, 8); // lowest recommended ppem
    push_u16(&mut f, 2); // font direction hint
    push_u16(&mut f, 0); // index-to-location format
    push_u16(&mut f, 0); // glyph data format
    // hhea
    push_u32(&mut f, 0x00010000); // version
    push_u16(&mut f, 800); // ascender
    push_u16(&mut f, (-200i16) as u16); // descender
    push_u16(&mut f, 0); // line gap
    for _ in 0..12 {
        push_u16(&mut f, 0);
    }
    push_u16(&mut f, 1); // number of metrics
    // maxp
    push_u32(&mut f, 0x00005000); // version 0.5
    push_u16(&mut f, 1); // number of glyphs
    // hmtx: one long metric for the single glyph
    push_u16(&mut f, 500); // advance
    push_u16(&mut f, 0); // left side bearing
    assert_eq!(f.len(), 176);
    f
}

#[test]
fn new_rejects_zero_dimension() {
    assert_eq!(Image::new(0, 10, WHITE).err(), Some(ImageError::ZeroDimension));
    assert_eq!(Image::new(10, 0, WHITE).err(), Some(ImageError::ZeroDimension));
    assert!(Image::new(10, 10, WHITE).is_ok());
}

#[test]
fn new_rejects_oversized_canvas() {
    assert_eq!(Image::new(u32::MAX, u32::MAX, WHITE).err(), Some(ImageError::TooLarge));
}

#[test]
fn oversized_rect_is_an_error() {
    let mut img = Image::new(4, 4, WHITE).unwrap();
    img.add_rect(Rect::new().size(u32::MAX, u32::MAX).color(BLUE));
    assert_eq!(img.render().err(), Some(ImageError::TooLarge));
}

#[test]
fn oversized_text_size_is_an_error() {
    let mut img = Image::new(4, 4, WHITE).unwrap();
    img.add_custom_font("default", minimal_font()).unwrap();
    img.add_text(Text::new("x").size(70000));
    assert_eq!(img.render().err(), Some(ImageError::TooLarge));
}

#[test]
fn empty_canvas_renders_background() {
    let bg = Color { r: 255, g: 0, b: 0, a: 255 };
    let img = Image::new(10, 10, bg).unwrap();
    let buf = img.render().unwrap();
    assert_eq!(buf.width, 10);
    assert_eq!(buf.height, 10);
    for y in 0..10 {
        for x in 0..10 {
            assert_eq!(buf.get_pixel(x, y), bg);
        }
    }
}

#[test]
fn png_roundtrip_preserves_pixels() {
    let bg = Color { r: 255, g: 0, b: 0, a: 255 };
    let mut img = Image::new(10, 10, bg).unwrap();
    img.add_rect(Rect::new().size(4, 4).position(2, 3).color(BLUE));
    let buf = img.render().unwrap();
    let png = img.render_png().unwrap();
    let decoded = image::load_from_memory(&png).unwrap().to_rgba8();
    assert_eq!(decoded.width(), 10);
    assert_eq!(decoded.height(), 10);
    for y in 0..10 {
        for x in 0..10 {
            let c = buf.get_pixel(x, y);
            assert_eq!(decoded.get_pixel(x, y).0, [c.r, c.g, c.b, c.a]);
        }
    }
}

#[test]
fn later_rect_paints_over_earlier() {
    let mut img = Image::new(200, 200, WHITE).unwrap();
    img.add_rect(Rect::new().size(100, 100).position(0, 0).color(RED));
    img.add_rect(Rect::new().size(100, 100).position(0, 0).color(BLUE));
    let buf = img.render().unwrap();
    assert_eq!(buf.get_pixel(50, 50), BLUE);
    assert_eq!(buf.get_pixel(150, 150), WHITE);
}

#[test]
fn transparent_rect_leaves_base_unchanged() {
    let mut img = Image::new(8, 8, WHITE).unwrap();
    img.add_rect(Rect::new().size(8, 8).color(Color { r: 9, g: 9, b: 9, a: 0 }));
    let buf = img.render().unwrap();
    for y in 0..8 {
        for x in 0..8 {
            assert_eq!(buf.get_pixel(x, y), WHITE);
        }
    }
}

#[test]
fn opaque_rect_replaces_base_entirely() {
    let mut img = Image::new(8, 8, WHITE).unwrap();
    img.add_rect(Rect::new().size(8, 8).color(RED));
    let buf = img.render().unwrap();
    for y in 0..8 {
        for x in 0..8 {
            assert_eq!(buf.get_pixel(x, y), RED);
        }
    }
}

#[test]
fn partial_alpha_blends_proportionally() {
    let mut img = Image::new(2, 2, WHITE).unwrap();
    img.add_rect(Rect::new().size(2, 2).color(Color { r: 255, g: 0, b: 0, a: 128 }));
    let buf = img.render().unwrap();
    // channel = (src * 128 + dst * 127) / 255 over a white base
    assert_eq!(buf.get_pixel(0, 0), Color { r: 255, g: 127, b: 127, a: 255 });
}

#[test]
fn partially_offscreen_rect_is_clipped() {
    let mut img = Image::new(10, 10, WHITE).unwrap();
    img.add_rect(Rect::new().size(10, 10).position(5, 5).color(BLUE));
    let buf = img.render().unwrap();
    assert_eq!(buf.get_pixel(7, 7), BLUE);
    assert_eq!(buf.get_pixel(9, 9), BLUE);
    assert_eq!(buf.get_pixel(4, 4), WHITE);
    assert_eq!(buf.get_pixel(2, 7), WHITE);
}

#[test]
fn fully_offscreen_elements_are_invisible() {
    let mut img = Image::new(10, 10, WHITE).unwrap();
    img.add_rect(Rect::new().size(10, 10).position(20, 20).color(BLUE));
    let pic = Buffer::from_pixel(4, 4, RED);
    img.add_picture(Picture::new(pic).position(10, 0));
    let buf = img.render().unwrap();
    for y in 0..10 {
        for x in 0..10 {
            assert_eq!(buf.get_pixel(x, y), WHITE);
        }
    }
}

#[test]
fn render_is_idempotent() {
    let mut img = Image::new(50, 40, WHITE).unwrap();
    img.add_rect(Rect::new().size(30, 20).position(5, 5).color(Color { r: 7, g: 50, b: 90, a: 130 }));
    let pic = Buffer::from_pixel(8, 8, Color { r: 1, g: 2, b: 3, a: 200 });
    img.add_picture(Picture::new(pic).position(40, 30));
    let b1 = img.render().unwrap();
    let b2 = img.render().unwrap();
    assert_eq!(b1.to_raw(), b2.to_raw());
    let p1 = img.render_png().unwrap();
    let p2 = img.render_png().unwrap();
    assert_eq!(p1, p2);
}

#[test]
fn picture_composites_at_offset() {
    let mut img = Image::new(4, 4, WHITE).unwrap();
    let pic = Buffer::from_pixel(2, 2, RED);
    img.add_picture(Picture::new(pic).position(1, 1));
    let buf = img.render().unwrap();
    assert_eq!(buf.get_pixel(0, 0), WHITE);
    assert_eq!(buf.get_pixel(1, 1), RED);
    assert_eq!(buf.get_pixel(2, 2), RED);
    assert_eq!(buf.get_pixel(3, 3), WHITE);
}

#[test]
fn picture_crop_selects_subrectangle() {
    // a 4x4 source whose left half is red and right half is blue
    let mut bytes: Vec<u8> = Vec::new();
    for _y in 0..4 {
        for x in 0..4 {
            let c = if x < 2 { RED } else { BLUE };
            bytes.extend_from_slice(&[c.r, c.g, c.b, c.a]);
        }
    }
    let src = Buffer::from_raw(4, 4, &bytes);
    let mut img = Image::new(2, 2, WHITE).unwrap();
    img.add_picture(Picture::new(src).crop(2, 0, 2, 2));
    let buf = img.render().unwrap();
    for y in 0..2 {
        for x in 0..2 {
            assert_eq!(buf.get_pixel(x, y), BLUE);
        }
    }
}

#[test]
fn picture_resize_nearest_of_solid_stays_solid() {
    let src = Buffer::from_pixel(2, 2, RED);
    let mut img = Image::new(4, 4, WHITE).unwrap();
    img.add_picture(Picture::new(src).resize(4, 4, FilterType::Nearest));
    let buf = img.render().unwrap();
    for y in 0..4 {
        for x in 0..4 {
            assert_eq!(buf.get_pixel(x, y), RED);
        }
    }
}

#[test]
fn crop_then_resize_matches_direct_reduction() {
    // a 300x300 synthetic source with a position-dependent opaque pattern
    let mut bytes: Vec<u8> = Vec::new();
    for y in 0..300u32 {
        for x in 0..300u32 {
            bytes.extend_from_slice(&[(x % 256) as u8, (y % 256) as u8, ((x + y) % 256) as u8, 255]);
        }
    }
    let src = Buffer::from_raw(300, 300, &bytes);
    let mut img = Image::new(100, 100, WHITE).unwrap();
    img.add_picture(
        Picture::new(src).resize(100, 100, FilterType::Nearest).crop(50, 50, 200, 200),
    );
    let buf = img.render().unwrap();

    // the same reduction computed directly: crop the 200x200 sub-square
    // first, then resize that crop to 100x100
    let direct = image::RgbaImage::from_raw(300, 300, bytes).unwrap();
    let cropped = image::imageops::crop_imm(&direct, 50, 50, 200, 200).to_image();
    let reduced =
        image::imageops::resize(&cropped, 100, 100, image::imageops::FilterType::Nearest);
    for y in 0..100 {
        for x in 0..100 {
            let c = buf.get_pixel(x, y);
            assert_eq!(reduced.get_pixel(x, y).0, [c.r, c.g, c.b, c.a]);
        }
    }
}

#[test]
fn crop_out_of_bounds_is_an_error() {
    let src = Buffer::from_pixel(2, 2, RED);
    let mut img = Image::new(4, 4, WHITE).unwrap();
    img.add_picture(Picture::new(src).crop(1, 1, 5, 5));
    assert_eq!(img.render().err(), Some(ImageError::CropOutOfBounds));
}

#[test]
fn unregistered_font_is_an_error() {
    let mut img = Image::new(10, 10, WHITE).unwrap();
    img.add_text(Text::new("hello"));
    match img.render() {
        Err(ImageError::UnknownFont(name)) => assert_eq!(name, "default"),
        other => panic!("expected an unknown-font error, got {:?}", other),
    }
}

#[test]
fn invalid_font_bytes_are_rejected() {
    let mut img = Image::new(10, 10, WHITE).unwrap();
    match img.add_custom_font("broken", vec![1, 2, 3, 4]) {
        Err(ImageError::InvalidFont(name)) => assert_eq!(name, "broken"),
        other => panic!("expected an invalid-font error, got {:?}", other),
    }
    // the registry is unchanged, so the name still cannot be used
    img.add_text(Text::new("x").font("broken"));
    assert!(matches!(img.render(), Err(ImageError::UnknownFont(_))));
}

#[test]
fn registered_font_renders_text() {
    let mut img = Image::new(10, 10, WHITE).unwrap();
    img.add_custom_font("default", minimal_font()).unwrap();
    img.add_text(Text::new("hi").size(9).position(1, 1).color(BLUE));
    let buf = img.render().unwrap();
    // the minimal font has no outlines, so the glyph run is fully
    // transparent and the background shows through everywhere
    for y in 0..10 {
        for x in 0..10 {
            assert_eq!(buf.get_pixel(x, y), WHITE);
        }
    }
}

#[test]
fn font_registration_overwrites_earlier_binding() {
    let mut img = Image::new(6, 6, WHITE).unwrap();
    img.add_custom_font("f", minimal_font()).unwrap();
    img.add_custom_font("f", minimal_font()).unwrap();
    img.add_text(Text::new("t").font("f"));
    assert!(img.render().is_ok());
}
