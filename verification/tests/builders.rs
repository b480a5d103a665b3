use image_builder::Buffer;
use image_builder::Color;
use image_builder::FilterType;
use image_builder::Picture;
use image_builder::Rect;
use image_builder::Text;
use image_builder::buffer::blend;
use image_builder::picture;
use image_builder::rect;
use image_builder::text;

#[test]
fn rect_defaults() {
    let r = Rect::new();
    let v = rect::extract(&r);
    assert_eq!(v.x, 0);
    assert_eq!(v.y, 0);
    assert_eq!(v.width, 10);
    assert_eq!(v.height, 10);
    assert_eq!(v.color, Color { r: 0, g: 176, b: 80, a: 255 });
}

#[test]
fn rect_chaining() {
    let red = Color { r: 255, g: 0, b: 0, a: 255 };
    let r = Rect::new().size(150, 50).position(100, 120).color(red);
    let v = rect::extract(&r);
    assert_eq!(v.x, 100);
    assert_eq!(v.y, 120);
    assert_eq!(v.width, 150);
    assert_eq!(v.height, 50);
    assert_eq!(v.color, red);
}

#[test]
fn text_defaults() {
    let t = Text::new("Image Builder");
    let v = text::extract(t);
    assert_eq!(v.content, "Image Builder");
    assert_eq!(v.size, 14);
    assert_eq!(v.x, 0);
    assert_eq!(v.y, 0);
    assert_eq!(v.font_name, "default");
    assert_eq!(v.color, Color { r: 0, g: 0, b: 0, a: 255 });
}

#[test]
fn text_chaining() {
    let purple = Color { r: 112, g: 48, b: 160, a: 255 };
    let t = Text::new("hello").size(90).font("Roboto bold").position(55, 120).color(purple);
    let v = text::extract(t);
    assert_eq!(v.content, "hello");
    assert_eq!(v.size, 90);
    assert_eq!(v.x, 55);
    assert_eq!(v.y, 120);
    assert_eq!(v.font_name, "Roboto bold");
    assert_eq!(v.color, purple);
}

#[test]
fn picture_defaults_and_chaining() {
    let img = Buffer::from_pixel(3, 2, Color { r: 9, g: 8, b: 7, a: 255 });
    let p = Picture::new(img);
    let v = picture::extract(p);
    assert_eq!(v.x, 0);
    assert_eq!(v.y, 0);
    assert!(v.crop.is_none());
    assert!(v.resize.is_none());
    assert_eq!(v.img.width, 3);
    assert_eq!(v.img.height, 2);

    let img2 = Buffer::from_pixel(3, 2, Color { r: 9, g: 8, b: 7, a: 255 });
    let p2 = Picture::new(img2)
        .resize(100, 100, FilterType::Triangle)
        .crop(50, 50, 200, 200)
        .position(233, 30);
    let v2 = picture::extract(p2);
    assert_eq!(v2.x, 233);
    assert_eq!(v2.y, 30);
    let c = v2.crop.unwrap();
    assert_eq!((c.x, c.y, c.width, c.height), (50, 50, 200, 200));
    let rz = v2.resize.unwrap();
    assert_eq!((rz.nwidth, rz.nheight), (100, 100));
    assert_eq!(rz.filter, FilterType::Triangle);
}

#[test]
fn buffer_from_pixel_reads_back() {
    let c = Color { r: 1, g: 2, b: 3, a: 4 };
    let b = Buffer::from_pixel(4, 3, c);
    assert_eq!(b.width, 4);
    assert_eq!(b.height, 3);
    for y in 0..3 {
        for x in 0..4 {
            assert_eq!(b.get_pixel(x, y), c);
        }
    }
}

#[test]
fn buffer_raw_roundtrip() {
    let mut bytes: Vec<u8> = Vec::new();
    for i in 0..24 {
        bytes.push(i as u8);
    }
    let b = Buffer::from_raw(3, 2, &bytes);
    assert_eq!(b.get_pixel(0, 0), Color { r: 0, g: 1, b: 2, a: 3 });
    assert_eq!(b.get_pixel(2, 1), Color { r: 20, g: 21, b: 22, a: 23 });
    assert_eq!(b.to_raw(), bytes);
}

#[test]
fn blend_opaque_and_transparent() {
    let d = Color { r: 10, g: 20, b: 30, a: 200 };
    let opaque = Color { r: 1, g: 2, b: 3, a: 255 };
    let clear = Color { r: 99, g: 98, b: 97, a: 0 };
    assert_eq!(blend(opaque, d), opaque);
    assert_eq!(blend(clear, d), d);
}

#[test]
fn blend_partial_alpha_exact() {
    // channel = (src * a + dst * (255 - a)) / 255, in integer arithmetic
    let s = Color { r: 255, g: 0, b: 100, a: 128 };
    let d = Color { r: 255, g: 255, b: 50, a: 255 };
    let out = blend(s, d);
    assert_eq!(out.r, 255); // (255*128 + 255*127) / 255
    assert_eq!(out.g, 127); // (0*128 + 255*127) / 255
    assert_eq!(out.b, 75); // (100*128 + 50*127) / 255 = 19150/255
    assert_eq!(out.a, 255); // 128 + 255*127/255
}
