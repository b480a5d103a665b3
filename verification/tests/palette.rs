use image_builder::Color;
use image_builder::colors::lookup;

#[test]
fn lookup_known_colors() {
    assert_eq!(lookup("yellow"), Some(Color { r: 255, g: 255, b: 0, a: 255 }));
    assert_eq!(lookup("green"), Some(Color { r: 0, g: 176, b: 80, a: 255 }));
    assert_eq!(lookup("gray"), Some(Color { r: 191, g: 191, b: 191, a: 255 }));
    assert_eq!(lookup("red"), Some(Color { r: 255, g: 0, b: 0, a: 255 }));
    assert_eq!(lookup("blue"), Some(Color { r: 0, g: 112, b: 192, a: 255 }));
    assert_eq!(lookup("orange"), Some(Color { r: 255, g: 153, b: 0, a: 255 }));
    assert_eq!(lookup("purple"), Some(Color { r: 112, g: 48, b: 160, a: 255 }));
    assert_eq!(lookup("white"), Some(Color { r: 255, g: 255, b: 255, a: 255 }));
    assert_eq!(lookup("black"), Some(Color { r: 0, g: 0, b: 0, a: 255 }));
}

#[test]
fn lookup_unknown_name_is_none() {
    assert_eq!(lookup("magenta"), None);
    assert_eq!(lookup(""), None);
    assert_eq!(lookup("nope"), None);
}

#[test]
fn lookup_is_case_sensitive() {
    assert_eq!(lookup("Yellow"), None);
    assert_eq!(lookup("RED"), None);
}
