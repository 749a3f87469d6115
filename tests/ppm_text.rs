use raytracer::image::{pixel_position, Image, Rgb};
use raytracer::ppm::{channel_byte, push_decimal, push_header, push_pixel};

fn text(bytes: &[u8]) -> String {
    String::from_utf8(bytes.to_vec()).unwrap()
}

#[test]
fn decimal_digits() {
    for (n, expected) in [(0u64, "0"), (7, "7"), (10, "10"), (255, "255"), (1200, "1200")] {
        let mut out = Vec::new();
        push_decimal(&mut out, n);
        assert_eq!(text(&out), expected);
    }
    let mut out = Vec::new();
    push_decimal(&mut out, u64::MAX);
    assert_eq!(text(&out), u64::MAX.to_string());
}

#[test]
fn decimal_appends() {
    let mut out = b"x=".to_vec();
    push_decimal(&mut out, 42);
    assert_eq!(text(&out), "x=42");
}

#[test]
fn header_line() {
    let mut out = Vec::new();
    push_header(&mut out, 1200, 800);
    assert_eq!(text(&out), "P3 1200 800 255\n");
}

#[test]
fn pixel_line() {
    let mut out = Vec::new();
    push_pixel(&mut out, 255, 0, 37);
    assert_eq!(text(&out), "255 0 37\n");
}

#[test]
fn channel_levels_are_clamped() {
    assert_eq!(channel_byte(-127), 0);
    assert_eq!(channel_byte(0), 0);
    assert_eq!(channel_byte(128), 128);
    assert_eq!(channel_byte(255), 255);
    assert_eq!(channel_byte(256), 255);
    assert_eq!(channel_byte(i64::MAX), 255);
    assert_eq!(channel_byte(i64::MIN), 0);
}

#[test]
fn new_image_is_black() {
    let image = Image::new(3, 2);
    assert_eq!(image.width(), 3);
    assert_eq!(image.height(), 2);
    for column in 0..3 {
        for row in 0..2 {
            assert_eq!(image.get(column, row), Rgb { r: 0, g: 0, b: 0 });
        }
    }
}

#[test]
fn set_changes_one_pixel() {
    let mut image = Image::new(3, 2);
    let red = Rgb { r: 200, g: 10, b: 5 };
    image.set(2, 1, red);
    assert_eq!(image.get(2, 1), red);
    assert_eq!(image.get(2, 0), Rgb { r: 0, g: 0, b: 0 });
    assert_eq!(image.get(1, 1), Rgb { r: 0, g: 0, b: 0 });
}

#[test]
fn emission_is_top_row_first() {
    let mut image = Image::new(2, 2);
    image.set(0, 1, Rgb { r: 1, g: 1, b: 1 });
    image.set(1, 1, Rgb { r: 2, g: 2, b: 2 });
    image.set(0, 0, Rgb { r: 3, g: 3, b: 3 });
    image.set(1, 0, Rgb { r: 4, g: 4, b: 4 });
    assert_eq!(
        text(&image.to_ppm()),
        "P3 2 2 255\n1 1 1\n2 2 2\n3 3 3\n4 4 4\n"
    );
}

#[test]
fn empty_image_is_header_only() {
    let image = Image::new(0, 5);
    assert_eq!(text(&image.to_ppm()), "P3 0 5 255\n");
}

#[test]
fn positions_in_emission_order() {
    assert_eq!(pixel_position(3, 2, 0), (0, 1));
    assert_eq!(pixel_position(3, 2, 2), (2, 1));
    assert_eq!(pixel_position(3, 2, 3), (0, 0));
    assert_eq!(pixel_position(3, 2, 5), (2, 0));
}

#[test]
fn position_and_set_agree() {
    let mut image = Image::new(4, 3);
    let (column, row) = pixel_position(4, 3, 6);
    image.set(column, row, Rgb { r: 9, g: 9, b: 9 });
    let out = text(&image.to_ppm());
    let lines: Vec<&str> = out.lines().collect();
    assert_eq!(lines[1 + 6], "9 9 9");
    assert_eq!(lines.iter().filter(|l| **l == "9 9 9").count(), 1);
}
