use monado_frame::pictures::{decode_qr, first_text, load, load_grey, load_thumb, thumb_label, PictureError, QrSearch};

fn png(picture: image::DynamicImage) -> Vec<u8> {
    let mut out = std::io::Cursor::new(Vec::new());
    picture.write_to(&mut out, image::ImageFormat::Png).unwrap();
    out.into_inner()
}

fn colours(width: u32, height: u32) -> Vec<u8> {
    let picture = image::RgbaImage::from_fn(width, height, |x, y| image::Rgba([x as u8, y as u8, 7, 255]));
    png(image::DynamicImage::ImageRgba8(picture))
}

fn pixels(picture: image::DynamicImage) -> Vec<u8> {
    load(&png(picture)).unwrap_or_else(|e| panic!("{}", e.message())).rgba
}

const CODE: [&str; 21] = [
    "111111100010001111111",
    "100000101110001000001",
    "101110100101101011101",
    "101110100000101011101",
    "101110101101101011101",
    "100000100111001000001",
    "111111101010101111111",
    "000000000010000000000",
    "101010100000100010010",
    "100110000001010101001",
    "010110110111011101111",
    "110001001111110110011",
    "001011101001011101001",
    "000000001110001001001",
    "111111100110100010011",
    "100000100110001000010",
    "101110101000101011011",
    "101110100101010101010",
    "101110101101011100001",
    "100000100011110111010",
    "111111101001011100111",
];

fn code_picture(width: u32) -> Vec<u8> {
    let scale = 8;
    let border = 4 * scale;
    let side = 21 * scale + 2 * border;
    let picture = image::GrayImage::from_fn(width, side, |x, y| {
        let inside = x >= border && y >= border && x < side - border && y < side - border;
        let dark = inside && CODE[((y - border) / scale) as usize].as_bytes()[((x - border) / scale) as usize] == b'1';
        image::Luma([if dark { 0 } else { 255 }])
    });
    png(image::DynamicImage::ImageLuma8(picture))
}

#[test]
fn load_gives_the_pixels() {
    let p = load(&colours(3, 2)).unwrap_or_else(|e| panic!("{}", e.message()));
    assert_eq!((p.width, p.height), (3, 2));
    assert_eq!(p.rgba.len(), 24);
    assert_eq!(&p.rgba[..8], &[0, 0, 7, 255, 1, 0, 7, 255]);
    assert_eq!(&p.rgba[12..16], &[0, 1, 7, 255]);
}

#[test]
fn load_makes_every_kind_of_png_rgba() {
    let grey = image::GrayImage::from_raw(2, 1, vec![3, 200]).unwrap();
    assert_eq!(pixels(image::DynamicImage::ImageLuma8(grey)), [3, 3, 3, 255, 200, 200, 200, 255]);
    let grey = image::GrayAlphaImage::from_raw(1, 1, vec![9, 70]).unwrap();
    assert_eq!(pixels(image::DynamicImage::ImageLumaA8(grey)), [9, 9, 9, 70]);
    let rgb = image::RgbImage::from_raw(1, 1, vec![1, 2, 3]).unwrap();
    assert_eq!(pixels(image::DynamicImage::ImageRgb8(rgb)), [1, 2, 3, 255]);
    let deep = image::ImageBuffer::<image::Luma<u16>, Vec<u16>>::from_raw(3, 1, vec![128, 129, 65535]).unwrap();
    assert_eq!(pixels(image::DynamicImage::ImageLuma16(deep)), [0, 0, 0, 255, 1, 1, 1, 255, 255, 255, 255, 255]);
    let deep = image::ImageBuffer::<image::LumaA<u16>, Vec<u16>>::from_raw(1, 1, vec![257, 514]).unwrap();
    assert_eq!(pixels(image::DynamicImage::ImageLumaA16(deep)), [1, 1, 1, 2]);
    let deep = image::ImageBuffer::<image::Rgb<u16>, Vec<u16>>::from_raw(1, 1, vec![385, 386, 0]).unwrap();
    assert_eq!(pixels(image::DynamicImage::ImageRgb16(deep)), [1, 2, 0, 255]);
    let deep = image::ImageBuffer::<image::Rgba<u16>, Vec<u16>>::from_raw(1, 1, vec![0, 257, 514, 771]).unwrap();
    assert_eq!(pixels(image::DynamicImage::ImageRgba16(deep)), [0, 1, 2, 3]);
}

#[test]
fn every_16_bit_level_goes_to_the_nearest() {
    let levels: Vec<u16> = (0..=65535).collect();
    let grey = image::ImageBuffer::<image::Luma<u16>, Vec<u16>>::from_raw(256, 256, levels.clone()).unwrap();
    let rgba = pixels(image::DynamicImage::ImageLuma16(grey));
    for (k, s) in levels.iter().enumerate() {
        assert_eq!(rgba[4 * k] as u32, (*s as u32 + 128) / 257);
    }
}

#[test]
fn load_refuses_what_is_no_png() {
    let expected = image::load_from_memory_with_format(b"not a picture", image::ImageFormat::Png).unwrap_err().to_string();
    assert!(matches!(load(b"not a picture"), Err(PictureError::Undecodable(e)) if e == expected));
    assert!(matches!(load(&[]), Err(PictureError::Undecodable(_))));
    assert!(matches!(load_thumb(b"not a picture", 256), Err(PictureError::Undecodable(e)) if e == expected));
    assert!(matches!(load_grey(b"not a picture"), Err(PictureError::Undecodable(e)) if e == expected));
    assert_eq!(PictureError::Undecodable(String::from("x")).message(), "x");
    assert_eq!(PictureError::TooLarge.message(), "picture too large");
}

#[test]
fn previews_fit_and_keep_their_shape() {
    for (width, height, max, sides) in [
        (64, 32, 16, (16, 8)),
        (2, 200, 10, (1, 10)),
        (3, 2, 4, (4, 3)),
        (200, 300, 256, (171, 256)),
        (5, 5, 1, (1, 1)),
        (40, 7, 0, (1, 1)),
        (1, 1, 300, (300, 300)),
        (1, 2, 70, (35, 70)),
    ] {
        let p = load_thumb(&colours(width, height), max).unwrap_or_else(|e| panic!("{}", e.message()));
        assert_eq!((p.width, p.height), sides, "{width} {height} {max}");
        assert_eq!(p.rgba.len() as u32, sides.0 * sides.1 * 4);
    }
}

#[test]
fn a_long_line_can_be_previewed() {
    let line = image::GrayImage::from_pixel(70_000, 1, image::Luma([9]));
    let p = load_thumb(&png(image::DynamicImage::ImageLuma8(line)), 70_000).unwrap_or_else(|e| panic!("{}", e.message()));
    assert_eq!((p.width, p.height), (70_000, 1));
    assert!(p.rgba.chunks(4).all(|c| c == [9, 9, 9, 255]));
}

#[test]
fn previews_average() {
    let two = image::GrayImage::from_raw(2, 2, vec![0, 10, 20, 31]).unwrap();
    let p = load_thumb(&png(image::DynamicImage::ImageLuma8(two)), 1).unwrap_or_else(|e| panic!("{}", e.message()));
    assert_eq!(p.rgba, [15, 15, 15, 255]);
}

fn thumb(bytes: &[u8], max: u32) -> (u32, u32, Vec<u8>) {
    let p = load_thumb(bytes, max).unwrap_or_else(|e| panic!("{}", e.message()));
    (p.width, p.height, p.rgba)
}

fn deep(width: u32, height: u32) -> Vec<u8> {
    let white = image::ImageBuffer::<image::Luma<u16>, Vec<u16>>::from_pixel(width, height, image::Luma([65535]));
    png(image::DynamicImage::ImageLuma16(white))
}

#[test]
fn previews_of_large_pictures_are_made_at_once_while_their_sums_fit() {
    assert_eq!(thumb(&deep(256, 256), 1), (1, 1, vec![255; 4]));
    let white = image::GrayImage::from_pixel(4096, 4096, image::Luma([255]));
    assert_eq!(thumb(&png(image::DynamicImage::ImageLuma8(white)), 1), (1, 1, vec![255; 4]));
}

#[test]
fn previews_whose_sums_do_not_fit_are_made_in_steps() {
    assert_eq!(thumb(&deep(257, 257), 1), (1, 1, vec![255; 4]));
    assert_eq!(thumb(&deep(257, 257), 0), (1, 1, vec![255; 4]));
    assert_eq!(thumb(&deep(3000, 1000), 3), (3, 1, vec![255; 12]));
    assert_eq!(thumb(&deep(1000, 4000), 2), (1, 2, vec![255; 8]));
    assert_eq!(thumb(&deep(100_000, 30), 1), (1, 1, vec![255; 4]));
    let white = image::GrayImage::from_pixel(5000, 5000, image::Luma([255]));
    assert_eq!(thumb(&png(image::DynamicImage::ImageLuma8(white)), 1), (1, 1, vec![255; 4]));
}

#[test]
fn previews_that_nothing_can_hold_are_refused() {
    assert!(matches!(load_thumb(&colours(2, 2), u32::MAX), Err(PictureError::TooLarge)));
}

#[test]
fn preview_names() {
    assert_eq!(thumb_label(&b"a.png".to_vec()), "thumb:a.png");
    assert_eq!(thumb_label(&vec![0xff]), "thumb:thumb");
}

fn search(bytes: &[u8]) -> QrSearch {
    match load_grey(bytes) {
        Ok(g) => {
            let levels = image::GrayImage::from_raw(g.width, g.height, g.levels).unwrap();
            let mut prepared = rqrr::PreparedImage::prepare(levels);
            QrSearch::Codes(prepared.detect_grids().iter().map(|g| g.decode().ok().map(|(_, text)| text)).collect())
        }
        Err(_) => QrSearch::Unopened,
    }
}

#[test]
fn a_code_is_read() {
    assert_eq!(decode_qr(&search(&code_picture(21 * 8 + 64))), Some(String::from("rqrr")));
}

#[test]
fn a_code_in_a_very_wide_picture_is_read() {
    assert_eq!(decode_qr(&search(&code_picture(40_000))), Some(String::from("rqrr")));
}

#[test]
fn no_code_is_read_where_there_is_none() {
    assert_eq!(decode_qr(&search(&colours(40, 40))), None);
    assert_eq!(decode_qr(&search(b"not a picture")), None);
    assert_eq!(decode_qr(&QrSearch::Unfinished), None);
}

#[test]
fn codes_that_fail_or_are_empty_are_passed_over() {
    let text = |s: &str| Some(String::from(s));
    assert_eq!(decode_qr(&QrSearch::Codes(vec![None, text(""), text("A"), text("B")])), text("A"));
    assert_eq!(decode_qr(&QrSearch::Codes(Vec::new())), None);
}

#[test]
fn grey_levels_follow_brightness() {
    let rgb = image::RgbImage::from_raw(4, 1, vec![255, 0, 0, 0, 255, 0, 0, 0, 255, 77, 77, 77]).unwrap();
    let g = load_grey(&png(image::DynamicImage::ImageRgb8(rgb))).unwrap_or_else(|e| panic!("{}", e.message()));
    assert_eq!((g.width, g.height, g.levels), (4, 1, vec![54, 182, 18, 77]));
    let grey = image::GrayImage::from_raw(2, 2, vec![0, 1, 254, 255]).unwrap();
    let g = load_grey(&png(image::DynamicImage::ImageLuma8(grey))).unwrap_or_else(|e| panic!("{}", e.message()));
    assert_eq!(g.levels, [0, 1, 254, 255]);
}

#[test]
fn the_first_text_counts() {
    let text = |s: &str| Some(String::from(s));
    assert_eq!(first_text(&vec![None, text(""), text("a"), text("b")]), text("a"));
    assert_eq!(first_text(&vec![None, text("")]), None);
    assert_eq!(first_text(&Vec::new()), None);
}
