use render::{Image, Pixel, Rasterizer};

#[test]
fn image_new_is_black() {
    let img = Image::new(4, 3);
    assert_eq!(img.width(), 4);
    assert_eq!(img.height(), 3);
    assert_eq!(img.dimensions(), (4, 3));
    for y in 0..3 {
        for x in 0..4 {
            assert_eq!(img.get(x, y), Pixel::black());
        }
    }
    assert_eq!(img.as_u32_slice(), &[0xFF000000u32; 12][..]);
}

#[test]
fn image_set_updates_packed_words() {
    let mut img = Image::new(4, 3);
    img.set(1, 2, Pixel::new(0x10, 0x20, 0x30));
    assert_eq!(img.get(1, 2), Pixel::new(0x10, 0x20, 0x30));
    let words = img.as_u32_slice();
    assert_eq!(words.len(), 12);
    assert_eq!(words[2 * 4 + 1], 0xFF102030);
    assert_eq!(words[0], 0xFF000000);
}

#[test]
fn image_fill_sets_every_pixel() {
    let mut img = Image::new(2, 2);
    img.fill(Pixel::white());
    for y in 0..2 {
        for x in 0..2 {
            assert_eq!(img.get(x, y), Pixel::white());
        }
    }
    assert!(img.as_u32_slice().iter().all(|w| *w == 0xFFFFFFFF));
}

#[test]
fn rasterizer_clear_and_point() {
    let mut img = Image::new(3, 3);
    Rasterizer::clear(&mut img, Pixel::new(9, 9, 9));
    Rasterizer::draw_point(&mut img, 2, 0, Pixel::white());
    assert_eq!(img.get(2, 0), Pixel::white());
    assert_eq!(img.get(0, 0), Pixel::new(9, 9, 9));
    assert_eq!(img.get(1, 2), Pixel::new(9, 9, 9));
}

#[test]
fn rasterizer_line_with_gentle_slope() {
    let mut img = Image::new(6, 4);
    Rasterizer::draw_line(&mut img, 0, 0, 4, 2, Pixel::white());
    let on = [(0, 0), (1, 1), (2, 2), (3, 2)];
    for y in 0..4 {
        for x in 0..6 {
            let expected = if on.contains(&(x, y)) { Pixel::white() } else { Pixel::black() };
            assert_eq!(img.get(x, y), expected, "pixel ({}, {})", x, y);
        }
    }
}

#[test]
fn rasterizer_horizontal_line_excludes_end() {
    let mut img = Image::new(6, 2);
    Rasterizer::draw_line(&mut img, 1, 1, 5, 1, Pixel::white());
    for x in 0..6 {
        let expected = if (1..5).contains(&x) { Pixel::white() } else { Pixel::black() };
        assert_eq!(img.get(x, 1), expected);
        assert_eq!(img.get(x, 0), Pixel::black());
    }
}

#[test]
fn rasterizer_degenerate_line_draws_nothing() {
    let mut img = Image::new(2, 2);
    Rasterizer::draw_line(&mut img, 1, 0, 1, 1, Pixel::white());
    for y in 0..2 {
        for x in 0..2 {
            assert_eq!(img.get(x, y), Pixel::black());
        }
    }
}
