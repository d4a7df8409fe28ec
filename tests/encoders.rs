use render::{Canvas, Pixel, BMP, PPM};

fn sample() -> Canvas {
    let mut c = Canvas::new(5, 3);
    // (1.5, 0, 0), (0, 0.5, 0) and (-0.5, 0, 1) once clamped and narrowed to 8 bits
    c.set(0, 0, Pixel::new(255, 0, 0));
    c.set(2, 1, Pixel::new(0, 127, 0));
    c.set(4, 2, Pixel::new(0, 0, 255));
    c
}

#[test]
fn test_to_ppm() {
    let c = sample();
    let expected = Vec::from(
        "P3\n\
         5 3\n\
         255\n\
         255 0 0 0 0 0 0 0 0 0 0 0 0 0 0\n\
         0 0 0 0 0 0 0 127 0 0 0 0 0 0 0\n\
         0 0 0 0 0 0 0 0 0 0 0 0 0 0 255\n",
    );
    assert_eq!(c.to_ppm(), expected);
}

#[test]
fn ppm_wraps_every_fifth_pixel_across_rows() {
    let mut c = Canvas::new(3, 3);
    c.set(1, 1, Pixel::new(10, 200, 7));
    let expected = Vec::from(
        "P3\n3 3\n255\n0 0 0 0 0 0 0 0 0 0 0 0 10 200 7\n0 0 0 0 0 0 0 0 0 0 0 0 ",
    );
    assert_eq!(c.to_ppm(), expected);
}

#[test]
fn ppm_of_empty_canvas_is_header_only() {
    let c = Canvas::new(0, 0);
    assert_eq!(c.to_ppm(), Vec::from("P3\n0 0\n255\n"));
}

#[test]
fn ppm_large_dimensions_in_decimal() {
    let c = Canvas::new(1234, 0);
    assert_eq!(c.to_ppm(), Vec::from("P3\n1234 0\n255\n"));
}

#[test]
fn test_to_bmp() {
    let c = sample();
    let mut expected: Vec<u8> = vec![
        // file header
        0x42, 0x4D, // magic
        0x72, 0x00, 0x00, 0x00, // file size 114
        0x00, 0x00, 0x00, 0x00, // reserved
        0x36, 0x00, 0x00, 0x00, // data offset 54
        // info header
        0x28, 0x00, 0x00, 0x00, // header size 40
        0x05, 0x00, 0x00, 0x00, // width
        0x03, 0x00, 0x00, 0x00, // height
        0x01, 0x00, // colour planes
        0x20, 0x00, // bits per pixel
        0x00, 0x00, 0x00, 0x00, // compression
        0x3C, 0x00, 0x00, 0x00, // data size 60
        0x00, 0x00, 0x00, 0x00, // horizontal resolution
        0x00, 0x00, 0x00, 0x00, // vertical resolution
        0x00, 0x00, 0x00, 0x00, // colours in palette
        0x00, 0x00, 0x00, 0x00, // important colours
    ];
    for y in 0..3 {
        for x in 0..5 {
            let px: [u8; 4] = match (x, y) {
                (0, 0) => [0xFF, 255, 0, 0],
                (2, 1) => [0xFF, 0, 127, 0],
                (4, 2) => [0xFF, 0, 0, 255],
                _ => [0xFF, 0, 0, 0],
            };
            expected.extend_from_slice(&px);
        }
    }
    let result = c.to_bmp();
    assert_eq!(result.len(), 14 + 40 + 60);
    assert_eq!(result, expected);
}

#[test]
fn bmp_pixel_data_is_top_row_first() {
    let mut c = Canvas::new(1, 2);
    c.set(0, 0, Pixel::new(1, 2, 3));
    c.set(0, 1, Pixel::new(4, 5, 6));
    let result = c.to_bmp();
    assert_eq!(&result[54..], &[0xFF, 1, 2, 3, 0xFF, 4, 5, 6]);
}

#[test]
fn bmp_size_fields_are_little_endian() {
    let c = Canvas::new(300, 2);
    let result = c.to_bmp();
    let file_size = 54 + 300 * 2 * 4;
    assert_eq!(result.len(), file_size);
    assert_eq!(&result[2..6], &(file_size as u32).to_le_bytes());
    assert_eq!(&result[18..22], &[0x2C, 0x01, 0x00, 0x00]);
    assert_eq!(&result[22..26], &[0x02, 0x00, 0x00, 0x00]);
    assert_eq!(&result[34..38], &(2400u32).to_le_bytes());
}

#[test]
fn bmp_of_empty_canvas_is_headers_only() {
    let c = Canvas::new(0, 0);
    let result = c.to_bmp();
    assert_eq!(result.len(), 54);
    assert_eq!(&result[0..2], &[0x42, 0x4D]);
    assert_eq!(&result[2..6], &[54, 0, 0, 0]);
}
