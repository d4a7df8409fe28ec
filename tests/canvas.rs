use render::{Canvas, Pixel};

#[test]
fn test_creation() {
    let c = Canvas::new(10, 20);
    assert_eq!(c.width(), 10);
    assert_eq!(c.height(), 20);
    for y in 0..20 {
        for x in 0..10 {
            assert_eq!(c.get(x, y), Pixel::black());
        }
    }
}

#[test]
fn canvas_set_changes_one_cell() {
    let mut c = Canvas::new(3, 2);
    c.set(2, 1, Pixel::new(1, 2, 3));
    assert_eq!(c.get(2, 1), Pixel::new(1, 2, 3));
    for y in 0..2 {
        for x in 0..3 {
            if (x, y) != (2, 1) {
                assert_eq!(c.get(x, y), Pixel::black());
            }
        }
    }
}

#[test]
fn canvas_empty_has_no_cells() {
    let c = Canvas::new(0, 4);
    assert_eq!(c.width(), 0);
    assert_eq!(c.height(), 4);
}

#[test]
fn pixel_packing() {
    let p = Pixel::new(0x12, 0x34, 0x56);
    assert_eq!(p.to_rgba(), 0x123456FF);
    assert_eq!(p.to_argb(), 0xFF123456);
    assert_eq!(Pixel::black().to_rgba(), 0x000000FF);
    assert_eq!(Pixel::white().to_argb(), 0xFFFFFFFF);
}
