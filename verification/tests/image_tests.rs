use embedded_graphics_simulator::{
    OutputFormat, OutputImage, Point, Rectangle, Rgb, Size,
};

#[test]
fn rgb888_default_data() {
    let image = OutputImage::new(Size::new(6, 5), OutputFormat::Rgb888);
    assert_eq!(image.data().as_slice(), &[0u8; 6 * 5 * 3]);
}

#[test]
fn rgb888_draw_iter() {
    let mut image = OutputImage::new(Size::new(4, 6), OutputFormat::Rgb888);

    image.draw_pixels(&vec![
        (Point::new(0, 0), Rgb::new(0xFF, 0x00, 0x00)),
        (Point::new(3, 0), Rgb::new(0x00, 0xFF, 0x00)),
        (Point::new(0, 5), Rgb::new(0x00, 0x00, 0xFF)),
        (Point::new(3, 5), Rgb::new(0x12, 0x34, 0x56)),
        // out of bounds pixels should be ignored
        (Point::new(-1, -1), Rgb::new(0xFF, 0xFF, 0xFF)),
        (Point::new(0, 10), Rgb::new(0xFF, 0xFF, 0xFF)),
        (Point::new(10, 0), Rgb::new(0xFF, 0xFF, 0xFF)),
    ]);

    assert_eq!(
        image.data().as_slice(),
        &[
            0xFF, 0x00, 0x00, 0x00, 0x00, 0x00, 0x00, 0x00, 0x00, 0x00, 0xFF, 0x00, //
            0x00, 0x00, 0x00, 0x00, 0x00, 0x00, 0x00, 0x00, 0x00, 0x00, 0x00, 0x00, //
            0x00, 0x00, 0x00, 0x00, 0x00, 0x00, 0x00, 0x00, 0x00, 0x00, 0x00, 0x00, //
            0x00, 0x00, 0x00, 0x00, 0x00, 0x00, 0x00, 0x00, 0x00, 0x00, 0x00, 0x00, //
            0x00, 0x00, 0x00, 0x00, 0x00, 0x00, 0x00, 0x00, 0x00, 0x00, 0x00, 0x00, //
            0x00, 0x00, 0xFF, 0x00, 0x00, 0x00, 0x00, 0x00, 0x00, 0x12, 0x34, 0x56, //
        ]
    );
}

#[test]
fn rgb888_fill_solid() {
    let mut image = OutputImage::new(Size::new(4, 6), OutputFormat::Rgb888);

    image.fill_solid(
        &Rectangle::new(Point::new(2, 3), Size::new(10, 20)),
        Rgb::new(0x01, 0x02, 0x03),
    );

    assert_eq!(
        image.data().as_slice(),
        &[
            0x00, 0x00, 0x00, 0x00, 0x00, 0x00, 0x00, 0x00, 0x00, 0x00, 0x00, 0x00, //
            0x00, 0x00, 0x00, 0x00, 0x00, 0x00, 0x00, 0x00, 0x00, 0x00, 0x00, 0x00, //
            0x00, 0x00, 0x00, 0x00, 0x00, 0x00, 0x00, 0x00, 0x00, 0x00, 0x00, 0x00, //
            0x00, 0x00, 0x00, 0x00, 0x00, 0x00, 0x01, 0x02, 0x03, 0x01, 0x02, 0x03, //
            0x00, 0x00, 0x00, 0x00, 0x00, 0x00, 0x01, 0x02, 0x03, 0x01, 0x02, 0x03, //
            0x00, 0x00, 0x00, 0x00, 0x00, 0x00, 0x01, 0x02, 0x03, 0x01, 0x02, 0x03, //
        ]
    );
}

#[test]
fn gray8_default_data() {
    let image = OutputImage::new(Size::new(6, 5), OutputFormat::Gray8);
    assert_eq!(image.data().as_slice(), &[0u8; 6 * 5]);
}

#[test]
fn gray8_draw_iter() {
    let mut image = OutputImage::new(Size::new(12, 6), OutputFormat::Gray8);

    image.draw_pixels(&vec![
        (Point::new(0, 0), Rgb::new(0x01, 0x01, 0x01)),
        (Point::new(11, 0), Rgb::new(0x02, 0x02, 0x02)),
        (Point::new(0, 5), Rgb::new(0x03, 0x03, 0x03)),
        (Point::new(11, 5), Rgb::new(0x04, 0x04, 0x04)),
        // out of bounds pixels should be ignored
        (Point::new(-1, -1), Rgb::new(0xFF, 0xFF, 0xFF)),
        (Point::new(0, 10), Rgb::new(0xFF, 0xFF, 0xFF)),
        (Point::new(12, 0), Rgb::new(0xFF, 0xFF, 0xFF)),
    ]);

    assert_eq!(
        image.data().as_slice(),
        &[
            0x01, 0x00, 0x00, 0x00, 0x00, 0x00, 0x00, 0x00, 0x00, 0x00, 0x00, 0x02, //
            0x00, 0x00, 0x00, 0x00, 0x00, 0x00, 0x00, 0x00, 0x00, 0x00, 0x00, 0x00, //
            0x00, 0x00, 0x00, 0x00, 0x00, 0x00, 0x00, 0x00, 0x00, 0x00, 0x00, 0x00, //
            0x00, 0x00, 0x00, 0x00, 0x00, 0x00, 0x00, 0x00, 0x00, 0x00, 0x00, 0x00, //
            0x00, 0x00, 0x00, 0x00, 0x00, 0x00, 0x00, 0x00, 0x00, 0x00, 0x00, 0x00, //
            0x03, 0x00, 0x00, 0x00, 0x00, 0x00, 0x00, 0x00, 0x00, 0x00, 0x00, 0x04, //
        ]
    );
}

#[test]
fn gray8_fill_solid() {
    let mut image = OutputImage::new(Size::new(4, 6), OutputFormat::Gray8);

    image.fill_solid(
        &Rectangle::new(Point::new(2, 3), Size::new(10, 20)),
        Rgb::new(0xFF, 0xFF, 0xFF),
    );

    assert_eq!(
        image.data().as_slice(),
        &[
            0x00, 0x00, 0x00, 0x00, //
            0x00, 0x00, 0x00, 0x00, //
            0x00, 0x00, 0x00, 0x00, //
            0x00, 0x00, 0xFF, 0xFF, //
            0x00, 0x00, 0xFF, 0xFF, //
            0x00, 0x00, 0xFF, 0xFF, //
        ]
    );
}

#[test]
fn bulk_fill_large_region() {
    // A region of at least 16x16 pixels takes the row-template fill path;
    // the bytes must come out the same as a per-pixel fill would produce.
    let mut image = OutputImage::new(Size::new(20, 20), OutputFormat::Rgb888);
    image.fill_solid(
        &Rectangle::new(Point::new(1, 2), Size::new(18, 17)),
        Rgb::new(0x11, 0x22, 0x33),
    );
    let data = image.data();
    for y in 0..20u32 {
        for x in 0..20u32 {
            let inside = (1..19).contains(&x) && (2..19).contains(&y);
            let base = ((y * 20 + x) * 3) as usize;
            let expected: [u8; 3] = if inside { [0x11, 0x22, 0x33] } else { [0, 0, 0] };
            assert_eq!(&data[base..base + 3], &expected, "at ({x}, {y})");
        }
    }

    let mut gray = OutputImage::new(Size::new(18, 18), OutputFormat::Gray8);
    gray.fill_solid(
        &Rectangle::new(Point::new(0, 0), Size::new(16, 16)),
        Rgb::new(0x40, 0x40, 0x40),
    );
    let gray_data = gray.data();
    for y in 0..18u32 {
        for x in 0..18u32 {
            let inside = x < 16 && y < 16;
            let expected = if inside { 0x40 } else { 0 };
            assert_eq!(gray_data[(y * 18 + x) as usize], expected, "at ({x}, {y})");
        }
    }
}

#[test]
fn rectangle_intersection_and_contains() {
    let a = Rectangle::new(Point::new(0, 0), Size::new(4, 4));
    let b = Rectangle::new(Point::new(2, 2), Size::new(4, 4));
    let i = a.intersection(&b);
    assert_eq!(i, Rectangle::new(Point::new(2, 2), Size::new(2, 2)));
    assert!(i.contains(Point::new(2, 2)));
    assert!(i.contains(Point::new(3, 3)));
    assert!(!i.contains(Point::new(4, 4)));
    assert!(!i.contains(Point::new(1, 2)));

    let far = Rectangle::new(Point::new(10, 10), Size::new(2, 2));
    let empty = a.intersection(&far);
    assert_eq!(empty.size.width * empty.size.height, 0);
}
