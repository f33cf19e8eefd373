use embedded_graphics::geometry::Point as EgPoint;
use embedded_graphics::primitives::{Circle, Line, PointsIter};
use embedded_graphics_simulator::{Color, ColorFormat, Point, Rectangle, SimulatorDisplay, Size};

fn line_pixels(start: (i32, i32), end: (i32, i32), color: Color) -> Vec<(Point, Color)> {
    Line::new(EgPoint::new(start.0, start.1), EgPoint::new(end.0, end.1))
        .points()
        .map(|p| (Point::new(p.x, p.y), color))
        .collect()
}

fn display_from_values(width: u32, height: u32, colors: &[Color]) -> SimulatorDisplay {
    assert_eq!(colors.len(), (width * height) as usize);
    let mut display = SimulatorDisplay::new(Size::new(width, height), colors[0].format());
    let batch: Vec<(Point, Color)> = colors
        .iter()
        .enumerate()
        .map(|(i, c)| {
            (Point::new((i as u32 % width) as i32, (i as u32 / width) as i32), *c)
        })
        .collect();
    display.draw_pixels(&batch);
    display
}

#[test]
fn to_bytes_u1() {
    let values: Vec<Color> = [
        1, 0, 0, 0, 0, 0, 0, 1, 0, //
        0, 1, 0, 0, 0, 0, 1, 0, 1, //
        0, 0, 1, 0, 0, 1, 0, 0, 0, //
    ]
    .iter()
    .map(|c| Color::Binary(*c != 0))
    .collect();
    let display = display_from_values(9, 3, &values);

    let expected = [
        0b10000001, 0b00000000, //
        0b01000010, 0b10000000, //
        0b00100100, 0b00000000, //
    ];
    assert_eq!(&display.to_be_bytes(), &expected);
    assert_eq!(&display.to_le_bytes(), &expected);
    assert_eq!(&display.to_ne_bytes(), &expected);
}

#[test]
fn to_bytes_u2() {
    let values: Vec<Color> = [
        0, 1, 2, 3, 0, //
        1, 0, 3, 2, 1, //
    ]
    .iter()
    .map(|c| Color::Gray2(*c))
    .collect();
    let display = display_from_values(5, 2, &values);

    let expected = [
        0b00011011, 0b00000000, //
        0b01001110, 0b01000000, //
    ];
    assert_eq!(&display.to_be_bytes(), &expected);
    assert_eq!(&display.to_le_bytes(), &expected);
    assert_eq!(&display.to_ne_bytes(), &expected);
}

#[test]
fn to_bytes_u4() {
    let values: Vec<Color> = [
        0x0, 0x1, 0x2, 0x3, 0x4, //
        0x5, 0x6, 0x7, 0x8, 0x9, //
        0xA, 0xB, 0xC, 0xD, 0xE, //
        0xF, 0x0, 0x0, 0x0, 0x0, //
    ]
    .iter()
    .map(|c| Color::Gray4(*c))
    .collect();
    let display = display_from_values(5, 4, &values);

    let expected = [
        0x01, 0x23, 0x40, //
        0x56, 0x78, 0x90, //
        0xAB, 0xCD, 0xE0, //
        0xF0, 0x00, 0x00, //
    ];
    assert_eq!(&display.to_be_bytes(), &expected);
    assert_eq!(&display.to_le_bytes(), &expected);
    assert_eq!(&display.to_ne_bytes(), &expected);
}

#[test]
fn to_bytes_u8() {
    let expected = [
        1, 2, 3, //
        11, 12, 13, //
    ];
    let values: Vec<Color> = expected.iter().copied().map(Color::Gray8).collect();
    let display = display_from_values(3, 2, &values);

    assert_eq!(&display.to_be_bytes(), &expected);
    assert_eq!(&display.to_le_bytes(), &expected);
    assert_eq!(&display.to_ne_bytes(), &expected);
}

#[test]
fn to_bytes_u16() {
    let values = vec![Color::Rgb565(0x10, 0x00, 0x00), Color::Rgb565(0x00, 0x00, 0x01)];
    let display = display_from_values(2, 1, &values);

    assert_eq!(&display.to_be_bytes(), &[0x80, 0x00, 0x00, 0x01]);
    assert_eq!(&display.to_le_bytes(), &[0x00, 0x80, 0x01, 0x00]);
}

#[test]
fn to_bytes_u24() {
    let values = vec![
        Color::Rgb888(embedded_graphics_simulator::Rgb::new(0x80, 0x00, 0x00)),
        Color::Rgb888(embedded_graphics_simulator::Rgb::new(0x00, 0x00, 0x01)),
    ];
    let display = display_from_values(2, 1, &values);

    assert_eq!(&display.to_be_bytes(), &[0x80, 0x00, 0x00, 0x00, 0x00, 0x01]);
    assert_eq!(&display.to_le_bytes(), &[0x00, 0x00, 0x80, 0x01, 0x00, 0x00]);
}

#[test]
fn diff_equal() {
    let display = SimulatorDisplay::new(Size::new(4, 6), ColorFormat::Binary);
    let expected = display.clone();

    assert_eq!(display.diff(&expected), None);
}

#[test]
fn diff_not_equal() {
    let circle = Circle::new(EgPoint::zero(), 3);

    let mut display = SimulatorDisplay::new(Size::new(4, 6), ColorFormat::Binary);
    let expected = display.clone();

    let batch: Vec<(Point, Color)> = circle
        .points()
        .map(|p| (Point::new(p.x, p.y), Color::Binary(true)))
        .collect();
    display.draw_pixels(&batch);

    assert_eq!(display.diff(&expected), Some(display));
}

#[test]
fn diff_single_pixel_mask() {
    let a = SimulatorDisplay::new(Size::new(3, 3), ColorFormat::Gray8);
    let mut b = a.clone();
    b.draw_pixels(&vec![(Point::new(2, 1), Color::Gray8(7))]);

    let mask = a.diff(&b).expect("one pixel differs");
    assert_eq!(mask.size(), Size::new(3, 3));
    for y in 0..3 {
        for x in 0..3 {
            let expected = Color::Binary(x == 2 && y == 1);
            assert_eq!(mask.get_pixel(Point::new(x, y)), expected);
        }
    }
}

#[test]
fn draw_then_get_returns_color() {
    let mut display = SimulatorDisplay::new(Size::new(5, 4), ColorFormat::Gray4);
    display.draw_pixels(&vec![
        (Point::new(3, 2), Color::Gray4(9)),
        (Point::new(3, 2), Color::Gray4(4)),
        (Point::new(0, 0), Color::Gray4(15)),
    ]);
    assert_eq!(display.get_pixel(Point::new(3, 2)), Color::Gray4(4));
    assert_eq!(display.get_pixel(Point::new(0, 0)), Color::Gray4(15));
    assert_eq!(display.get_pixel(Point::new(1, 1)), Color::Gray4(0));
}

#[test]
fn out_of_bounds_writes_are_dropped() {
    let mut display = SimulatorDisplay::new(Size::new(2, 2), ColorFormat::Binary);
    let untouched = display.clone();
    display.draw_pixels(&vec![
        (Point::new(-1, 0), Color::Binary(true)),
        (Point::new(0, -1), Color::Binary(true)),
        (Point::new(2, 0), Color::Binary(true)),
        (Point::new(0, 2), Color::Binary(true)),
        (Point::new(i32::MIN, i32::MAX), Color::Binary(true)),
    ]);
    assert_eq!(display, untouched);
}

#[test]
fn fill_solid_round_trip() {
    let mut display = SimulatorDisplay::new(Size::new(4, 4), ColorFormat::Gray8);
    display.fill_solid(
        &Rectangle::new(Point::new(1, 1), Size::new(2, 2)),
        Color::Gray8(0xAA),
    );
    for y in 0..4 {
        for x in 0..4 {
            let inside = (1..3).contains(&x) && (1..3).contains(&y);
            let expected = Color::Gray8(if inside { 0xAA } else { 0 });
            assert_eq!(display.get_pixel(Point::new(x, y)), expected);
        }
    }

    // A rectangle reaching past the edge is clipped to the display.
    display.fill_solid(
        &Rectangle::new(Point::new(3, 3), Size::new(5, 5)),
        Color::Gray8(0x55),
    );
    assert_eq!(display.get_pixel(Point::new(3, 3)), Color::Gray8(0x55));
    assert_eq!(display.get_pixel(Point::new(2, 3)), Color::Gray8(0));
    assert_eq!(display.get_pixel(Point::new(3, 2)), Color::Gray8(0));
}

#[test]
fn line_drawing_matches_pixels() {
    let mut display = SimulatorDisplay::new(Size::new(2, 4), ColorFormat::Binary);
    display.draw_pixels(&line_pixels((0, 0), (1, 3), Color::Binary(true)));

    assert_eq!(display.get_pixel(Point::new(0, 0)), Color::Binary(true));
    assert_eq!(display.get_pixel(Point::new(0, 1)), Color::Binary(true));
    assert_eq!(display.get_pixel(Point::new(1, 2)), Color::Binary(true));
    assert_eq!(display.get_pixel(Point::new(1, 3)), Color::Binary(true));
    assert_eq!(display.get_pixel(Point::new(1, 0)), Color::Binary(false));
    assert_eq!(display.get_pixel(Point::new(0, 3)), Color::Binary(false));
}
