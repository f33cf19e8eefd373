use embedded_graphics::geometry::Point as EgPoint;
use embedded_graphics::pixelcolor::{Gray2, Gray4, Gray8, GrayColor, Rgb565, Rgb888, RgbColor};
use embedded_graphics::primitives::{Line, PointsIter};
use embedded_graphics_simulator::{
    BinaryColorTheme, Color, ColorFormat, OutputSettings, OutputSettingsBuilder, Point, Rgb,
    SimulatorDisplay, Size,
};

fn diagonal_display() -> SimulatorDisplay {
    let mut display = SimulatorDisplay::new(Size::new(2, 4), ColorFormat::Binary);
    let batch: Vec<(Point, Color)> = Line::new(EgPoint::new(0, 0), EgPoint::new(1, 3))
        .points()
        .map(|p| (Point::new(p.x, p.y), Color::Binary(true)))
        .collect();
    display.draw_pixels(&batch);
    display
}

#[test]
fn rgb_output_image() {
    let display = diagonal_display();

    let image = display.to_rgb_output_image(&OutputSettings::default());
    assert_eq!(image.size(), display.size());

    let expected: &[u8] = &[
        255, 255, 255, 0, 0, 0, //
        255, 255, 255, 0, 0, 0, //
        0, 0, 0, 255, 255, 255, //
        0, 0, 0, 255, 255, 255, //
    ];
    assert_eq!(image.data().as_slice(), expected);
}

#[test]
fn grayscale_image_buffer() {
    let display = diagonal_display();

    let image = display.to_grayscale_output_image(&OutputSettings::default());
    assert_eq!(image.size(), display.size());

    let expected: &[u8] = &[
        255, 0, //
        255, 0, //
        0, 255, //
        0, 255, //
    ];
    assert_eq!(image.data().as_slice(), expected);
}

#[test]
fn scaled_block_at_origin() {
    let mut display = SimulatorDisplay::new(Size::new(2, 2), ColorFormat::Binary);
    display.draw_pixels(&vec![(Point::new(0, 0), Color::Binary(true))]);

    let settings = OutputSettingsBuilder::new().scale(2).build();
    let image = display.to_rgb_output_image(&settings);
    assert_eq!(image.size(), Size::new(4, 4));

    let data = image.data();
    for y in 0..4u32 {
        for x in 0..4u32 {
            let expected = if x < 2 && y < 2 { 255 } else { 0 };
            let base = ((y * 4 + x) * 3) as usize;
            assert_eq!(data[base], expected, "at ({x}, {y})");
            assert_eq!(data[base + 1], expected);
            assert_eq!(data[base + 2], expected);
        }
    }
}

#[test]
fn spacing_leaves_gutters() {
    let mut display = SimulatorDisplay::new(Size::new(2, 2), ColorFormat::Binary);
    display.fill_solid(
        &embedded_graphics_simulator::Rectangle::new(Point::new(0, 0), Size::new(2, 2)),
        Color::Binary(true),
    );

    let settings = OutputSettingsBuilder::new().scale(2).pixel_spacing(1).build();
    let image = display.to_rgb_output_image(&settings);
    assert_eq!(image.size(), Size::new(5, 5));

    let data = image.data();
    for y in 0..5u32 {
        for x in 0..5u32 {
            // Exactly one background column and row separates the blocks.
            let expected = if x == 2 || y == 2 { 0 } else { 255 };
            let base = ((y * 5 + x) * 3) as usize;
            assert_eq!(data[base], expected, "at ({x}, {y})");
        }
    }
}

#[test]
fn theme_default_and_inverted() {
    let c = Rgb::new(12, 34, 56);
    assert_eq!(BinaryColorTheme::Default.convert(c), c);
    assert_eq!(BinaryColorTheme::Inverted.convert(c), Rgb::new(243, 221, 199));
    assert_eq!(
        BinaryColorTheme::Inverted.convert(Rgb::new(0, 0, 0)),
        Rgb::new(255, 255, 255)
    );
}

#[test]
fn theme_presets_classify_on_off() {
    let black = Rgb::new(0, 0, 0);
    let nearly_black = Rgb::new(0, 0, 1);
    assert_eq!(BinaryColorTheme::LcdWhite.convert(black), Rgb::new(245, 245, 245));
    assert_eq!(BinaryColorTheme::LcdWhite.convert(nearly_black), Rgb::new(32, 32, 32));
    assert_eq!(BinaryColorTheme::LcdGreen.convert(black), Rgb::new(120, 185, 50));
    assert_eq!(BinaryColorTheme::LcdBlue.convert(black), Rgb::new(70, 80, 230));
    assert_eq!(BinaryColorTheme::OledWhite.convert(black), Rgb::new(20, 20, 20));
    assert_eq!(BinaryColorTheme::OledBlue.convert(black), Rgb::new(0, 20, 40));
    assert_eq!(
        BinaryColorTheme::Custom { color_off: Rgb::new(1, 2, 3), color_on: Rgb::new(4, 5, 6) }
            .convert(Rgb::new(255, 255, 255)),
        Rgb::new(4, 5, 6)
    );
}

#[test]
fn themed_rendering_uses_palette() {
    let mut display = SimulatorDisplay::new(Size::new(2, 1), ColorFormat::Binary);
    display.draw_pixels(&vec![(Point::new(1, 0), Color::Binary(true))]);

    let settings = OutputSettings {
        scale: 1,
        pixel_spacing: 0,
        theme: BinaryColorTheme::OledBlue,
    };
    let image = display.to_rgb_output_image(&settings);
    assert_eq!(image.data().as_slice(), &[0, 20, 40, 0, 210, 255]);
}

#[test]
fn theme_builder_defaults_scale_and_spacing() {
    let settings = OutputSettingsBuilder::new().theme(BinaryColorTheme::LcdGreen).build();
    assert_eq!(settings.scale, 3);
    assert_eq!(settings.pixel_spacing, 1);
    assert_eq!(settings.theme, BinaryColorTheme::LcdGreen);

    let explicit = OutputSettingsBuilder::new()
        .scale(5)
        .theme(BinaryColorTheme::LcdGreen)
        .pixel_spacing(2)
        .build();
    assert_eq!(explicit.scale, 5);
    assert_eq!(explicit.pixel_spacing, 2);

    let plain = OutputSettingsBuilder::new().build();
    assert_eq!(plain, OutputSettings::default());
}

#[test]
fn output_size_formula() {
    let settings = OutputSettingsBuilder::new().scale(3).pixel_spacing(1).build();
    assert_eq!(settings.output_size(Size::new(128, 64)), Size::new(128 * 3 + 127, 64 * 3 + 63));
    assert_eq!(settings.output_size(Size::new(0, 5)), Size::new(0, 5 * 3 + 4));
    assert_eq!(settings.output_size(Size::new(1, 1)), Size::new(3, 3));
}

#[test]
fn mouse_position_translation() {
    let settings = OutputSettingsBuilder::new().scale(2).pixel_spacing(1).build();
    // A 4x3 display at offset (10, 20): pitch 3 per axis.
    let size = Size::new(4, 3);
    let offset = Point::new(10, 20);
    assert_eq!(
        settings.translate_mouse_position(size, offset, Point::new(10, 20)),
        Some(Point::new(0, 0))
    );
    assert_eq!(
        settings.translate_mouse_position(size, offset, Point::new(17, 25)),
        Some(Point::new(2, 1))
    );
    // Past the display's rendered area.
    assert_eq!(settings.translate_mouse_position(size, offset, Point::new(22, 20)), None);
    // Left of the display by more than a pitch.
    assert_eq!(settings.translate_mouse_position(size, offset, Point::new(5, 20)), None);

    let unit = OutputSettings::default();
    assert_eq!(unit.output_to_display(Point::new(7, 3)), Point::new(7, 3));
}

#[test]
fn color_conversions_match_reference() {
    for v in 0..4u8 {
        let ours = Color::Gray2(v).to_rgb();
        let theirs = Rgb888::from(Gray2::new(v));
        assert_eq!((ours.r, ours.g, ours.b), (theirs.r(), theirs.g(), theirs.b()));
    }
    for v in [0u8, 1, 7, 8, 15] {
        let ours = Color::Gray4(v).to_rgb();
        let theirs = Rgb888::from(Gray4::new(v));
        assert_eq!((ours.r, ours.g, ours.b), (theirs.r(), theirs.g(), theirs.b()));
    }
    for (r, g, b) in [(0u8, 0u8, 0u8), (16, 32, 16), (31, 63, 31), (5, 20, 30)] {
        let ours = Color::Rgb565(r, g, b).to_rgb();
        let theirs = Rgb888::from(Rgb565::new(r, g, b));
        assert_eq!((ours.r, ours.g, ours.b), (theirs.r(), theirs.g(), theirs.b()));
    }
    for (r, g, b) in [(0u8, 0u8, 0u8), (255, 0, 0), (1, 2, 3), (200, 100, 50)] {
        let ours = match Color::from_rgb(ColorFormat::Gray8, Rgb::new(r, g, b)) {
            Color::Gray8(v) => v,
            _ => unreachable!(),
        };
        let theirs = Gray8::from(Rgb888::new(r, g, b));
        assert_eq!(ours, theirs.luma());
    }
}

#[test]
fn rgb565_quantization_round_trip() {
    assert_eq!(Color::Rgb565(16, 32, 16).to_rgb(), Rgb::new(132, 130, 132));
    assert_eq!(
        Color::from_rgb(ColorFormat::Rgb565, Rgb::new(132, 130, 132)),
        Color::Rgb565(16, 32, 16)
    );
    assert_eq!(Color::Rgb565(31, 63, 31).to_rgb(), Rgb::new(255, 255, 255));
    assert_eq!(Color::Binary(true).to_rgb(), Rgb::new(255, 255, 255));
    assert_eq!(Color::Binary(false).to_rgb(), Rgb::new(0, 0, 0));
}
