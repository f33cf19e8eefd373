use embedded_graphics_simulator::checker::{
    check_display, check_image, check_png, update_action, CheckOutcome, UpdateAction,
};
use embedded_graphics_simulator::{
    CodecError, Color, ColorFormat, OutputFormat, OutputImage, OutputSettings, Point, Rgb,
    SimulatorDisplay, Size,
};

fn sample_display() -> SimulatorDisplay {
    let mut display = SimulatorDisplay::new(Size::new(3, 2), ColorFormat::Rgb888);
    display.draw_pixels(&vec![
        (Point::new(0, 0), Color::Rgb888(Rgb::new(10, 20, 30))),
        (Point::new(1, 0), Color::Rgb888(Rgb::new(200, 100, 0))),
        (Point::new(2, 1), Color::Rgb888(Rgb::new(1, 2, 3))),
    ]);
    display
}

#[test]
fn png_round_trip_rgb() {
    let display = sample_display();
    let image = display.to_rgb_output_image(&OutputSettings::default());

    let png = image.encode_png().expect("encoding succeeds");
    let loaded = SimulatorDisplay::from_png_data(&png, ColorFormat::Rgb888)
        .expect("decoding what we encoded succeeds");

    assert_eq!(loaded.size(), image.size());
    let data = image.data();
    for y in 0..2 {
        for x in 0..3 {
            let base = ((y * 3 + x) * 3) as usize;
            let expected = Color::Rgb888(Rgb::new(data[base], data[base + 1], data[base + 2]));
            assert_eq!(loaded.get_pixel(Point::new(x, y)), expected);
        }
    }
}

#[test]
fn png_round_trip_grayscale() {
    let mut display = SimulatorDisplay::new(Size::new(2, 2), ColorFormat::Gray8);
    display.draw_pixels(&vec![
        (Point::new(0, 0), Color::Gray8(0x40)),
        (Point::new(1, 1), Color::Gray8(0xC0)),
    ]);
    let image = display.to_grayscale_output_image(&OutputSettings::default());

    let png = image.encode_png().expect("encoding succeeds");
    let loaded = SimulatorDisplay::from_png_data(&png, ColorFormat::Rgb888)
        .expect("decoding what we encoded succeeds");

    assert_eq!(loaded.size(), Size::new(2, 2));
    // A grayscale raster decodes at RGB fidelity: each intensity fills all
    // three channels.
    assert_eq!(loaded.get_pixel(Point::new(0, 0)), Color::Rgb888(Rgb::new(0x40, 0x40, 0x40)));
    assert_eq!(loaded.get_pixel(Point::new(1, 0)), Color::Rgb888(Rgb::new(0, 0, 0)));
    assert_eq!(loaded.get_pixel(Point::new(1, 1)), Color::Rgb888(Rgb::new(0xC0, 0xC0, 0xC0)));
}

#[test]
fn decoding_garbage_fails() {
    let garbage = vec![1u8, 2, 3, 4];
    assert_eq!(
        SimulatorDisplay::from_png_data(&garbage, ColorFormat::Rgb888),
        Err(CodecError)
    );
}

#[test]
fn base64_png_decodes_back() {
    let image = sample_display().to_rgb_output_image(&OutputSettings::default());
    let png = image.encode_png().expect("encoding succeeds");
    let text = image.to_base64_png().expect("base64 export succeeds");

    assert_ne!(text.as_bytes(), png.as_slice());
    assert_eq!(text.len() % 4, 0);
    let decoded = base64::Engine::decode(&base64::engine::general_purpose::STANDARD, &text)
        .expect("valid standard base64");
    assert_eq!(decoded, png);
}

#[test]
fn check_png_round_trip_matches() {
    let image = sample_display().to_rgb_output_image(&OutputSettings::default());
    let png = image.encode_png().expect("encoding succeeds");
    assert_eq!(check_png(&image, &png), Ok(CheckOutcome::Match));

    // A reference rendered from different content does not match.
    let other = SimulatorDisplay::new(Size::new(3, 2), ColorFormat::Rgb888)
        .to_rgb_output_image(&OutputSettings::default());
    let other_png = other.encode_png().expect("encoding succeeds");
    assert_eq!(check_png(&image, &other_png), Ok(CheckOutcome::ContentMismatch));

    // Garbage bytes are not a PNG at all.
    assert_eq!(check_png(&image, &vec![0u8, 1, 2]), Err(CodecError));
}

#[test]
fn update_action_priority() {
    let some = |s: &str| Some(String::from(s));
    assert_eq!(
        update_action(some("a"), some("b"), some("c"), some("d")),
        UpdateAction::Check { path: String::from("a") }
    );
    assert_eq!(
        update_action(None, some("b"), some("c"), some("d")),
        UpdateAction::CheckRaw { path: String::from("b") }
    );
    assert_eq!(
        update_action(None, None, some("c"), some("d")),
        UpdateAction::Dump { path: String::from("c") }
    );
    assert_eq!(
        update_action(None, None, None, some("d")),
        UpdateAction::DumpRaw { path: String::from("d") }
    );
    assert_eq!(update_action(None, None, None, None), UpdateAction::Present);
}

#[test]
fn check_image_outcomes() {
    let image = sample_display().to_rgb_output_image(&OutputSettings::default());

    let same = image.data().clone();
    assert_eq!(check_image(&image, &same, Size::new(3, 2)), CheckOutcome::Match);

    assert_eq!(
        check_image(&image, &same, Size::new(3, 3)),
        CheckOutcome::DimensionMismatch { display: Size::new(3, 2), reference: Size::new(3, 3) }
    );

    let mut altered = same.clone();
    altered[0] ^= 0xFF;
    assert_eq!(check_image(&image, &altered, Size::new(3, 2)), CheckOutcome::ContentMismatch);
}

#[test]
fn check_display_outcomes() {
    let display = sample_display();
    assert_eq!(check_display(&display, &display.clone()), CheckOutcome::Match);

    let smaller = SimulatorDisplay::new(Size::new(3, 1), ColorFormat::Rgb888);
    assert_eq!(
        check_display(&display, &smaller),
        CheckOutcome::DimensionMismatch { display: Size::new(3, 2), reference: Size::new(3, 1) }
    );

    let mut other = display.clone();
    other.draw_pixels(&vec![(Point::new(0, 1), Color::Rgb888(Rgb::new(9, 9, 9)))]);
    assert_eq!(check_display(&display, &other), CheckOutcome::ContentMismatch);
}

#[test]
fn incremental_redraw_refreshes_raster() {
    let mut display = SimulatorDisplay::new(Size::new(2, 1), ColorFormat::Binary);
    let settings = OutputSettings::default();

    let mut raster = OutputImage::new(Size::new(2, 1), OutputFormat::Rgb888);
    raster.draw_display(&display, Point::new(0, 0), &settings);
    assert_eq!(raster.data().as_slice(), &[0, 0, 0, 0, 0, 0]);

    // The source changes; the existing raster is refreshed in place.
    display.draw_pixels(&vec![(Point::new(1, 0), Color::Binary(true))]);
    raster.draw_display(&display, Point::new(0, 0), &settings);
    assert_eq!(raster.data().as_slice(), &[0, 0, 0, 255, 255, 255]);
}

#[test]
fn compositing_two_displays_on_one_raster() {
    let mut left = SimulatorDisplay::new(Size::new(1, 1), ColorFormat::Binary);
    left.draw_pixels(&vec![(Point::new(0, 0), Color::Binary(true))]);
    let right = SimulatorDisplay::new(Size::new(1, 1), ColorFormat::Binary);

    let settings = OutputSettings::default();
    let mut raster = OutputImage::new(Size::new(3, 1), OutputFormat::Rgb888);
    raster.fill_solid(
        &embedded_graphics_simulator::Rectangle::new(Point::new(0, 0), Size::new(3, 1)),
        Rgb::new(7, 7, 7),
    );
    raster.draw_display(&left, Point::new(0, 0), &settings);
    raster.draw_display(&right, Point::new(2, 0), &settings);

    // One display at each end; the pixel between them keeps its background.
    assert_eq!(raster.data().as_slice(), &[255, 255, 255, 7, 7, 7, 0, 0, 0]);
}
