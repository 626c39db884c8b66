use galton_board::board::GaltonBoard;
use galton_board::render::{bar_rows, bar_span, peak_count};
use image::{ImageOutputFormat, RgbImage};
use rand::rngs::StdRng;
use rand::SeedableRng;
use std::io::Cursor;

#[test]
fn default_board_from_simulation_to_png() {
    let mut board = GaltonBoard::new(800, 400, 10000, StdRng::seed_from_u64(20240229));
    board.run_simulation();
    let table = board.column_counts().clone();
    assert_eq!(table.len(), 401);
    assert_eq!(table.iter().map(|&count| count as u64).sum::<u64>(), 10000);

    let img = board.generate_image();
    assert_eq!(img.width(), 800);
    assert_eq!(img.height(), 400);
    let raw = img.into_raw();
    assert_eq!(raw.len(), 3 * 800 * 400);

    let picture = RgbImage::from_raw(800, 400, raw.clone()).unwrap();
    let peak = peak_count(&table);
    for bin in 0..401 {
        let (left, right) = bar_span(bin, 401, 800);
        let tall = if table[bin] == 0 { 0 } else { bar_rows(table[bin], peak, 400) };
        for x in left..right {
            for y in 0..400 {
                let expected = if y >= 400 - tall { [255, 0, 0] } else { [0, 0, 0] };
                assert_eq!(picture.get_pixel(x, y).0, expected);
            }
        }
    }

    let mut file = Cursor::new(Vec::new());
    picture.write_to(&mut file, ImageOutputFormat::Png).unwrap();
    let bytes = file.into_inner();
    assert_eq!(&bytes[..8], b"\x89PNG\r\n\x1a\n");
    let decoded = image::load_from_memory(&bytes).unwrap();
    assert_eq!(decoded.color(), image::ColorType::Rgb8);
    let decoded = decoded.into_rgb8();
    assert_eq!(decoded.dimensions(), (800, 400));
    assert_eq!(decoded.into_raw(), raw);
}
