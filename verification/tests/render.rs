use termvid::cell::{compose_cell, Cell, CellColor, HALF_BLOCK};
use termvid::color::{yuv_to_rgb, Rgb};
use termvid::compose::render_frame;
use termvid::error::ConfigurationError;
use termvid::escape::push_cell;
use termvid::frame::Frame;
use termvid::style::PixelStyle;

fn grey_frame(width: usize, height: usize, luma: &[u8]) -> Frame {
    let chroma = vec![128u8; luma.len()];
    Frame::new(width, height, luma.to_vec(), chroma.clone(), chroma).unwrap()
}

fn grey(y: u8) -> CellColor {
    CellColor::Rgb(Rgb { r: y, g: y, b: y })
}

/// Splits a buffer into its cells: for each the parameters of the style and the glyph.
fn cells_of(text: &str) -> Vec<(String, char)> {
    let mut cells = Vec::new();
    let mut rest = text;
    while !rest.is_empty() {
        assert!(rest.starts_with("\x1b["));
        let close = rest.find('m').unwrap();
        let params = rest[2..close].to_string();
        let glyph = rest[close + 1..].chars().next().unwrap();
        cells.push((params, glyph));
        rest = &rest[close + 1 + glyph.len_utf8()..];
    }
    cells
}

#[test]
fn a_cell_is_written_as_its_style_and_then_its_glyph() {
    let mut buf = String::from("ab");
    let cell = Cell { fg: CellColor::Rgb(Rgb { r: 1, g: 20, b: 255 }), bg: CellColor::Black, glyph: 'x' };
    push_cell(&mut buf, &cell);
    assert_eq!(buf, "ab\x1b[40;38;2;1;20;255mx");
    let cell = Cell {
        fg: CellColor::Rgb(Rgb { r: 0, g: 9, b: 10 }),
        bg: CellColor::Rgb(Rgb { r: 99, g: 100, b: 199 }),
        glyph: HALF_BLOCK,
    };
    push_cell(&mut buf, &cell);
    assert_eq!(buf, "ab\x1b[40;38;2;1;20;255mx\x1b[48;2;99;100;199;38;2;0;9;10m\u{2584}");
}

#[test]
fn a_black_foreground_is_written_with_its_short_code() {
    let mut buf = String::new();
    push_cell(&mut buf, &Cell { fg: CellColor::Black, bg: grey(7), glyph: ' ' });
    assert_eq!(buf, "\x1b[48;2;7;7;7;30m ");
}

#[test]
fn the_components_of_a_colour_are_written_in_decimal() {
    for v in 0..=255u8 {
        let (r, g, b) = (v, 255 - v, v.wrapping_mul(31));
        let mut buf = String::new();
        let cell = Cell {
            fg: CellColor::Rgb(Rgb { r, g, b }),
            bg: CellColor::Rgb(Rgb { r: g, g: b, b: r }),
            glyph: '#',
        };
        push_cell(&mut buf, &cell);
        assert_eq!(buf, format!("\x1b[48;2;{};{};{};38;2;{};{};{}m#", g, b, r, r, g, b));
    }
}

#[test]
fn the_written_style_is_the_one_the_terminal_library_gives() {
    let samples = (0..=255u8).map(|v| (v, 255 - v, v.wrapping_mul(31)));
    for (r, g, b) in samples.chain([(0u8, 0u8, 0u8), (5, 50, 250), (255, 255, 255), (10, 100, 99)]) {
        let mut expected = String::new();
        yansi::Style::new(yansi::Color::RGB(r, g, b))
            .bg(yansi::Color::RGB(b, r, g))
            .fmt_prefix(&mut expected)
            .unwrap();
        expected.push('#');
        let mut buf = String::new();
        let cell = Cell {
            fg: CellColor::Rgb(Rgb { r, g, b }),
            bg: CellColor::Rgb(Rgb { r: b, g: r, b: g }),
            glyph: '#',
        };
        push_cell(&mut buf, &cell);
        assert_eq!(buf, expected);
    }
    let mut expected = String::new();
    yansi::Style::new(yansi::Color::RGB(1, 2, 3))
        .bg(yansi::Color::Black)
        .fmt_prefix(&mut expected)
        .unwrap();
    let mut buf = String::new();
    push_cell(
        &mut buf,
        &Cell { fg: CellColor::Rgb(Rgb { r: 1, g: 2, b: 3 }), bg: CellColor::Black, glyph: ' ' },
    );
    assert_eq!(buf, expected + " ");
}

#[test]
fn each_strategy_draws_its_cell() {
    let frame = Frame::new(1, 2, vec![10, 200], vec![128, 90], vec![128, 240]).unwrap();
    let ramp = ['a', 'b', 'c', 'd'];
    // floor(200 / 255 * 3) = 2
    assert_eq!(
        compose_cell(&frame, &ramp, false, PixelStyle::Char, 1),
        Cell { fg: grey(200), bg: CellColor::Black, glyph: 'c' }
    );
    assert_eq!(
        compose_cell(&frame, &ramp, false, PixelStyle::Pixel, 0),
        Cell { fg: grey(10), bg: grey(10), glyph: ' ' }
    );
    assert_eq!(
        compose_cell(&frame, &ramp, false, PixelStyle::DoublePixel, 1),
        Cell { fg: grey(200), bg: grey(10), glyph: '\u{2584}' }
    );
    let lower = CellColor::Rgb(yuv_to_rgb(200, 90, 240));
    assert_eq!(
        compose_cell(&frame, &ramp, true, PixelStyle::DoublePixel, 1),
        Cell { fg: lower, bg: grey(10), glyph: '\u{2584}' }
    );
    assert_eq!(
        compose_cell(&frame, &ramp, true, PixelStyle::Char, 1),
        Cell { fg: lower, bg: CellColor::Black, glyph: 'c' }
    );
}

#[test]
fn glyphs_of_a_two_by_two_frame_on_a_ramp_of_two() {
    let frame = grey_frame(2, 2, &[0, 128, 255, 64]);
    let buf = render_frame(&frame, &['#', ' '], false, PixelStyle::Char, 2).unwrap();
    assert_eq!(
        buf,
        "\x1b[40;38;2;0;0;0m#\x1b[40;38;2;128;128;128m#\x1b[40;38;2;255;255;255m \x1b[40;38;2;64;64;64m#"
    );
    let glyphs: Vec<char> = cells_of(&buf).iter().map(|c| c.1).collect();
    assert_eq!(glyphs, vec!['#', '#', ' ', '#']);
}

#[test]
fn solid_blocks_hold_no_glyph_but_the_space() {
    let luma: Vec<u8> = (0..=255u8).collect();
    let u: Vec<u8> = luma.iter().map(|y| y.wrapping_mul(7)).collect();
    let v: Vec<u8> = luma.iter().map(|y| y.wrapping_mul(13).wrapping_add(5)).collect();
    let frame = Frame::new(16, 16, luma, u, v).unwrap();
    for colored in [false, true] {
        let buf = render_frame(&frame, &['#', ' '], colored, PixelStyle::Pixel, 16).unwrap();
        let cells = cells_of(&buf);
        assert_eq!(cells.len(), 256);
        for (_, glyph) in &cells {
            assert_eq!(*glyph, ' ');
        }
    }
}

#[test]
fn solid_blocks_have_one_colour_for_both_grounds() {
    let luma: Vec<u8> = (0..=255u8).collect();
    let u: Vec<u8> = luma.iter().map(|y| y.wrapping_mul(3)).collect();
    let v: Vec<u8> = luma.iter().map(|y| 255 - y).collect();
    let frame = Frame::new(8, 32, luma, u, v).unwrap();
    for colored in [false, true] {
        let buf = render_frame(&frame, &['.'], colored, PixelStyle::Pixel, 8).unwrap();
        for (params, _) in cells_of(&buf) {
            let fields: Vec<&str> = params.split(';').collect();
            assert_eq!(fields.len(), 10);
            assert_eq!(fields[0], "48");
            assert_eq!(fields[5], "38");
            assert_eq!(fields[1..5], fields[6..10]);
        }
    }
    let buf = render_frame(&grey_frame(1, 1, &[9]), &['.'], false, PixelStyle::Pixel, 1).unwrap();
    assert_eq!(buf, "\x1b[48;2;9;9;9;38;2;9;9;9m ");
}

#[test]
fn four_rows_of_one_column_make_two_half_block_cells() {
    let frame = grey_frame(1, 4, &[10, 20, 30, 40]);
    let buf = render_frame(&frame, &['#'], false, PixelStyle::DoublePixel, 1).unwrap();
    assert_eq!(
        buf,
        "\x1b[48;2;10;10;10;38;2;20;20;20m\u{2584}\x1b[48;2;30;30;30;38;2;40;40;40m\u{2584}"
    );
    assert_eq!(cells_of(&buf).len(), 2);
}

#[test]
fn half_blocks_fill_half_the_rows_rounded_down() {
    for height in 0..9usize {
        for width in 1..4usize {
            let luma: Vec<u8> = (0..width * height).map(|i| i as u8).collect();
            let frame = grey_frame(width, height, &luma);
            let buf =
                render_frame(&frame, &['#'], false, PixelStyle::DoublePixel, width as u16).unwrap();
            let cells = cells_of(&buf);
            assert_eq!(cells.len(), (height / 2) * width);
            for (k, (params, glyph)) in cells.iter().enumerate() {
                let lower = (2 * (k / width) + 1) * width + k % width;
                let upper = lower - width;
                assert_eq!(*glyph, '\u{2584}');
                assert_eq!(
                    *params,
                    format!("48;2;{0};{0};{0};38;2;{1};{1};{1}", upper as u8, lower as u8)
                );
            }
        }
    }
}

#[test]
fn half_blocks_take_the_colour_of_both_samples() {
    let frame = Frame::new(2, 2, vec![10, 20, 30, 40], vec![0, 50, 100, 150], vec![200, 128, 3, 90])
        .unwrap();
    let buf = render_frame(&frame, &['#'], true, PixelStyle::DoublePixel, 2).unwrap();
    let mut expected = String::new();
    for col in 0..2usize {
        let above = yuv_to_rgb([10, 20][col], [0, 50][col], [200, 128][col]);
        let below = yuv_to_rgb([30, 40][col], [100, 150][col], [3, 90][col]);
        expected.push_str(&format!(
            "\x1b[48;2;{};{};{};38;2;{};{};{}m\u{2584}",
            above.r, above.g, above.b, below.r, below.g, below.b
        ));
    }
    assert_eq!(buf, expected);
}

#[test]
fn glyphs_in_colour_stand_on_black() {
    let frame = Frame::new(2, 1, vec![0, 255], vec![100, 128], vec![200, 128]).unwrap();
    let buf = render_frame(&frame, &['a', 'b', 'c'], true, PixelStyle::Char, 2).unwrap();
    // (0, 100, 200): r = 82.06776, g = -30.7526, b = -56.89908
    assert_eq!(buf, "\x1b[40;38;2;82;0;0ma\x1b[40;38;2;255;255;255mc");
}

#[test]
fn a_frame_without_rows_gives_an_empty_buffer() {
    let frame = grey_frame(3, 0, &[]);
    for style in [PixelStyle::Char, PixelStyle::Pixel, PixelStyle::DoublePixel] {
        assert_eq!(render_frame(&frame, &['#'], false, style, 3).unwrap(), "");
    }
    let one_row = grey_frame(3, 1, &[1, 2, 3]);
    assert_eq!(render_frame(&one_row, &['#'], false, PixelStyle::DoublePixel, 3).unwrap(), "");
}

#[test]
fn an_empty_ramp_is_a_fault_of_the_configuration() {
    let frame = grey_frame(2, 2, &[0, 128, 255, 64]);
    for style in [PixelStyle::Char, PixelStyle::Pixel, PixelStyle::DoublePixel] {
        assert_eq!(
            render_frame(&frame, &[], false, style, 2),
            Err(ConfigurationError::EmptyRamp)
        );
    }
    assert_eq!(
        render_frame(&frame, &[], false, PixelStyle::Char, 0),
        Err(ConfigurationError::EmptyRamp)
    );
}

#[test]
fn a_screen_without_columns_is_a_fault_of_the_configuration() {
    let frame = grey_frame(2, 2, &[0, 128, 255, 64]);
    assert_eq!(
        render_frame(&frame, &['#'], false, PixelStyle::Char, 0),
        Err(ConfigurationError::NoColumns)
    );
    let empty = grey_frame(0, 5, &[]);
    assert_eq!(
        render_frame(&empty, &['#'], false, PixelStyle::Pixel, 0),
        Err(ConfigurationError::NoColumns)
    );
}

#[test]
fn columns_that_differ_from_the_stride_are_a_fault_of_the_configuration() {
    let frame = grey_frame(2, 2, &[0, 128, 255, 64]);
    for cols in [1u16, 3, 4, 80] {
        assert_eq!(
            render_frame(&frame, &['#'], false, PixelStyle::Char, cols),
            Err(ConfigurationError::StrideMismatch)
        );
    }
    let wide = grey_frame(65_538, 1, &vec![0u8; 65_538]);
    assert_eq!(
        render_frame(&wide, &['#'], false, PixelStyle::Pixel, 2),
        Err(ConfigurationError::StrideMismatch)
    );
}
