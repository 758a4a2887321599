use termvid::error::ConfigurationError;
use termvid::display::{display, flush_sequence, BEGIN_SYNC, CURSOR_HOME, END_SYNC};
use termvid::frame::Frame;
use termvid::style::PixelStyle;

fn occurs_in(pattern: &[u8], bytes: &[u8]) -> bool {
    bytes.windows(pattern.len()).any(|w| w == pattern)
}

#[test]
fn the_markers_are_the_terminal_sequences() {
    assert_eq!(&BEGIN_SYNC[..], b"\x1b[?2026h");
    assert_eq!(&END_SYNC[..], b"\x1b[?2026l");
    assert_eq!(&CURSOR_HOME[..], b"\x1b[0;0H");
}

#[test]
fn an_update_wraps_the_buffer_between_the_markers() {
    let bytes = flush_sequence(&String::from("abc"));
    assert_eq!(bytes, b"\x1b[?2026h\x1b[0;0Habc\x1b[?2026l".to_vec());
    let bytes = flush_sequence(&String::new());
    assert_eq!(bytes, b"\x1b[?2026h\x1b[0;0H\x1b[?2026l".to_vec());
}

#[test]
fn an_update_carries_glyphs_in_their_encoding() {
    let bytes = flush_sequence(&String::from("\u{2584}\u{e9}\u{1f600}"));
    let mut expected = b"\x1b[?2026h\x1b[0;0H".to_vec();
    expected.extend_from_slice(&[0xE2, 0x96, 0x84, 0xC3, 0xA9, 0xF0, 0x9F, 0x98, 0x80]);
    expected.extend_from_slice(b"\x1b[?2026l");
    assert_eq!(bytes, expected);
}

#[test]
fn a_frame_is_shown_as_one_update() {
    let frame = Frame::new(1, 2, vec![10, 20], vec![128, 128], vec![128, 128]).unwrap();
    let bytes = display(frame, &['#'], false, PixelStyle::DoublePixel, 1).unwrap();
    let mut expected = b"\x1b[?2026h\x1b[0;0H".to_vec();
    expected.extend_from_slice("\x1b[48;2;10;10;10;38;2;20;20;20m\u{2584}".as_bytes());
    expected.extend_from_slice(b"\x1b[?2026l");
    assert_eq!(bytes, expected);
}

#[test]
fn the_body_of_an_update_holds_no_marker() {
    let ramps: [Vec<char>; 3] = [
        "\x1b[?2026hl".chars().collect(),
        vec!['?', '[', '\x1b'],
        vec!['\x1b'],
    ];
    let luma: Vec<u8> = (0..=255u8).collect();
    for ramp in &ramps {
        for style in [PixelStyle::Char, PixelStyle::Pixel, PixelStyle::DoublePixel] {
            for colored in [false, true] {
                let frame = Frame::new(16, 16, luma.clone(), luma.clone(), luma.clone()).unwrap();
                let bytes = display(frame, ramp, colored, style, 16).unwrap();
                assert!(bytes.starts_with(b"\x1b[?2026h\x1b[0;0H"));
                assert!(bytes.ends_with(b"\x1b[?2026l"));
                let body = &bytes[14..bytes.len() - 8];
                assert!(!occurs_in(&BEGIN_SYNC, body));
                assert!(!occurs_in(&END_SYNC, body));
                assert!(!occurs_in(b"\x1b[?", body));
            }
        }
    }
}

#[test]
fn an_update_holds_each_marker_once() {
    let ramp: Vec<char> = "\x1b[?2026hl\u{2584}".chars().collect();
    let luma: Vec<u8> = (0..=255u8).collect();
    for style in [PixelStyle::Char, PixelStyle::Pixel, PixelStyle::DoublePixel] {
        let frame = Frame::new(16, 16, luma.clone(), luma.clone(), luma.clone()).unwrap();
        let bytes = display(frame, &ramp, true, style, 16).unwrap();
        let begins: Vec<usize> =
            (0..bytes.len() - 7).filter(|i| bytes[*i..*i + 8] == BEGIN_SYNC).collect();
        let ends: Vec<usize> =
            (0..bytes.len() - 7).filter(|i| bytes[*i..*i + 8] == END_SYNC).collect();
        assert_eq!(begins, vec![0]);
        assert_eq!(ends, vec![bytes.len() - 8]);
        assert_eq!(bytes[8..14], CURSOR_HOME);
    }
    let empty = Frame::new(3, 0, vec![], vec![], vec![]).unwrap();
    let bytes = display(empty, &ramp, false, PixelStyle::Char, 3).unwrap();
    assert_eq!(bytes, b"\x1b[?2026h\x1b[0;0H\x1b[?2026l".to_vec());
}

#[test]
fn a_faulty_configuration_shows_nothing() {
    let frame = Frame::new(1, 2, vec![10, 20], vec![128, 128], vec![128, 128]).unwrap();
    assert_eq!(
        display(frame, &[], false, PixelStyle::Char, 1),
        Err(ConfigurationError::EmptyRamp)
    );
    let frame = Frame::new(1, 2, vec![10, 20], vec![128, 128], vec![128, 128]).unwrap();
    assert_eq!(
        display(frame, &['#'], false, PixelStyle::Char, 0),
        Err(ConfigurationError::NoColumns)
    );
    let frame = Frame::new(1, 2, vec![10, 20], vec![128, 128], vec![128, 128]).unwrap();
    assert_eq!(
        display(frame, &['#'], false, PixelStyle::Char, 2),
        Err(ConfigurationError::StrideMismatch)
    );
}
