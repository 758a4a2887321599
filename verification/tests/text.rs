use termvid::text::{parse_u32, push_decimal, split_words};

#[test]
fn a_number_is_written_without_leading_zeros() {
    for (n, text) in [
        (0u32, "0"),
        (7, "7"),
        (10, "10"),
        (99, "99"),
        (100, "100"),
        (255, "255"),
        (1080, "1080"),
        (65_535, "65535"),
        (4_294_967_295, "4294967295"),
    ] {
        let mut buf = String::from("n=");
        push_decimal(&mut buf, n);
        assert_eq!(buf, format!("n={}", text));
    }
}

#[test]
fn writing_agrees_with_the_standard_formatting() {
    for n in (0..200_000u32).chain([u32::MAX - 1, u32::MAX, 1_000_000_000, 999_999_999]) {
        let mut buf = String::new();
        push_decimal(&mut buf, n);
        assert_eq!(buf, n.to_string());
    }
}

#[test]
fn a_number_is_read_from_its_digits() {
    assert_eq!(parse_u32("0"), Some(0));
    assert_eq!(parse_u32("42"), Some(42));
    assert_eq!(parse_u32("0042"), Some(42));
    assert_eq!(parse_u32("+42"), Some(42));
    assert_eq!(parse_u32("4294967295"), Some(u32::MAX));
    assert_eq!(parse_u32("00000000000000000000004294967295"), Some(u32::MAX));
}

#[test]
fn what_is_no_number_is_not_read() {
    for text in ["", "+", "-1", "++1", "1+", " 1", "1 ", "12a", "a12", "1.5", "0x10", "\u{663}"] {
        assert_eq!(parse_u32(text), None);
        assert!(text.parse::<u32>().is_err());
    }
}

#[test]
fn a_number_that_does_not_fit_is_not_read() {
    for text in ["4294967296", "4294967300", "99999999999", "+4294967296", "18446744073709551616"] {
        assert_eq!(parse_u32(text), None);
    }
    assert_eq!(parse_u32("99999999999x"), None);
}

#[test]
fn reading_agrees_with_the_standard_parsing() {
    let texts = [
        "7", "+7", "007", "4294967295", "4294967296", "", "+", "-", "-0", "+0", "1_000", "٣",
        "12 ", "123456789", "1234567890", "12345678901",
    ];
    for text in texts {
        assert_eq!(parse_u32(text), text.parse::<u32>().ok());
    }
    for n in (0..100_000u32).step_by(37) {
        assert_eq!(parse_u32(&n.to_string()), Some(n));
    }
}

#[test]
fn a_line_is_split_at_its_spaces() {
    assert_eq!(split_words("-re -i in.mp4"), vec!["-re", "-i", "in.mp4"]);
    assert_eq!(split_words("a"), vec!["a"]);
    assert_eq!(split_words("ab cd"), vec!["ab", "cd"]);
}

#[test]
fn runs_of_spaces_make_no_empty_words() {
    assert_eq!(split_words("  a   b  "), vec!["a", "b"]);
    assert_eq!(split_words(" x"), vec!["x"]);
    assert_eq!(split_words("x "), vec!["x"]);
    assert!(split_words("").is_empty());
    assert!(split_words("    ").is_empty());
}

#[test]
fn only_the_space_splits() {
    assert_eq!(split_words("a\tb\nc d"), vec!["a\tb\nc", "d"]);
    assert_eq!(split_words("\u{e9}t\u{e9} \u{2584}"), vec!["\u{e9}t\u{e9}", "\u{2584}"]);
}

#[test]
fn splitting_agrees_with_the_standard_splitting() {
    for line in ["", " ", "a", " a", "a ", "a b", "a  b", "  a b  c   ", "\u{2584} \u{2584}\u{2584}"] {
        let expected: Vec<&str> = line.split(" ").filter(|x| !x.is_empty()).collect();
        assert_eq!(split_words(line), expected);
    }
}
