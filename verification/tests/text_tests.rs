use rfc_reader::text;
use rfc_reader::types::RfcNum;

#[test]
fn lines_end_at_line_feeds() {
    assert_eq!(text::lines("one\ntwo\r\n\nfour"), vec!["one", "two", "", "four"]);
    assert_eq!(text::lines("one\n"), vec!["one"]);
    assert_eq!(text::lines(""), Vec::<&str>::new());
    assert_eq!(text::lines("\n\n"), vec!["", ""]);
}

#[test]
fn lone_carriage_returns_stay_in_their_line() {
    assert_eq!(text::lines("a\rb\nc\r"), vec!["a\rb", "c\r"]);
    assert_eq!(text::lines("a\r\r\nb"), vec!["a\r", "b"]);
}

#[test]
fn lines_agree_with_the_standard_library() {
    for content in [
        "",
        "\n",
        "\r\n",
        "\r",
        "é\r\n☑ x\n\n\r\n𝄞",
        "no end",
        "ends\n",
        "ends\r\n",
        "a\n\r\nb\r\r\n",
    ] {
        assert_eq!(text::lines(content), content.lines().collect::<Vec<&str>>());
    }
}

#[test]
fn slices_lie_on_character_boundaries() {
    assert_eq!(text::slice_bytes("aéb", 1, 3), Some("é"));
    assert_eq!(text::slice_bytes("aéb", 1, 2), None);
    assert_eq!(text::slice_bytes("aéb", 3, 1), None);
    assert_eq!(text::slice_bytes("aéb", 0, 4), Some("aéb"));
    assert_eq!(text::slice_bytes("aéb", 4, 4), Some(""));
    assert_eq!(text::slice_bytes("aéb", 0, 5), None);
}

#[test]
fn splitting_keeps_both_halves() {
    assert_eq!(text::split_at_byte("a☑b", 4), ("a☑", "b"));
    assert_eq!(text::split_at_byte("ab", 0), ("", "ab"));
}

#[test]
fn characters_are_found_by_byte_offset() {
    assert_eq!(text::find_char("é.x.", '.'), Some(2));
    assert_eq!(text::find_char("abc", '.'), None);
    assert_eq!(text::find_char("", '.'), None);
}

#[test]
fn widths_are_those_of_the_encoding() {
    for c in ['a', '\u{7f}', '\u{80}', 'é', '\u{7ff}', '\u{800}', '☑', '\u{ffff}', '\u{10000}', '𝄞'] {
        assert_eq!(text::utf8_width(c), c.len_utf8());
    }
}

#[test]
fn numbers_are_written_in_decimal() {
    for n in [0usize, 7, 10, 99, 100, 65535, 1234567890, usize::MAX] {
        let mut out = String::from("n=");
        text::push_decimal(&mut out, n);
        assert_eq!(out, format!("n={n}"));
    }
}

#[test]
fn rfc_numbers_are_not_zero() {
    assert!(RfcNum::new(0).is_none());
    assert_eq!(RfcNum::new(2119).map(|n| n.get()), Some(2119));
    assert_eq!(RfcNum::new(u16::MAX).map(|n| n.get()), Some(65535));
}
