use minghe_sip::number::{decimal_text, parse_i64, parse_u32, signed_decimal_text};
use minghe_sip::text::{
    ends_with, is_white_space, joined_lines, same, split_lines, split_once, split_words,
    starts_with, strip_prefix, text_before, text_between, trimmed, unquoted,
};

#[test]
fn white_space_is_that_of_unicode() {
    for n in 0..=0x10ffffu32 {
        if let Some(c) = char::from_u32(n) {
            assert_eq!(is_white_space(c), c.is_whitespace(), "{:x}", n);
        }
    }
}

#[test]
fn texts_split_as_in_std() {
    let samples = [
        "",
        "\n",
        "\r\n",
        "a",
        "a\n",
        "a\r\nb\r\n\r\n",
        "a\r",
        "a\r\r\nb",
        "\na\n\nb",
        " a  b\tc ",
        "\u{3000}x\u{a0}y\r\n z ",
        "\"q\"",
        "\"\"",
        "k=v=w",
        "é=ü",
    ];
    for s in samples {
        assert_eq!(split_lines(s), s.lines().map(str::to_string).collect::<Vec<_>>());
        assert_eq!(split_words(s), s.split_whitespace().map(str::to_string).collect::<Vec<_>>());
        assert_eq!(trimmed(s), s.trim());
        assert_eq!(unquoted(s), s.trim_matches('"'));
        assert_eq!(
            split_once(s, '='),
            s.split_once('=').map(|(a, b)| (a.to_string(), b.to_string()))
        );
        assert_eq!(joined_lines(&split_lines(s)), s.lines().collect::<Vec<_>>().join("\r\n"));
        assert!(same(s, s));
        for t in samples {
            assert_eq!(same(s, t), s == t);
            assert_eq!(starts_with(s, t), s.starts_with(t));
            assert_eq!(ends_with(s, t), s.ends_with(t));
            assert_eq!(strip_prefix(s, t), s.strip_prefix(t).map(str::to_string));
            if !t.is_empty() {
                assert_eq!(text_before(s, t), &s[..s.find(t).unwrap_or(s.len())]);
                assert_eq!(text_between(s, t), s.split(t).nth(1).unwrap_or_default());
            }
        }
    }
    assert_eq!(text_between("x inline:k1 inline:k2", "inline:"), "k1 ");
}

#[test]
fn numbers_read_and_write_as_in_std() {
    for s in [
        "", "+", "-", "0", "007", "+5", "-5", "-0", "4294967295", "4294967296", "99999999999999999999999",
        "9223372036854775807", "9223372036854775808", "-9223372036854775808", "-9223372036854775809",
        "1 ", "1a", "++1", "+-1", "１",
    ] {
        assert_eq!(parse_u32(s), s.parse::<u32>().ok(), "{}", s);
        assert_eq!(parse_i64(s), s.parse::<i64>().ok(), "{}", s);
    }
    for n in [0, 9, 10, 101, 3600, u64::MAX] {
        assert_eq!(decimal_text(n), n.to_string());
    }
    for n in [0, -1, 42, i64::MIN, i64::MAX] {
        assert_eq!(signed_decimal_text(n), n.to_string());
        assert_eq!(parse_i64(&signed_decimal_text(n)), Some(n));
    }
}
