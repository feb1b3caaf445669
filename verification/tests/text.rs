use sanvi::number::parse_decimal;
use sanvi::text::{
    collapse, find, from_chars, is_whitespace, join, matches_at, nonempty, split, split_in_two,
    to_chars, Separator,
};

fn chars(s: &str) -> Vec<char> {
    s.chars().collect()
}

fn texts(pieces: &[Vec<char>]) -> Vec<String> {
    pieces.iter().map(|p| p.iter().collect()).collect()
}

#[test]
fn chars_round_trip() {
    assert_eq!(to_chars("héllo\n"), chars("héllo\n"));
    assert_eq!(from_chars(&chars("héllo\n")), "héllo\n");
    assert_eq!(from_chars(&to_chars("")), "");
}

#[test]
fn whitespace_is_the_unicode_property() {
    for code in 0u32..0x11000 {
        if let Some(c) = char::from_u32(code) {
            assert_eq!(is_whitespace(c), c.is_whitespace(), "U+{:04X}", code);
        }
    }
}

#[test]
fn split_keeps_empty_pieces() {
    assert_eq!(texts(&split(&chars("a,b"), Separator::Char(','))), vec!["a", "b"]);
    assert_eq!(texts(&split(&chars(""), Separator::Char(','))), vec![""]);
    assert_eq!(texts(&split(&chars("a,"), Separator::Char(','))), vec!["a", ""]);
    assert_eq!(texts(&split(&chars(",a,,b"), Separator::Char(','))), vec!["", "a", "", "b"]);
}

#[test]
fn split_agrees_with_std() {
    for text in ["", "x", "a=b", "=a==b=", "line one\nline two\n", "\n\n"] {
        for sep in ['=', '\n', ' '] {
            let expected: Vec<String> = text.split(sep).map(String::from).collect();
            assert_eq!(texts(&split(&chars(text), Separator::Char(sep))), expected);
        }
    }
}

#[test]
fn nonempty_drops_only_empty_pieces() {
    let pieces = split(&chars(",a,,b,"), Separator::Char(','));
    assert_eq!(texts(&nonempty(pieces)), vec!["a", "b"]);
    assert!(nonempty(split(&chars(",,"), Separator::Char(','))).is_empty());
}

#[test]
fn join_puts_separator_between_neighbours() {
    assert_eq!(from_chars(&join(&vec![chars("a"), chars("b"), chars("c")], '-')), "a-b-c");
    assert_eq!(from_chars(&join(&vec![chars("a")], '-')), "a");
    assert_eq!(from_chars(&join(&Vec::new(), '-')), "");
    assert_eq!(from_chars(&join(&vec![chars(""), chars("")], '-')), "-");
}

#[test]
fn collapse_whitespace_agrees_with_std() {
    for text in ["", "  a  b\t\tc \n", "abc", " \u{3000} x\u{a0}y ", "one two"] {
        let expected = text.split_whitespace().collect::<Vec<_>>().join(" ");
        assert_eq!(from_chars(&collapse(&chars(text), Separator::Whitespace)), expected);
    }
}

#[test]
fn collapse_quotes_joins_pieces_with_spaces() {
    assert_eq!(from_chars(&collapse(&chars("\"a b\""), Separator::Char('"'))), "a b");
    assert_eq!(from_chars(&collapse(&chars("a\"b\"\"c"), Separator::Char('"'))), "a b c");
}

#[test]
fn find_gives_first_occurrence() {
    let s = chars("abcabcabc");
    assert_eq!(find(&s, &chars("bc"), 0), Some(1));
    assert_eq!(find(&s, &chars("bc"), 2), Some(4));
    assert_eq!(find(&s, &chars("bc"), 8), None);
    assert_eq!(find(&s, &chars("x"), 0), None);
    assert_eq!(find(&s, &chars("abcabcabcd"), 0), None);
    assert_eq!(find(&s, &chars(""), 9), Some(9));
    assert_eq!(find(&s, &chars(""), 10), None);
    assert!(matches_at(&s, &chars("cab"), 2));
    assert!(!matches_at(&s, &chars("cab"), 3));
    assert!(!matches_at(&s, &chars("bc"), 8));
}

#[test]
fn split_in_two_wants_exactly_one_marker() {
    let marker = chars("[RssLinks]");
    let (a, b) = split_in_two(&chars("x=1\n[RssLinks]\nh,n,l"), &marker).unwrap();
    assert_eq!(from_chars(&a), "x=1\n");
    assert_eq!(from_chars(&b), "\nh,n,l");
    assert!(split_in_two(&chars("no marker"), &marker).is_none());
    assert!(split_in_two(&chars("[RssLinks][RssLinks]"), &marker).is_none());
    assert!(split_in_two(&chars("a[RssLinks]b[RssLinks]c"), &marker).is_none());
    let (a, b) = split_in_two(&chars("[RssLinks]"), &marker).unwrap();
    assert!(a.is_empty() && b.is_empty());
}

#[test]
fn split_in_two_agrees_with_std_split() {
    for text in ["", "[RssLinks]", "a[RssLinks]", "[RssLinks]b", "a[RssLinks]b[RssLinks]c", "[RssLinks"] {
        let parts: Vec<&str> = text.split("[RssLinks]").collect();
        match split_in_two(&chars(text), &chars("[RssLinks]")) {
            Some((a, b)) => {
                assert_eq!(parts.len(), 2);
                assert_eq!(from_chars(&a), parts[0]);
                assert_eq!(from_chars(&b), parts[1]);
            }
            None => assert_ne!(parts.len(), 2),
        }
    }
}

#[test]
fn decimal_numbers() {
    assert_eq!(parse_decimal(&chars("42"), 65535), Some(42));
    assert_eq!(parse_decimal(&chars("+42"), 65535), Some(42));
    assert_eq!(parse_decimal(&chars("0"), 65535), Some(0));
    assert_eq!(parse_decimal(&chars("00065535"), 65535), Some(65535));
    assert_eq!(parse_decimal(&chars("65536"), 65535), None);
    assert_eq!(parse_decimal(&chars("99999999999999999999999999"), u64::MAX), None);
    assert_eq!(parse_decimal(&chars("18446744073709551615"), u64::MAX), Some(u64::MAX));
    assert_eq!(parse_decimal(&chars("18446744073709551616"), u64::MAX), None);
    assert_eq!(parse_decimal(&chars(""), 65535), None);
    assert_eq!(parse_decimal(&chars("+"), 65535), None);
    assert_eq!(parse_decimal(&chars("-1"), 65535), None);
    assert_eq!(parse_decimal(&chars("1 "), 65535), None);
    assert_eq!(parse_decimal(&chars(" 1"), 65535), None);
    assert_eq!(parse_decimal(&chars("1x"), 65535), None);
    assert_eq!(parse_decimal(&chars("++1"), 65535), None);
    assert_eq!(parse_decimal(&chars("٣"), 65535), None);
}

#[test]
fn decimal_agrees_with_std() {
    for text in ["0", "7", "+7", "65535", "65536", "", "+", "-0", "1_000", "0x10", "12a", "007"] {
        let expected = text.parse::<u16>().ok().map(u64::from);
        assert_eq!(parse_decimal(&chars(text), 65535), expected, "{:?}", text);
    }
}
