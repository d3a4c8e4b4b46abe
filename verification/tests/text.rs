use airlock_v2::state::join_path;
use airlock_v2::text::{
    blank, count_filled_lines, filled_trimmed_lines, last_segment, lines, parse_count, place,
    replace_end, show, show_hex, strip_prefix, trim, trim_end, words, Place,
};

#[test]
fn white_space() {
    assert_eq!(trim(" \ta b\r\n"), "a b");
    assert_eq!(trim("\u{a0}\u{2003}x\u{3000}"), "x");
    assert_eq!(trim_end(" a \n"), " a");
    assert!(blank(" \n\u{85}"));
    assert!(!blank(" . "));
    for c in ['\t', '\u{b}', '\u{c}', '\r', ' ', '\u{85}', '\u{1680}', '\u{200a}', '\u{2028}', '\u{202f}', '\u{205f}'] {
        let text = format!("{c}x{c}");
        assert_eq!(trim(&text), text.trim());
    }
    assert_eq!(trim("\u{200b}x"), "\u{200b}x".trim());
}

#[test]
fn lines_as_in_std() {
    for text in ["", "\n", "a", "a\n", "a\r\nb\rc\n\nd", "\r\n", "a\r"] {
        let expected: Vec<String> = text.lines().map(|l| l.to_string()).collect();
        assert_eq!(lines(text), expected);
    }
    assert_eq!(count_filled_lines("a\n \nb\n"), 2);
    assert_eq!(filled_trimmed_lines(" a \n\n\tb"), vec!["a", "b"]);
}

#[test]
fn words_as_in_std() {
    for text in ["", "  ", "a", " a  b\tc\n", "a\u{a0}b"] {
        let expected: Vec<String> = text.split_whitespace().map(|w| w.to_string()).collect();
        assert_eq!(words(text), expected);
    }
}

#[test]
fn parts_of_a_text() {
    assert_eq!(replace_end("a map", "map", "list"), "a list");
    assert_eq!(replace_end("a", "", "b"), "ab");
    assert_eq!(strip_prefix("~/x", "~/"), Some("x".to_string()));
    assert_eq!(strip_prefix("x", "~/"), None);
    assert_eq!(last_segment("origin/main"), "main");
    assert_eq!(last_segment("main"), "main");
    assert_eq!(last_segment("a/"), "");
}

#[test]
fn numbers() {
    for n in [0, 9, 10, 255, 256, u64::MAX] {
        assert_eq!(show(n), n.to_string());
        assert_eq!(show_hex(n), format!("{n:x}"));
    }
    for text in ["0", "+7", "007", "-1", "", "+", "1 ", "1a", "18446744073709551615", "18446744073709551616"] {
        assert_eq!(parse_count(text), text.parse::<usize>().ok());
    }
}

#[test]
fn the_order_of_texts() {
    let list = ["", "/", "/a", "/a/b", "/b", "/\u{e9}", "/\u{10000}"];
    for (i, a) in list.iter().enumerate() {
        for (j, b) in list.iter().enumerate() {
            let r = place(a, b);
            assert_eq!(matches!(r, Place::Before), i < j);
            assert_eq!(matches!(r, Place::After), i > j);
        }
    }
}

#[test]
fn joined_paths() {
    assert_eq!(join_path("/a", "b"), "/a/b");
    assert_eq!(join_path("/a/", "b"), "/a/b");
    assert_eq!(join_path("", "b"), "b");
    assert_eq!(join_path("/a", "/b"), "/b");
    assert_eq!(join_path("/a", ""), "/a/");
}
