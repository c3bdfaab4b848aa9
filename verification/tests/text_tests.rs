use nelisp_gtk::text::{
    chars_of, decimal_string, is_control, is_whitespace, parse_usize, text_lines, trim_chars,
    unquote_printed, truncate_to,
};

fn v(s: &str) -> Vec<char> {
    s.chars().collect()
}

#[test]
fn decimal_strings() {
    assert_eq!(decimal_string(0), "0");
    assert_eq!(decimal_string(7), "7");
    assert_eq!(decimal_string(1234567890), "1234567890");
    assert_eq!(decimal_string(u64::MAX), u64::MAX.to_string());
}

#[test]
fn parse_usize_like_std() {
    for s in ["0", "42", "+7", "007", "", "+", "-", "-1", "1a", " 1", "18446744073709551616"] {
        assert_eq!(parse_usize(&v(s)), s.parse::<usize>().ok(), "input {s:?}");
    }
}

#[test]
fn trim_like_std() {
    for s in ["  a b \n", "\u{3000}x\u{a0}", "", "   ", "x"] {
        let t: String = trim_chars(&v(s)).into_iter().collect();
        assert_eq!(t, s.trim());
    }
}

#[test]
fn lines_like_std() {
    for s in ["", "a", "a\n", "a\nb", "a\r\nb\r\n", "\n\n", "a\r", "x\ry\n"] {
        let got: Vec<String> = text_lines(&v(s)).into_iter().map(|l| l.into_iter().collect()).collect();
        let want: Vec<String> = s.lines().map(|l| l.to_string()).collect();
        assert_eq!(got, want, "input {s:?}");
    }
}

#[test]
fn classes_like_std() {
    for c in ['\0', '\n', ' ', 'a', '\u{7f}', '\u{85}', '\u{9f}', '\u{a0}', '\u{2003}', '\u{3000}', 'é'] {
        assert_eq!(is_control(c), c.is_control(), "{c:?}");
        assert_eq!(is_whitespace(c), c.is_whitespace(), "{c:?}");
    }
}

#[test]
fn unquote_escapes() {
    assert_eq!(unquote_printed("\"a\\tb\\\\c\\\"d\\qe\""), "a\tb\\c\"d\\qe");
    assert_eq!(unquote_printed("\"trailing\\\""), "trailing\\");
    assert_eq!(unquote_printed("\""), "\"");
    assert_eq!(unquote_printed("\"\""), "");
    assert_eq!(unquote_printed("\"ab"), "\"ab");
}

#[test]
fn unquote_of_quoted_plain_text_round_trips() {
    assert_eq!(unquote_printed("\"say \"hi\"\""), "say \"hi\"");
}

#[test]
fn truncate_edges() {
    assert_eq!(truncate_to("abc".to_string(), 3), "abc");
    assert_eq!(truncate_to("abcd".to_string(), 1), "…");
    assert_eq!(truncate_to("abcd".to_string(), 0), "…");
    assert_eq!(truncate_to("ééé".to_string(), 2), "é…");
}

#[test]
fn chars_of_keeps_order() {
    assert_eq!(chars_of("héllo"), vec!['h', 'é', 'l', 'l', 'o']);
}
