use rs_script::flags_text::is_white_char;
use rs_script::text::{join_strings, save_text, split_lines, strip_suffix, str_starts_with, append_decimal};

fn strings(v: &[&str]) -> Vec<String> {
    v.iter().map(|s| s.to_string()).collect()
}

#[test]
fn lines_split_at_line_feeds() {
    assert_eq!(split_lines("a\r\nb\n"), strings(&["a", "b"]));
    assert_eq!(split_lines("a\nb\r"), strings(&["a", "b\r"]));
    assert_eq!(split_lines(""), strings(&[]));
    assert_eq!(split_lines("\n"), strings(&[""]));
    assert_eq!(split_lines("\n\nx"), strings(&["", "", "x"]));
    assert_eq!(split_lines("one"), strings(&["one"]));
}

#[test]
fn lines_agree_with_str_lines() {
    for text in ["a\r\nb\n", "a\nb\r", "", "\n", "\r\n\r\n", "x\ry\nz", "  \n\t\n"] {
        let expected: Vec<String> = text.lines().map(|l| l.to_string()).collect();
        assert_eq!(split_lines(text), expected);
    }
}

#[test]
fn saved_text_reads_back() {
    let lines = strings(&["fn main() {", "\tprintln!(\"hi\");", "", "}"]);
    let text = save_text(&lines);
    assert_eq!(text, "fn main() {\n\tprintln!(\"hi\");\n\n}\n");
    assert_eq!(split_lines(&text), lines);
    assert_eq!(save_text(&Vec::new()), "");
}

#[test]
fn join_with_separator() {
    assert_eq!(join_strings(&strings(&["a", "b", "c"]), ", "), "a, b, c");
    assert_eq!(join_strings(&strings(&["a"]), ", "), "a");
    assert_eq!(join_strings(&Vec::new(), ", "), "");
}

#[test]
fn prefixes_and_suffixes() {
    assert!(str_starts_with("#!/usr/bin/env", "#!"));
    assert!(!str_starts_with("#", "#!"));
    assert_eq!(strip_suffix("demo.rs", ".rs"), Some("demo".to_string()));
    assert_eq!(strip_suffix("demo.r", ".rs"), None);
    assert_eq!(strip_suffix(".rs", ".rs"), Some(String::new()));
}

#[test]
fn decimal_numbers() {
    let mut s = String::from("n=");
    append_decimal(&mut s, 0);
    assert_eq!(s, "n=0");
    let mut s = String::new();
    append_decimal(&mut s, 1234567890);
    assert_eq!(s, "1234567890");
    let mut s = String::new();
    append_decimal(&mut s, usize::MAX);
    assert_eq!(s, usize::MAX.to_string());
}

#[test]
fn white_space_is_unicode_white_space() {
    for code in 0u32..0x3100 {
        if let Some(c) = char::from_u32(code) {
            assert_eq!(is_white_char(c), c.is_whitespace(), "code point {code:#x}");
        }
    }
}
