use gpu_trace_viewer::decimal::{i64_text, parse_i64, u64_text};
use gpu_trace_viewer::table::Table;
use gpu_trace_viewer::text::{
    comes_before, contains_text, is_whitespace, join, present, same_text, split, trim,
};

#[test]
fn decimal_texts_are_those_of_std() {
    for n in [0, 1, -1, 9, 10, 99, 100, 12345, -12345, i64::MAX, i64::MIN] {
        assert_eq!(i64_text(n), n.to_string());
        assert_eq!(parse_i64(&i64_text(n)), Some(n));
    }
    for n in [0, 7, 10, 65535, u64::MAX] {
        assert_eq!(u64_text(n), n.to_string());
    }
}

#[test]
fn decimal_numbers_are_read_as_by_std() {
    for text in [
        "0",
        "+5",
        "-5",
        "+",
        "-",
        "",
        " 1",
        "1 ",
        "007",
        "12a",
        "1.0",
        "--1",
        "+-1",
        "9223372036854775807",
        "9223372036854775808",
        "-9223372036854775808",
        "-9223372036854775809",
        "99999999999999999999999",
        "\u{663}",
    ] {
        assert_eq!(parse_i64(text), text.parse::<i64>().ok(), "{text}");
    }
}

#[test]
fn white_space_is_that_of_std() {
    for n in 0..0x3100_u32 {
        if let Some(c) = char::from_u32(n) {
            assert_eq!(is_whitespace(c), c.is_whitespace(), "{n:x}");
        }
    }
}

#[test]
fn trimmed_texts_are_those_of_std() {
    for text in ["", " ", "a", " a ", "\t a b \r\n", "\u{3000}x\u{2028}", "x y"] {
        assert_eq!(trim(text), text.trim());
        assert_eq!(trim(&trim(text)), trim(text));
    }
}

#[test]
fn texts_are_split_and_joined() {
    assert_eq!(split("a,b,,c", ','), vec!["a", "b", "", "c"]);
    assert_eq!(split("", ','), vec![""]);
    assert_eq!(split("x", ','), vec!["x"]);
    assert_eq!(split(",", ','), vec!["", ""]);
    let parts = vec!["a".to_string(), "".to_string(), "c".to_string()];
    assert_eq!(join(&parts, "x"), "axxc");
    assert_eq!(split(&join(&parts, ","), ','), parts);
    assert_eq!(join(&Vec::new(), ","), "");
}

#[test]
fn texts_are_compared_by_their_characters() {
    assert!(same_text("kernel", "kernel"));
    assert!(!same_text("kernel", "kernels"));
    assert!(!same_text("kernel", "Kernel"));
    for (a, b) in [("", "a"), ("a", "b"), ("a", "aa"), ("Z", "a"), ("a", "\u{e9}")] {
        assert!(comes_before(a, b));
        assert!(!comes_before(b, a));
        assert_eq!(comes_before(a, b), a < b);
    }
    assert!(!comes_before("a", "a"));
    assert!(contains_text(&vec!["a".to_string(), "b".to_string()], "b"));
    assert!(!contains_text(&vec!["a".to_string(), "b".to_string()], "c"));
    assert_eq!(present(Some("")), None);
    assert_eq!(present(Some("a")), Some("a"));
    assert_eq!(present(None), None);
}

#[test]
fn a_name_has_the_value_given_last() {
    let mut table: Table<i64> = Table::new();
    assert_eq!(table.get("a"), None);
    table.insert("a".to_string(), 1);
    table.insert("b".to_string(), 2);
    table.insert("a".to_string(), 3);
    assert_eq!(table.get("a"), Some(&3));
    assert_eq!(table.get("b"), Some(&2));
    assert_eq!(table.get("c"), None);
}
