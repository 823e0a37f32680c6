use eden_explorer::text::{chars_of, decimal_text, lex_compare, path_extension, trim};

#[test]
fn chars_are_listed_in_order() {
    assert_eq!(chars_of("aé€😀"), vec!['a', 'é', '€', '😀']);
    assert!(chars_of("").is_empty());
}

#[test]
fn lexicographic_comparison() {
    let v = |s: &str| s.chars().collect::<Vec<char>>();
    assert_eq!(lex_compare(&v("abc"), &v("abd")), -1);
    assert_eq!(lex_compare(&v("abd"), &v("abc")), 1);
    assert_eq!(lex_compare(&v("abc"), &v("abc")), 0);
    assert_eq!(lex_compare(&v("ab"), &v("abc")), -1);
    assert_eq!(lex_compare(&v("abc"), &v("ab")), 1);
    assert_eq!(lex_compare(&v(""), &v("")), 0);
    assert_eq!(lex_compare(&v("B"), &v("a")), -1);
}

#[test]
fn extensions_are_taken_from_the_file_name() {
    assert_eq!(path_extension("/home/u/report.tar.gz"), "gz");
    assert_eq!(path_extension("/home/u/README"), "");
    assert_eq!(path_extension("/home/u/.bashrc"), "");
    assert_eq!(path_extension("notes.TXT"), "TXT");
}

#[test]
fn numbers_are_written_in_decimal() {
    assert_eq!(decimal_text(0), "0");
    assert_eq!(decimal_text(7), "7");
    assert_eq!(decimal_text(10), "10");
    assert_eq!(decimal_text(1234567890), "1234567890");
    assert_eq!(decimal_text(u64::MAX), u64::MAX.to_string());
}

#[test]
fn trimming_removes_white_space_at_both_ends_only() {
    assert_eq!(trim("  a b \n"), "a b");
    assert_eq!(trim("\u{3000}\u{85}x\u{2029}"), "x");
    assert_eq!(trim(" \t "), "");
    assert_eq!(trim("\u{200b}x"), "\u{200b}x");
    for s in ["", "abc", " é ", "\u{a0}\u{1680}z\u{202f}"] {
        assert_eq!(trim(s), s.trim());
    }
}
