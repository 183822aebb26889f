use finance_miner::text::{
    chars_of, normalize_document, occurs_at_position, replace_chars, string_of,
};

fn chars(s: &str) -> Vec<char> {
    s.chars().collect()
}

fn replace(text: &str, from: &str, to: &str) -> String {
    replace_chars(&chars(text), &chars(from), &chars(to)).into_iter().collect()
}

#[test]
fn chars_and_strings_convert_both_ways() {
    assert_eq!(chars_of("aб€"), vec!['a', 'б', '€']);
    assert_eq!(string_of(&vec!['a', 'б', '€']), "aб€");
    assert_eq!(chars_of(""), Vec::<char>::new());
    assert_eq!(string_of(&Vec::new()), "");
}

#[test]
fn occurs_at_position_compares_in_place() {
    let text = chars("abcabc");
    assert!(occurs_at_position(&text, 0, &chars("abc")));
    assert!(occurs_at_position(&text, 3, &chars("abc")));
    assert!(!occurs_at_position(&text, 1, &chars("abc")));
    assert!(!occurs_at_position(&text, 4, &chars("abc")));
    assert!(occurs_at_position(&text, 6, &chars("")));
    assert!(!occurs_at_position(&text, 6, &chars("a")));
}

#[test]
fn replace_chars_agrees_with_the_standard_replace() {
    let cases = [
        ("", "a", "b"),
        ("aaa", "a", "bb"),
        ("aaa", "aa", "b"),
        ("abcabc", "bc", ""),
        ("abcabc", "abcabc", "x"),
        ("abcabc", "abcabcd", "x"),
        ("ab", "b", "bb"),
        ("a\\'b\\'", "\\'", "''"),
    ];
    for (text, from, to) in cases {
        assert_eq!(replace(text, from, to), text.replace(from, to));
    }
}

#[test]
fn replace_chars_with_empty_pattern_changes_nothing() {
    assert_eq!(replace("abc", "", "x"), "abc");
}

#[test]
fn normalize_document_removes_line_breaks() {
    assert_eq!(normalize_document("a\r\nb\nc"), "abc");
    assert_eq!(normalize_document("\n\n"), "");
}

#[test]
fn normalize_document_keeps_a_lone_carriage_return() {
    assert_eq!(normalize_document("a\rb"), "a\rb");
    assert_eq!(normalize_document("a\r\r\nb"), "a\rb");
}

#[test]
fn normalize_document_doubles_escaped_quotes() {
    assert_eq!(normalize_document("['O\\'Neil']"), "['O''Neil']");
    assert_eq!(normalize_document("\\\n'"), "''");
}

#[test]
fn normalize_document_agrees_with_the_three_replacements() {
    let text = "var a = ['x\\'y',\r\n'z'];\n\\\\'\r";
    let expected = text.replace("\r\n", "").replace("\n", "").replace("\\'", "''");
    assert_eq!(normalize_document(text), expected);
}
