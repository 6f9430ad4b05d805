use sprint::exec_line::strip_field_codes;
use sprint::text::{is_whitespace, chars_of, contains_chars, fill_template_chars, spaces_to_plus, starts_with, str_le, string_of, trim_chars};

fn s(v: &[char]) -> String {
    v.iter().collect()
}

#[test]
fn trim_removes_unicode_white_space() {
    let t = trim_chars(&chars_of(" \t cats and dogs\u{3000}\n"));
    assert_eq!(s(&t), "cats and dogs");
    assert_eq!(s(&trim_chars(&chars_of("   "))), "");
}

#[test]
fn template_placeholders_are_all_replaced() {
    let r = fill_template_chars(&chars_of("a%%QUERY%%b%%QUERY%%"), &chars_of("x+y"));
    assert_eq!(s(&r), "ax+ybx+y");
    let none = fill_template_chars(&chars_of("%%QUER%%"), &chars_of("z"));
    assert_eq!(s(&none), "%%QUER%%");
}

#[test]
fn spaces_become_plus() {
    assert_eq!(s(&spaces_to_plus(&chars_of("a b  c"))), "a+b++c");
}

#[test]
fn prefix_and_substring_tests() {
    assert!(starts_with(&chars_of(">wiki cats"), &chars_of(">wiki")));
    assert!(!starts_with(&chars_of(">wi"), &chars_of(">wiki")));
    assert!(contains_chars(&chars_of("firefox"), &chars_of("fox")));
    assert!(contains_chars(&chars_of("firefox"), &chars_of("")));
    assert!(!contains_chars(&chars_of("firefox"), &chars_of("foxes")));
}

#[test]
fn code_point_order() {
    assert!(str_le("Apple", "Banana"));
    assert!(!str_le("banana", "Banana"));
    assert!(str_le("Fire", "Firefox"));
    assert!(str_le("same", "same"));
}

#[test]
fn string_round_trip() {
    assert_eq!(string_of(&chars_of("héllo ✓")), "héllo ✓");
}

#[test]
fn field_codes_are_stripped() {
    assert_eq!(strip_field_codes("firefox %u"), "firefox");
    assert_eq!(strip_field_codes("  env  A=1 %F  app\t--new-window %k "), "env A=1 app --new-window");
    assert_eq!(strip_field_codes("%f"), "");
}

#[test]
fn white_space_property() {
    for c in [' ', '\t', '\n', '\u{0b}', '\u{0c}', '\r', '\u{85}', '\u{a0}', '\u{1680}', '\u{2000}', '\u{200a}', '\u{2028}', '\u{2029}', '\u{202f}', '\u{205f}', '\u{3000}'] {
        assert!(is_whitespace(c), "{c:?}");
        assert!(c.is_whitespace());
    }
    for c in ['a', '\u{200b}', '\u{1f}', '_', '\u{feff}'] {
        assert!(!is_whitespace(c), "{c:?}");
        assert!(!c.is_whitespace());
    }
}
