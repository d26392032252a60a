use mini_audit::text::{
    char_is_ascii_alphanumeric, char_is_ascii_digit, char_is_whitespace, chars_of,
    decimal_string, str_eq, str_is_blank, str_lt,
};

#[test]
fn whitespace_is_the_unicode_property() {
    let mut code: u32 = 0;
    while code <= 0x10ffff {
        if let Some(c) = char::from_u32(code) {
            assert_eq!(char_is_whitespace(c), c.is_whitespace(), "U+{:04X}", code);
        }
        code += 1;
    }
}

#[test]
fn ascii_classes_are_those_of_the_standard_library() {
    let mut code: u32 = 0;
    while code <= 0x10ffff {
        if let Some(c) = char::from_u32(code) {
            assert_eq!(char_is_ascii_digit(c), c.is_ascii_digit(), "U+{:04X}", code);
            assert_eq!(
                char_is_ascii_alphanumeric(c),
                c.is_ascii_alphanumeric(),
                "U+{:04X}",
                code
            );
        }
        code += 1;
    }
}

#[test]
fn chars_of_keeps_every_character_in_order() {
    assert_eq!(chars_of("été 1"), vec!['é', 't', 'é', ' ', '1']);
    assert_eq!(chars_of(""), Vec::<char>::new());
}

#[test]
fn str_eq_compares_contents() {
    assert!(str_eq("oui", "oui"));
    assert!(str_eq("", ""));
    assert!(!str_eq("oui", "ouI"));
    assert!(!str_eq("oui", "oui "));
    assert!(!str_eq("oui", "ou"));
}

#[test]
fn blank_values_hold_only_whitespace() {
    assert!(str_is_blank(""));
    assert!(str_is_blank(" \t\r\n\u{a0}\u{3000}"));
    assert!(!str_is_blank(" a "));
    assert!(!str_is_blank("\u{200b}"));
}

#[test]
fn str_lt_is_the_order_of_strings() {
    let words = [
        "", "a", "ab", "abc", "b", "B", "Business Model", "Financement", "Go-to-Market",
        "Organisation", "Produit", "é", "z", "produit", "\u{10ffff}", "a\u{0}",
    ];
    for x in words.iter() {
        for y in words.iter() {
            assert_eq!(str_lt(x, y), x < y, "{:?} < {:?}", x, y);
        }
    }
}

#[test]
fn decimal_string_writes_numerals() {
    assert_eq!(decimal_string(0), "0");
    assert_eq!(decimal_string(7), "7");
    assert_eq!(decimal_string(10), "10");
    assert_eq!(decimal_string(404), "404");
    assert_eq!(decimal_string(1234567890), "1234567890");
    assert_eq!(decimal_string(u64::MAX), u64::MAX.to_string());
}
