use sharex_upload::text::{
    chars_of, string_of, text_eq, to_ascii_lowercase, to_ascii_lowercase_char,
};

#[test]
fn chars_of_lists_the_characters() {
    assert_eq!(chars_of("a.b"), vec!['a', '.', 'b']);
    assert_eq!(chars_of(""), Vec::<char>::new());
    assert_eq!(chars_of("é☃x"), vec!['é', '☃', 'x']);
}

#[test]
fn string_of_copies_a_range() {
    let chars = vec!['h', 'e', 'l', 'l', 'o'];
    assert_eq!(string_of(&chars, 0, 5), "hello");
    assert_eq!(string_of(&chars, 1, 3), "el");
    assert_eq!(string_of(&chars, 2, 2), "");
    assert_eq!(string_of(&chars, 5, 5), "");
    assert_eq!(string_of(&Vec::new(), 0, 0), "");
}

#[test]
fn text_eq_compares_characters() {
    assert!(text_eq("file", "file"));
    assert!(text_eq("", ""));
    assert!(!text_eq("file", "File"));
    assert!(!text_eq("file", "files"));
    assert!(!text_eq("files", "file"));
    assert!(!text_eq("", "x"));
    assert!(text_eq("é☃", "é☃"));
    assert!(!text_eq("é", "e"));
}

#[test]
fn to_ascii_lowercase_char_maps_capitals_only() {
    assert_eq!(to_ascii_lowercase_char('A'), 'a');
    assert_eq!(to_ascii_lowercase_char('Z'), 'z');
    assert_eq!(to_ascii_lowercase_char('M'), 'm');
    assert_eq!(to_ascii_lowercase_char('a'), 'a');
    assert_eq!(to_ascii_lowercase_char('z'), 'z');
    assert_eq!(to_ascii_lowercase_char('@'), '@');
    assert_eq!(to_ascii_lowercase_char('['), '[');
    assert_eq!(to_ascii_lowercase_char('0'), '0');
    assert_eq!(to_ascii_lowercase_char('É'), 'É');
    for code in 0u32..0x250 {
        if let Some(c) = char::from_u32(code) {
            assert_eq!(to_ascii_lowercase_char(c), c.to_ascii_lowercase());
        }
    }
}

#[test]
fn to_ascii_lowercase_agrees_with_std() {
    for text in ["", "ABC", "abc", "MiXeD.Case-09", "ÀÉ Zz", "xK9dQmZ1pL.PNG"] {
        assert_eq!(to_ascii_lowercase(text), text.to_ascii_lowercase());
    }
    assert_eq!(to_ascii_lowercase("xK9dQmZ1pL.PNG"), "xk9dqmz1pl.png");
}
