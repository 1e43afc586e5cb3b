use browser_panel::text::{chars_of, equals_str, string_from_chars, trim_chars};

#[test]
fn trim_matches_std() {
    for s in ["", "  ", " a ", "\u{2028}b\u{85}", "x y", "\u{200b}z"] {
        let t: String = trim_chars(&chars_of(s)).into_iter().collect();
        assert_eq!(t, s.trim());
    }
}

#[test]
fn chars_round_trip() {
    let v = chars_of("héllo");
    assert_eq!(v, vec!['h', 'é', 'l', 'l', 'o']);
    assert_eq!(string_from_chars(&v), "héllo");
}

#[test]
fn equals_str_compares_whole_text() {
    assert!(equals_str(&chars_of("localhost"), "localhost"));
    assert!(!equals_str(&chars_of("localhost:1"), "localhost"));
    assert!(!equals_str(&chars_of("local"), "localhost"));
}
