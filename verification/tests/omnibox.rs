use browser_panel::omnibox::resolve_omnibox_input;

#[test]
fn keeps_full_urls() {
    assert_eq!(
        resolve_omnibox_input("https://example.com/foo"),
        "https://example.com/foo"
    );
    assert_eq!(
        resolve_omnibox_input("http://example.com"),
        "http://example.com"
    );
}

#[test]
fn prefixes_bare_hosts_with_https() {
    assert_eq!(resolve_omnibox_input("youtube.com"), "https://youtube.com");
    assert_eq!(
        resolve_omnibox_input("localhost:3000"),
        "https://localhost:3000"
    );
}

#[test]
fn searches_when_no_dot() {
    assert_eq!(
        resolve_omnibox_input("rust async runtime"),
        "https://www.google.com/search?q=rust%20async%20runtime"
    );
    assert_eq!(
        resolve_omnibox_input("youtube"),
        "https://www.google.com/search?q=youtube"
    );
}

#[test]
fn trims_surrounding_whitespace() {
    assert_eq!(resolve_omnibox_input("  https://a.b/c \n"), "https://a.b/c");
    assert_eq!(resolve_omnibox_input("\tyoutube.com  "), "https://youtube.com");
    assert_eq!(
        resolve_omnibox_input("\u{3000}rust\u{a0}"),
        "https://www.google.com/search?q=rust"
    );
}

#[test]
fn keeps_about_and_file_addresses() {
    assert_eq!(resolve_omnibox_input("about:blank"), "about:blank");
    assert_eq!(resolve_omnibox_input("file:///tmp/x.html"), "file:///tmp/x.html");
}

#[test]
fn localhost_forms() {
    assert_eq!(resolve_omnibox_input("localhost"), "https://localhost");
    assert_eq!(resolve_omnibox_input("localhost/app"), "https://localhost/app");
    assert_eq!(
        resolve_omnibox_input("localhostx"),
        "https://www.google.com/search?q=localhostx"
    );
}

#[test]
fn host_part_stops_at_first_slash() {
    assert_eq!(
        resolve_omnibox_input("youtube.com/watch?v=a b"),
        "https://youtube.com/watch?v=a b"
    );
    assert_eq!(resolve_omnibox_input("192.168.0.1:8080"), "https://192.168.0.1:8080");
    assert_eq!(
        resolve_omnibox_input("docs/read.me"),
        "https://www.google.com/search?q=docs%2Fread.me"
    );
}

#[test]
fn dotted_text_with_odd_characters_is_searched() {
    assert_eq!(
        resolve_omnibox_input("what is 2.5"),
        "https://www.google.com/search?q=what%20is%202.5"
    );
    assert_eq!(
        resolve_omnibox_input("a+b.com"),
        "https://www.google.com/search?q=a%2Bb.com"
    );
}

#[test]
fn search_query_is_utf8_percent_encoded() {
    assert_eq!(
        resolve_omnibox_input("café"),
        "https://www.google.com/search?q=caf%C3%A9"
    );
    assert_eq!(
        resolve_omnibox_input("a-b_c~d"),
        "https://www.google.com/search?q=a-b_c~d"
    );
    assert_eq!(
        resolve_omnibox_input("100%"),
        "https://www.google.com/search?q=100%25"
    );
}

#[test]
fn blank_input_searches_for_nothing() {
    assert_eq!(resolve_omnibox_input("   "), "https://www.google.com/search?q=");
    assert_eq!(resolve_omnibox_input(""), "https://www.google.com/search?q=");
}

#[test]
fn resolving_twice_changes_nothing() {
    for input in ["youtube.com", "rust async runtime", "  http://x.y ", "café", "localhost:1"] {
        let once = resolve_omnibox_input(input);
        assert_eq!(resolve_omnibox_input(&once), once);
    }
}

#[test]
fn every_result_has_a_known_scheme() {
    for input in ["", "x", "a.b", "about:config", " file://f ", "ftp://host"] {
        let url = resolve_omnibox_input(input);
        assert!(
            url.starts_with("http://")
                || url.starts_with("https://")
                || url.starts_with("about:")
                || url.starts_with("file://")
        );
    }
}
