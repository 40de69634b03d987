use binsync::settings::{Settings, SettingsError};

const TEXT: &str = "\
; programs
[ripgrep]
page_url = https://github.com/BurntSushi/ripgrep/releases   # the page
version=13.0.0

[empty]
[fd]
page_url = https://github.com/sharkdp/fd/releases
version = 8.3.0
";

fn parse(text: &str) -> Settings {
    match Settings::parse(text) {
        Ok(settings) => settings,
        Err(_) => panic!("malformed: {:?}", text),
    }
}

#[test]
fn sections_come_in_order_and_without_empty_ones() {
    assert_eq!(parse(TEXT).sections(), ["ripgrep", "fd"]);
    assert!(parse("").sections().is_empty());
}

#[test]
fn values_are_trimmed_and_comments_dropped() {
    let settings = parse(TEXT);
    assert_eq!(
        settings.get("ripgrep", "page_url").as_deref(),
        Some("https://github.com/BurntSushi/ripgrep/releases")
    );
    assert_eq!(settings.get("fd", "version").as_deref(), Some("8.3.0"));
    assert_eq!(settings.get("fd", "anchor_tag"), None);
    assert_eq!(settings.get("bat", "version"), None);
}

#[test]
fn malformed_text_is_refused() {
    for text in ["[a", "no equals sign", "= 1"] {
        assert!(matches!(Settings::parse(text), Err(SettingsError::Malformed(_))), "{:?}", text);
    }
}

#[test]
fn writing_gives_the_exact_text() {
    assert_eq!(
        parse(TEXT).to_text(),
        "[ripgrep]\n\
         page_url = https://github.com/BurntSushi/ripgrep/releases\n\
         version = 13.0.0\n\
         \n\
         [fd]\n\
         page_url = https://github.com/sharkdp/fd/releases\n\
         version = 8.3.0\n"
    );
    assert_eq!(parse("").to_text(), "");
    assert_eq!(parse("a = 1").to_text(), "[]\na = 1\n");
}

#[test]
fn a_key_that_is_set_reads_back_and_others_stay() {
    let settings = parse(TEXT).set("fd", "version", "8.4.0");
    assert_eq!(settings.get("fd", "version").as_deref(), Some("8.4.0"));
    assert_eq!(
        settings.get("fd", "page_url").as_deref(),
        Some("https://github.com/sharkdp/fd/releases")
    );
    assert_eq!(settings.get("ripgrep", "version").as_deref(), Some("13.0.0"));
}

#[test]
fn setting_keeps_the_order_of_sections() {
    assert_eq!(parse(TEXT).set("ripgrep", "version", "14").sections(), ["ripgrep", "fd"]);
    assert_eq!(parse(TEXT).set("bat", "version", "0.20").sections(), ["ripgrep", "fd", "bat"]);
}

#[test]
fn what_is_written_is_read_back() {
    let values = ["", "8.4.0", "a = b", "[x]", "two words", "\u{e9}", "a\rb", "]"];
    for value in values {
        for section in ["fd", "new", "", " spaced ", "a[b]c"] {
            let written = parse(TEXT).set(section, "version", value).to_text();
            let again = parse(&written);
            assert_eq!(again.get(section, "version").as_deref(), Some(value), "{:?}", section);
            assert_eq!(again.get("ripgrep", "version").as_deref(), Some("13.0.0"));
            assert_eq!(again.to_text(), written);
        }
    }
}

#[test]
fn a_value_with_white_space_around_it_is_read_back_without() {
    for space in [" ", "\t", "\r", "\u{85}", "\u{a0}", "\u{2003}", "\u{3000}"] {
        let value = format!("{}1.0{}", space, space);
        let written = parse(TEXT).set("fd", "version", &value).to_text();
        assert_eq!(parse(&written).get("fd", "version").as_deref(), Some("1.0"), "{:?}", space);
    }
}
