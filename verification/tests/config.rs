use binsync::config::{Config, Fault};
use binsync::settings::Settings;

fn read(text: &str, section: &str) -> Result<Option<Config>, Fault> {
    match Settings::parse(text) {
        Ok(settings) => Config::from_section(&settings, section),
        Err(_) => panic!("malformed: {:?}", text),
    }
}

#[test]
fn new_configuration_is_empty_but_for_its_patterns() {
    let conf = Config::new();
    assert_eq!(conf.url_template, "https://github.com/{project}/releases");
    assert_eq!(
        conf.pattern,
        r"(?P<binname>[a-zA-Z][a-zA-Z0-9_]+)-(?P<version>(?:[0-9]+\.[0-9]+)(?:\.[0-9]+)*)-(?P<platform>(?:[a-zA-Z0-9_]-?)+)"
    );
    assert_eq!(conf.project, "");
    assert_eq!(conf.version, None);
    assert_eq!(conf.target_platform, None);
    assert_eq!(conf.target_filename, "");
    assert_eq!(conf.page_url, "");
    assert_eq!(conf.anchor_tag, "");
    assert_eq!(conf.anchor_text, "");
    assert_eq!(conf.version_tag, None);
    assert_eq!(conf.target_filename_to_extract_from_archive, None);
    assert_eq!(conf.desired_filename, None);
}

#[test]
fn default_configuration_is_empty() {
    let conf = Config::default();
    assert_eq!(conf.url_template, "");
    assert_eq!(conf.pattern, "");
}

#[test]
fn section_gives_every_value() {
    let text = "[rg]\npage_url = P\nanchor_tag = a\nanchor_text = T\nversion_tag = span\n\
                target_filename_to_extract_from_archive = rg.exe\nversion = 1.0\n\
                desired_filename = ripgrep\n";
    let conf = read(text, "rg").unwrap().unwrap();
    assert_eq!(conf.page_url, "P");
    assert_eq!(conf.anchor_tag, "a");
    assert_eq!(conf.anchor_text, "T");
    assert_eq!(conf.version_tag.as_deref(), Some("span"));
    assert_eq!(conf.target_filename_to_extract_from_archive.as_deref(), Some("rg.exe"));
    assert_eq!(conf.version.as_deref(), Some("1.0"));
    assert_eq!(conf.desired_filename.as_deref(), Some("ripgrep"));
    assert_eq!(conf.target_filename, "");
    assert_eq!(conf.url_template, "https://github.com/{project}/releases");
}

#[test]
fn target_is_named_like_the_section_by_default() {
    let text = "[rg]\npage_url = P\nanchor_tag = a\nanchor_text = T\n";
    let conf = read(text, "rg").unwrap().unwrap();
    assert_eq!(conf.target_filename_to_extract_from_archive.as_deref(), Some("rg"));
    assert_eq!(conf.version_tag, None);
    assert_eq!(conf.version, None);
    assert_eq!(conf.desired_filename, None);
}

#[test]
fn section_without_a_page_is_no_configuration() {
    assert!(read("[rg]\nanchor_tag = a\n", "rg").unwrap().is_none());
    assert!(read("[rg]\npage_url = P\n", "fd").unwrap().is_none());
}

#[test]
fn anchors_have_to_be_given() {
    assert_eq!(
        read("[rg]\npage_url = P\nanchor_text = T\n", "rg").unwrap_err(),
        Fault::MissingAnchorTag
    );
    assert_eq!(
        read("[rg]\npage_url = P\nanchor_tag = a\n", "rg").unwrap_err(),
        Fault::MissingAnchorText
    );
}
