use binsync::config::{Config, Fault};
use binsync::page::{
    choose_hit, collect_links, judge_page, parse_html_page, Element, Hit, Miss, PageError,
};

const BODY: &str = r#"<html><body>
<h1 class="title">Release <b>13</b>.<i>0</i></h1><h1 class="title">Old</h1>
<a>no link</a>
<a class="dl" href="/x/rg-13.0-windows.zip">windows</a>
<a class="dl" href="/x/rg-13.0-linux.tar.gz">linux</a>
<a class="dl" href="/x/rg-12.0-linux.tar.gz">old linux</a>
</body></html>"#;

fn conf(anchor_tag: &str, anchor_text: &str, version_tag: Option<&str>) -> Config {
    let mut conf = Config::new();
    conf.anchor_tag = anchor_tag.to_string();
    conf.anchor_text = anchor_text.to_string();
    conf.version_tag = version_tag.map(String::from);
    conf
}

fn element(attribute: Option<&str>, text: &[&str]) -> Element {
    Element {
        attribute: attribute.map(String::from),
        text: text.iter().map(|t| t.to_string()).collect(),
    }
}

fn parts(hit: Result<Hit, Miss>) -> Result<(String, String), Miss> {
    hit.map(|hit| (hit.version, hit.download_url))
}

fn pair(version: &str, url: &str) -> Result<(String, String), Miss> {
    Ok((version.to_string(), url.to_string()))
}

#[test]
fn first_matching_link_is_found_with_the_first_version() {
    let found = parse_html_page(&conf("a", r"linux\.tar\.gz$", Some("h1.title")), BODY).unwrap();
    assert_eq!(
        parts(found),
        pair("Release 13.0", "https://github.com/x/rg-13.0-linux.tar.gz")
    );
}

#[test]
fn selector_narrows_the_links() {
    let found = parse_html_page(&conf("a.dl:last-of-type", "", Some("h1")), BODY).unwrap();
    assert_eq!(
        parts(found),
        pair("Release 13.0", "https://github.com/x/rg-12.0-linux.tar.gz")
    );
}

#[test]
fn nothing_is_found_without_a_matching_link() {
    assert_eq!(
        parts(parse_html_page(&conf("a", "darwin", Some("h1")), BODY).unwrap()),
        Err(Miss::NoLink)
    );
    assert_eq!(
        parts(parse_html_page(&conf("p", "linux", Some("h1")), BODY).unwrap()),
        Err(Miss::NoLink)
    );
    assert_eq!(
        parts(parse_html_page(&conf("a", "linux", Some("h1")), "").unwrap()),
        Err(Miss::NoLink)
    );
}

#[test]
fn nothing_is_found_without_a_version() {
    assert_eq!(
        parts(parse_html_page(&conf("a", "linux", Some("h2")), BODY).unwrap()),
        Err(Miss::NoVersion)
    );
}

#[test]
fn anchor_tag_that_is_no_selector_finds_nothing() {
    assert_eq!(
        parts(parse_html_page(&conf("a[", "linux", Some("h1")), BODY).unwrap()),
        Err(Miss::InvalidAnchorTag)
    );
    assert_eq!(
        parts(parse_html_page(&conf("a[", "(", None), BODY).unwrap()),
        Err(Miss::InvalidAnchorTag)
    );
}

#[test]
fn version_tag_has_to_be_given() {
    let error = parse_html_page(&conf("a", "(", None), BODY).unwrap_err();
    assert!(matches!(error, PageError::Fault(Fault::MissingVersionTag)));
}

#[test]
fn version_tag_has_to_be_a_selector() {
    let error = parse_html_page(&conf("a", "(", Some("h1[")), BODY).unwrap_err();
    assert!(matches!(error, PageError::Fault(Fault::InvalidVersionTag)));
}

#[test]
fn anchor_text_has_to_be_a_pattern() {
    for body in [BODY, ""] {
        let error = parse_html_page(&conf("a", "(", Some("h1")), body).unwrap_err();
        let expected = regex::Regex::new("(").unwrap_err().to_string();
        match error {
            PageError::Pattern { message } => assert_eq!(message, expected),
            other => panic!("{:?}", other),
        }
    }
}

#[test]
fn links_are_the_attributes_in_order() {
    let elements = vec![
        element(Some("/1"), &["x"]),
        element(None, &["y"]),
        element(Some("/2"), &[]),
    ];
    assert_eq!(collect_links(&elements), ["/1", "/2"]);
    assert!(collect_links(&vec![]).is_empty());
}

#[test]
fn first_flag_decides() {
    let links = vec!["/1".to_string(), "/2".to_string(), "/3".to_string()];
    let versions = vec![element(None, &["v", "2"]), element(None, &["v1"])];
    assert_eq!(
        parts(choose_hit(&links, &vec![false, true, true], &versions)),
        pair("v2", "https://github.com/2")
    );
    let none = choose_hit(&links, &vec![false, false, false], &versions);
    assert_eq!(parts(none), Err(Miss::NoLink));
    assert_eq!(parts(choose_hit(&links, &vec![true, true, true], &vec![])), Err(Miss::NoVersion));
}

#[test]
fn page_is_judged_by_its_elements() {
    let anchors = Some(vec![element(None, &[]), element(Some("/2"), &[])]);
    let versions = Some(vec![element(None, &["3"])]);
    let hit = judge_page(&anchors, true, &versions, Ok(vec![true])).unwrap();
    assert_eq!(parts(hit), pair("3", "https://github.com/2"));
    let no_selector = judge_page(&None, false, &None, Ok(vec![])).unwrap();
    assert_eq!(parts(no_selector), Err(Miss::InvalidAnchorTag));
    assert!(matches!(
        judge_page(&anchors, false, &None, Ok(vec![true])),
        Err(PageError::Fault(Fault::MissingVersionTag))
    ));
    assert!(matches!(
        judge_page(&anchors, true, &None, Ok(vec![true])),
        Err(PageError::Fault(Fault::InvalidVersionTag))
    ));
    match judge_page(&anchors, true, &versions, Err("no pattern".to_string())) {
        Err(PageError::Pattern { message }) => assert_eq!(message, "no pattern"),
        other => panic!("{:?}", other),
    }
}

#[test]
fn sound_configuration_searches_every_page() {
    for body in ["", "<", "plain text", "<a href>", BODY, "\u{0}<h1>"] {
        assert!(parse_html_page(&conf("a", ".", Some("h1")), body).is_ok());
        assert!(parse_html_page(&conf("a[", ".", Some("h1")), body).is_ok());
    }
}
