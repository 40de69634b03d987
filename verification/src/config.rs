//! What is known of one program that is kept in step.
use crate::settings::{get, Document, Settings};
use vstd::prelude::*;

verus! {

/// Tells release file names apart into program, version and platform.
pub const PATTERN: &'static str = r###"(?P<binname>[a-zA-Z][a-zA-Z0-9_]+)-(?P<version>(?:[0-9]+\.[0-9]+)(?:\.[0-9]+)*)-(?P<platform>(?:[a-zA-Z0-9_]-?)+)"###;

/// A reason for which a run cannot go on: what it works on is incomplete or damaged.
#[derive(Clone, Copy, Debug, PartialEq, Eq, Structural)]
pub enum Fault {
    /// The section names a page, and no `anchor_tag` to look for on it.
    MissingAnchorTag,
    /// The section names a page, and no `anchor_text` to look for on it.
    MissingAnchorText,
    /// The section has no `version_tag`.
    MissingVersionTag,
    /// The `version_tag` is not a selector.
    InvalidVersionTag,
    /// A release was found, and the section does not say which version is installed.
    MissingVersion,
    /// There is no name under which the program could be stored.
    MissingTargetFilename,
    /// A bare executable was found, and the section has no `desired_filename` for it.
    MissingDesiredFilename,
    /// The downloaded archive cannot be read.
    BrokenArchive,
    /// The settings file is not a settings document any more.
    BrokenSettings,
}

/// How to find, judge and store one program.
#[derive(Debug)]
pub struct Config {
    pub url_template: String,
    pub project: String,
    pub pattern: String,
    /// The version that is installed.
    pub version: Option<String>,
    pub target_platform: Option<String>,
    pub target_filename: String,
    /// The page that holds the download link.
    pub page_url: String,
    /// Selects the candidate links on the page; the `href` of a link leads to the download.
    pub anchor_tag: String,
    /// The regular expression that the `href` of the link has to match.
    pub anchor_text: String,
    /// Selects the element whose text is the published version.
    pub version_tag: Option<String>,
    /// The file to take out of the downloaded archive.
    pub target_filename_to_extract_from_archive: Option<String>,
    /// The name under which the file is kept in the end.
    pub desired_filename: Option<String>,
}

/// The texts in a [`Config`].
#[verifier::ext_equal]
pub ghost struct ConfigView {
    pub url_template: Seq<char>,
    pub project: Seq<char>,
    pub pattern: Seq<char>,
    pub version: Option<Seq<char>>,
    pub target_platform: Option<Seq<char>>,
    pub target_filename: Seq<char>,
    pub page_url: Seq<char>,
    pub anchor_tag: Seq<char>,
    pub anchor_text: Seq<char>,
    pub version_tag: Option<Seq<char>>,
    pub target_filename_to_extract_from_archive: Option<Seq<char>>,
    pub desired_filename: Option<Seq<char>>,
}

impl View for Config {
    type V = ConfigView;

    open spec fn view(&self) -> ConfigView {
        ConfigView {
            url_template: self.url_template@,
            project: self.project@,
            pattern: self.pattern@,
            version: self.version.deep_view(),
            target_platform: self.target_platform.deep_view(),
            target_filename: self.target_filename@,
            page_url: self.page_url@,
            anchor_tag: self.anchor_tag@,
            anchor_text: self.anchor_text@,
            version_tag: self.version_tag.deep_view(),
            target_filename_to_extract_from_archive:
                self.target_filename_to_extract_from_archive.deep_view(),
            desired_filename: self.desired_filename.deep_view(),
        }
    }
}

/// Every text empty, and nothing that can be absent given.
pub open spec fn empty_config() -> ConfigView {
    ConfigView {
        url_template: Seq::empty(),
        project: Seq::empty(),
        pattern: Seq::empty(),
        version: None,
        target_platform: None,
        target_filename: Seq::empty(),
        page_url: Seq::empty(),
        anchor_tag: Seq::empty(),
        anchor_text: Seq::empty(),
        version_tag: None,
        target_filename_to_extract_from_archive: None,
        desired_filename: None,
    }
}

/// What every configuration starts from.
pub open spec fn initial_config() -> ConfigView {
    ConfigView {
        url_template: "https://github.com/{project}/releases"@,
        pattern: PATTERN@,
        ..empty_config()
    }
}

/// What a section of the settings configures: nothing, if it names no page.
pub open spec fn configured(document: Document, section: Seq<char>) -> Result<
    Option<ConfigView>,
    Fault,
> {
    match (
        get(document, section, "page_url"@),
        get(document, section, "anchor_tag"@),
        get(document, section, "anchor_text"@),
    ) {
        (None, _, _) => Ok(None),
        (Some(_), None, _) => Err(Fault::MissingAnchorTag),
        (Some(_), Some(_), None) => Err(Fault::MissingAnchorText),
        (Some(page_url), Some(anchor_tag), Some(anchor_text)) => Ok(
            Some(
                ConfigView {
                    page_url,
                    anchor_tag,
                    anchor_text,
                    version_tag: get(document, section, "version_tag"@),
                    target_filename_to_extract_from_archive: match get(
                        document,
                        section,
                        "target_filename_to_extract_from_archive"@,
                    ) {
                        Some(name) => Some(name),
                        None => Some(section),
                    },
                    version: get(document, section, "version"@),
                    desired_filename: get(document, section, "desired_filename"@),
                    ..initial_config()
                },
            ),
        ),
    }
}

/// The texts in what reading a section gave.
pub open spec fn config_outcome(r: Result<Option<Config>, Fault>) -> Result<
    Option<ConfigView>,
    Fault,
> {
    match r {
        Ok(Some(conf)) => Ok(Some(conf@)),
        Ok(None) => Ok(None),
        Err(fault) => Err(fault),
    }
}

impl Default for Config {
    fn default() -> (r: Config)
        ensures
            r@ == empty_config(),
    {
        Config {
            url_template: String::new(),
            project: String::new(),
            pattern: String::new(),
            version: None,
            target_platform: None,
            target_filename: String::new(),
            page_url: String::new(),
            anchor_tag: String::new(),
            anchor_text: String::new(),
            version_tag: None,
            target_filename_to_extract_from_archive: None,
            desired_filename: None,
        }
    }
}

impl Config {
    /// The configuration that every section starts from.
    pub fn new() -> (r: Config)
        ensures
            r@ == initial_config(),
    {
        Config {
            url_template: "https://github.com/{project}/releases".to_string(),
            pattern: PATTERN.to_string(),
            ..Config::default()
        }
    }

    /// Reads the configuration in a section of the settings. A section without a `page_url` is
    /// none.
    pub fn from_section(settings: &Settings, section: &str) -> (r: Result<Option<Config>, Fault>)
        ensures
            config_outcome(r) == configured(settings@, section@),
    {
        let mut conf = Config::new();
        conf.page_url = match settings.get(section, "page_url") {
            Some(page_url) => page_url,
            None => return Ok(None),
        };
        conf.anchor_tag = match settings.get(section, "anchor_tag") {
            Some(anchor_tag) => anchor_tag,
            None => return Err(Fault::MissingAnchorTag),
        };
        conf.anchor_text = match settings.get(section, "anchor_text") {
            Some(anchor_text) => anchor_text,
            None => return Err(Fault::MissingAnchorText),
        };
        conf.version_tag = settings.get(section, "version_tag");
        conf.target_filename_to_extract_from_archive = match settings.get(
            section,
            "target_filename_to_extract_from_archive",
        ) {
            Some(name) => Some(name),
            None => Some(section.to_owned()),
        };
        conf.version = settings.get(section, "version");
        conf.desired_filename = settings.get(section, "desired_filename");
        Ok(Some(conf))
    }
}

/// A configuration read from a section always names a file to take out of an archive: the one the
/// section gives, else one named like the section. It checks for no file of its own.
pub proof fn law_configured_target(document: Document, section: Seq<char>)
    ensures
        configured(document, section) matches Ok(Some(conf)) ==> {
            &&& conf.target_filename_to_extract_from_archive == Some(
                match get(document, section, "target_filename_to_extract_from_archive"@) {
                    Some(name) => name,
                    None => section,
                },
            )
            &&& conf.target_filename.len() == 0
        },
{
}

/// A section configures a program exactly when it gives a page, an anchor tag and an anchor text.
/// Without a page it configures nothing; with a page, the first of the other two that is missing is
/// told.
pub proof fn law_configured_sections(document: Document, section: Seq<char>)
    ensures
        ({
            let page = get(document, section, "page_url"@);
            let tag = get(document, section, "anchor_tag"@);
            let text = get(document, section, "anchor_text"@);
            let outcome = configured(document, section);
            &&& page is None <==> outcome == Ok::<Option<ConfigView>, Fault>(None)
            &&& page is Some && tag is None <==> outcome == Err::<Option<ConfigView>, _>(
                Fault::MissingAnchorTag,
            )
            &&& page is Some && tag is Some && text is None <==> outcome == Err::<
                Option<ConfigView>,
                _,
            >(Fault::MissingAnchorText)
            &&& page is Some && tag is Some && text is Some <==> outcome matches Ok(Some(_))
        }),
{
}

/// Every value of a configuration that a section gives is what the settings hold under the name of
/// that value in that section, and the values that no section gives are those of a new one.
pub proof fn law_configured_values(document: Document, section: Seq<char>, conf: ConfigView)
    requires
        configured(document, section) == Ok::<_, Fault>(Some(conf)),
    ensures
        Some(conf.page_url) == get(document, section, "page_url"@),
        Some(conf.anchor_tag) == get(document, section, "anchor_tag"@),
        Some(conf.anchor_text) == get(document, section, "anchor_text"@),
        conf.version_tag == get(document, section, "version_tag"@),
        conf.version == get(document, section, "version"@),
        conf.desired_filename == get(document, section, "desired_filename"@),
        get(document, section, "target_filename_to_extract_from_archive"@) is Some
            ==> conf.target_filename_to_extract_from_archive == get(
            document,
            section,
            "target_filename_to_extract_from_archive"@,
        ),
        get(document, section, "target_filename_to_extract_from_archive"@) is None
            ==> conf.target_filename_to_extract_from_archive == Some(section),
        conf.url_template == "https://github.com/{project}/releases"@,
        conf.pattern == PATTERN@,
        conf.project.len() == 0,
        conf.target_filename.len() == 0,
        conf.target_platform is None,
{
}

/// What contracts say of a configuration is all that is in it.
pub proof fn law_config_view_keeps_everything(conf: Config, fault: Fault)
    ensures
        conf@.url_template == conf.url_template@,
        conf@.project == conf.project@,
        conf@.pattern == conf.pattern@,
        conf@.version == conf.version.deep_view(),
        conf@.target_platform == conf.target_platform.deep_view(),
        conf@.target_filename == conf.target_filename@,
        conf@.page_url == conf.page_url@,
        conf@.anchor_tag == conf.anchor_tag@,
        conf@.anchor_text == conf.anchor_text@,
        conf@.version_tag == conf.version_tag.deep_view(),
        conf@.target_filename_to_extract_from_archive
            == conf.target_filename_to_extract_from_archive.deep_view(),
        conf@.desired_filename == conf.desired_filename.deep_view(),
        config_outcome(Ok(Some(conf))) == Ok::<_, Fault>(Some(conf@)),
        config_outcome(Ok(None)) == Ok::<Option<ConfigView>, Fault>(None),
        config_outcome(Err(fault)) == Err::<Option<ConfigView>, _>(fault),
{
}

} // verus!
