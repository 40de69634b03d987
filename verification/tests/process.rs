use binsync::config::{Config, Fault};
use binsync::page::{Hit, Miss, PageError};
use binsync::path::Platform;
use binsync::process::{
    extension_of, filename_to_check, on_download, on_exe, on_file_check, on_page, on_stored,
    on_tar_search, on_zip_search, process, process_start, Action, Compression, Event, Extension,
    Skip, State,
};

fn conf(version: Option<&str>, target: Option<&str>, desired: Option<&str>) -> Config {
    let mut conf = Config::new();
    conf.page_url = "https://github.com/x/releases".to_string();
    conf.version = version.map(String::from);
    conf.target_filename_to_extract_from_archive = target.map(String::from);
    conf.desired_filename = desired.map(String::from);
    conf
}

fn hit(version: &str, url: &str) -> Hit {
    Hit { version: version.to_string(), download_url: url.to_string() }
}

fn is_finish(step: &(State, Action), version: &str) -> bool {
    match step {
        (State::Finished, Action::Finish { new_version }) => new_version == version,
        _ => false,
    }
}

fn is_skip(step: &(State, Action), expected: Skip) -> bool {
    match step {
        (State::Finished, Action::Skip(skip)) => *skip == expected,
        _ => false,
    }
}

fn is_abort(step: &(State, Action), expected: Fault) -> bool {
    match step {
        (State::Finished, Action::Abort(fault)) => *fault == expected,
        _ => false,
    }
}

#[test]
fn known_extensions_are_told_apart() {
    let cases = [
        ("x.tar.gz", Some(Extension::TarGz)),
        ("x.tgz", Some(Extension::TarGz)),
        ("x.tar.xz", Some(Extension::TarXz)),
        ("x.zip", Some(Extension::Zip)),
        ("x.exe", Some(Extension::Exe)),
        (".exe", Some(Extension::Exe)),
        ("x.gz", None),
        ("x.tar", None),
        ("x.zip?raw", None),
        ("x.ZIP", None),
        ("", None),
    ];
    for (url, expected) in cases {
        assert_eq!(extension_of(url), expected, "{}", url);
    }
}

#[test]
fn desired_name_is_checked_before_the_target() {
    assert_eq!(filename_to_check(&conf(None, Some("t"), Some("d"))).as_deref(), Some("d"));
    assert_eq!(filename_to_check(&conf(None, Some("t"), None)).as_deref(), Some("t"));
    assert_eq!(filename_to_check(&conf(None, None, Some("d"))).as_deref(), Some("d"));
    assert_eq!(filename_to_check(&conf(None, None, None)), None);
}

#[test]
fn page_is_fetched_first() {
    let (state, action) = process_start(&conf(None, None, None));
    assert!(matches!(state, State::Fetching));
    match action {
        Action::FetchPage { url } => assert_eq!(url, "https://github.com/x/releases"),
        _ => panic!("{:?}", action),
    }
}

#[test]
fn page_leads_to_a_file_check() {
    let found = Ok(Ok(hit("2", "u.zip")));
    match on_page(&conf(Some("1"), Some("t"), Some("d")), found) {
        (State::CheckingFile { hit }, Action::CheckFile { name }) => {
            assert_eq!(hit.version, "2");
            assert_eq!(hit.download_url, "u.zip");
            assert_eq!(name, "d");
        }
        other => panic!("{:?}", other),
    }
}

#[test]
fn page_can_end_the_run() {
    let full = conf(Some("1"), Some("t"), None);
    assert!(is_skip(&on_page(&full, Ok(Err(Miss::NoLink))), Skip::NothingFound(Miss::NoLink)));
    let fault = Err(PageError::Fault(Fault::InvalidVersionTag));
    assert!(is_abort(&on_page(&full, fault), Fault::InvalidVersionTag));
    match on_page(&full, Err(PageError::Pattern { message: "why".to_string() })) {
        (State::Finished, Action::Fail { message }) => assert_eq!(message, "why"),
        other => panic!("{:?}", other),
    }
    let found = || Ok(Ok(hit("2", "u.zip")));
    assert!(is_abort(&on_page(&conf(None, Some("t"), None), found()), Fault::MissingVersion));
    assert!(is_abort(
        &on_page(&conf(Some("1"), None, None), found()),
        Fault::MissingTargetFilename
    ));
}

#[test]
fn download_is_due_when_missing_or_older() {
    let full = conf(Some("1.5"), Some("t"), None);
    for (version, present, due) in [
        ("1.4", true, false),
        ("1.5", true, false),
        ("1.6", true, true),
        ("1.4", false, true),
        ("1.5", false, true),
    ] {
        let step = on_file_check(&full, hit(version, "u.tgz"), present);
        match &step {
            (State::Downloading { hit, extension: Extension::TarGz }, Action::Download { url }) => {
                assert!(due);
                assert_eq!(hit.version, version);
                assert_eq!(url, "u.tgz");
            }
            _ => assert!(!due && is_skip(&step, Skip::NotNewer), "{:?}", step),
        }
    }
    let unknown = on_file_check(&full, hit("2", "u.deb"), false);
    assert!(is_skip(&unknown, Skip::UnknownExtension));
    assert!(is_skip(&on_file_check(&full, hit("1", "u.deb"), true), Skip::NotNewer));
    assert!(is_abort(
        &on_file_check(&conf(None, Some("t"), None), hit("2", "u.zip"), false),
        Fault::MissingVersion
    ));
}

#[test]
fn stored_file_gets_the_desired_name() {
    match on_stored(&conf(None, Some("t"), Some("d")), "2".to_string()) {
        (State::Installing { version }, Action::RenameFile { from, to }) => {
            assert_eq!(version, "2");
            assert_eq!(from, "t");
            assert_eq!(to, "d");
        }
        other => panic!("{:?}", other),
    }
    assert!(is_finish(&on_stored(&conf(None, Some("t"), Some("t")), "2".to_string()), "2"));
    assert!(is_finish(&on_stored(&conf(None, Some("t"), None), "2".to_string()), "2"));
    assert!(is_abort(
        &on_stored(&conf(None, None, Some("d")), "2".to_string()),
        Fault::MissingTargetFilename
    ));
}

#[test]
fn tar_search_leads_to_unpacking() {
    let full = conf(None, Some("t"), Some("d"));
    let step = |found| on_tar_search(&full, "2".to_string(), Compression::Xz, vec![7], found);
    match step(Ok(Some(3))) {
        (State::Storing { version }, Action::Unpack { compression, archive, index, name }) => {
            assert_eq!(version, "2");
            assert_eq!(compression, Compression::Xz);
            assert_eq!(archive, [7]);
            assert_eq!(index, 3);
            assert_eq!(name, "t");
        }
        other => panic!("{:?}", other),
    }
    assert!(matches!(step(Ok(None)), (State::Installing { .. }, Action::RenameFile { .. })));
    assert!(is_abort(&step(Err(Fault::BrokenArchive)), Fault::BrokenArchive));
}

#[test]
fn zip_search_leads_to_writing() {
    let full = conf(None, Some("t"), None);
    match on_zip_search(&full, "2".to_string(), Ok(Some(vec![1, 2]))) {
        (State::Storing { version }, Action::WriteFile { name, contents }) => {
            assert_eq!(version, "2");
            assert_eq!(name, "t");
            assert_eq!(contents, [1, 2]);
        }
        other => panic!("{:?}", other),
    }
    assert!(is_finish(&on_zip_search(&full, "2".to_string(), Ok(None)), "2"));
    assert!(is_abort(
        &on_zip_search(&full, "2".to_string(), Err(Fault::BrokenArchive)),
        Fault::BrokenArchive
    ));
}

#[test]
fn executable_is_written_under_the_desired_name() {
    match on_exe(&conf(None, Some("t"), Some("d")), "2".to_string(), vec![9]) {
        (State::Installing { version }, Action::WriteFile { name, contents }) => {
            assert_eq!(version, "2");
            assert_eq!(name, "d");
            assert_eq!(contents, [9]);
        }
        other => panic!("{:?}", other),
    }
    assert!(is_abort(
        &on_exe(&conf(None, Some("t"), None), "2".to_string(), vec![9]),
        Fault::MissingDesiredFilename
    ));
}

#[test]
fn download_is_handled_by_its_extension() {
    let full = conf(None, Some("t"), Some("d"));
    let step = |extension| {
        on_download(&full, "2".to_string(), extension, b"junk".to_vec(), Platform::Unix)
    };
    assert!(is_abort(&step(Extension::TarGz), Fault::BrokenArchive));
    assert!(is_abort(&step(Extension::TarXz), Fault::BrokenArchive));
    assert!(is_abort(&step(Extension::Zip), Fault::BrokenArchive));
    assert!(matches!(step(Extension::Exe), (State::Installing { .. }, Action::WriteFile { .. })));
}

#[test]
fn states_lead_to_their_steps() {
    let mut full = conf(Some("1"), Some("t"), Some("t"));
    full.anchor_tag = "a".to_string();
    full.anchor_text = "exe$".to_string();
    full.version_tag = Some("h1".to_string());
    let body = r#"<h1>2</h1><a href="/x.exe">x</a>"#.to_string();
    let (state, action) = process(&full, State::Fetching, Event::Page(body));
    assert!(matches!(action, Action::CheckFile { .. }));
    let (state, action) = process(&full, state, Event::FileExists(true));
    assert!(matches!(action, Action::Download { .. }));
    let download = Event::Downloaded { bytes: vec![1], platform: Platform::Unix };
    let (state, action) = process(&full, state, download);
    assert!(matches!(action, Action::WriteFile { .. }));
    assert!(is_finish(&process(&full, state, Event::Completed), "2"));
    let storing = State::Storing { version: "2".to_string() };
    assert!(is_finish(&process(&full, storing, Event::Completed), "2"));
}
