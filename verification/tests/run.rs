use binsync::config::{Config, Fault};
use binsync::path::Platform;
use binsync::process::{Action, Event, Skip, State};
use binsync::run::{record_version, run_section, start};
use binsync::settings::Settings;
use std::io::Write;

const TEXT: &str = "[rg]\npage_url = https://github.com/x/releases\nanchor_tag = a\n\
                    anchor_text = zip$\nversion_tag = h1\nversion = 12.0\n\
                    desired_filename = ripgrep\n\n[fd]\nversion = 8\n";

const BODY: &str = r#"<h1>13.0</h1><a href="/x/rg.zip">rg</a>"#;

fn configure(text: &str) -> Config {
    match Settings::parse(text) {
        Ok(settings) => Config::from_section(&settings, "rg").unwrap().unwrap(),
        Err(_) => panic!("malformed"),
    }
}

fn archive() -> Vec<u8> {
    let mut writer = zip::ZipWriter::new(std::io::Cursor::new(Vec::new()));
    writer.start_file("rg-13/rg", zip::write::SimpleFileOptions::default()).unwrap();
    writer.write_all(b"program").unwrap();
    writer.finish().unwrap().into_inner()
}

/// Runs a section against a page, an archive and a settings file, and notes every action.
fn simulate(text: &mut String, present: bool, body: &str, download: &[u8]) -> (Vec<String>, usize) {
    let conf = configure(text);
    let (mut state, mut action) = start(&conf);
    let mut log = Vec::new();
    let mut events = 0;
    loop {
        let event = match &action {
            Action::CheckFile { name } => {
                log.push(format!("check {}", name));
                Event::FileExists(present && !name.is_empty())
            }
            Action::FetchPage { url } => {
                log.push(format!("fetch {}", url));
                Event::Page(body.to_string())
            }
            Action::Download { url } => {
                log.push(format!("download {}", url));
                Event::Downloaded { bytes: download.to_vec(), platform: Platform::Unix }
            }
            Action::WriteFile { name, contents } => {
                log.push(format!("write {} {}", name, contents.len()));
                Event::Completed
            }
            Action::RenameFile { from, to } => {
                log.push(format!("rename {} {}", from, to));
                Event::Completed
            }
            Action::ReadSettings => {
                log.push("read".to_string());
                Event::SettingsText(text.clone())
            }
            Action::WriteSettings { text: written } => {
                log.push("save".to_string());
                *text = written.clone();
                Event::Completed
            }
            last => {
                log.push(format!("{:?}", last));
                return (log, events);
            }
        };
        events += 1;
        let step = run_section(&conf, "rg", state, event);
        state = step.0;
        action = step.1;
    }
}

#[test]
fn new_release_is_installed_and_recorded() {
    let mut text = TEXT.to_string();
    let (log, events) = simulate(&mut text, true, BODY, &archive());
    assert_eq!(
        log,
        [
            "check ",
            "fetch https://github.com/x/releases",
            "check ripgrep",
            "download https://github.com/x/rg.zip",
            "write rg 7",
            "rename rg ripgrep",
            "read",
            "save",
            "Finish { new_version: \"13.0\" }",
        ]
    );
    assert_eq!(events, 8);
    assert_eq!(text, TEXT.replace("version = 12.0", "version = 13.0"));
}

#[test]
fn second_run_installs_nothing() {
    let mut text = TEXT.to_string();
    simulate(&mut text, false, BODY, &archive());
    let recorded = text.clone();
    let (log, _) = simulate(&mut text, true, BODY, &archive());
    assert_eq!(
        log,
        [
            "check ",
            "fetch https://github.com/x/releases",
            "check ripgrep",
            "Skip(NotNewer)",
        ]
    );
    assert_eq!(text, recorded);
}

#[test]
fn target_that_is_there_ends_the_run() {
    let conf = configure(TEXT);
    let (state, action) = start(&conf);
    assert!(matches!(action, Action::CheckFile { name } if name.is_empty()));
    let (state, action) = run_section(&conf, "rg", state, Event::FileExists(true));
    assert!(matches!(state, State::Finished));
    assert!(matches!(action, Action::Skip(Skip::TargetExists)));
}

#[test]
fn member_that_is_missing_is_still_renamed() {
    let other = "target_filename_to_extract_from_archive = no\nversion_tag";
    let mut text = TEXT.replace("version_tag", other);
    let (log, _) = simulate(&mut text, false, BODY, &archive());
    assert_eq!(log[4], "rename no ripgrep");
}

#[test]
fn broken_download_stops_the_run() {
    let mut text = TEXT.to_string();
    let (log, _) = simulate(&mut text, false, BODY, b"junk");
    assert_eq!(log.last().unwrap(), "Abort(BrokenArchive)");
    assert_eq!(text, TEXT);
}

#[test]
fn recorded_version_is_read_back() {
    let written = match record_version(TEXT, "rg", "v14 rc[1]") {
        Ok(written) => written,
        Err(_) => panic!("malformed"),
    };
    assert_eq!(written, TEXT.replace("version = 12.0", "version = v14 rc[1]"));
    assert_eq!(configure(&written).version.as_deref(), Some("v14 rc[1]"));
}

#[test]
fn recording_changes_only_the_version() {
    let before = configure(TEXT);
    let written = record_version(TEXT, "rg", "13.0").ok().unwrap();
    let after = configure(&written);
    assert_eq!(after.version.as_deref(), Some("13.0"));
    assert_eq!(after.page_url, before.page_url);
    assert_eq!(after.anchor_tag, before.anchor_tag);
    assert_eq!(after.anchor_text, before.anchor_text);
    assert_eq!(after.version_tag, before.version_tag);
    assert_eq!(after.desired_filename, before.desired_filename);
    let settings = Settings::parse(&written).ok().unwrap();
    assert_eq!(settings.get("fd", "version").as_deref(), Some("8"));
}

#[test]
fn version_is_recorded_in_a_new_section() {
    assert_eq!(
        record_version("[a]\nb = 1\n", "rg", "13.0").ok().unwrap(),
        "[a]\nb = 1\n\n[rg]\nversion = 13.0\n"
    );
}

#[test]
fn settings_that_broke_meanwhile_stop_the_run() {
    assert!(record_version("[rg", "rg", "13.0").is_err());
    let state = State::Recording { version: "13.0".to_string() };
    let step = run_section(&configure(TEXT), "rg", state, Event::SettingsText("[rg".to_string()));
    assert!(matches!(step, (State::Finished, Action::Abort(Fault::BrokenSettings))));
}

#[test]
fn nothing_is_installed_without_a_download() {
    for (present, body, skip) in [
        (true, "", "Skip(NothingFound(NoLink))"),
        (false, "<a href=\"/x/rg.zip\">", "Skip(NothingFound(NoVersion))"),
        (true, "<h1>11</h1><a href=\"/x/rg.zip\">", "Skip(NotNewer)"),
    ] {
        let mut text = TEXT.to_string();
        let (log, _) = simulate(&mut text, present, body, &archive());
        assert_eq!(log.last().unwrap(), skip);
        assert!(!log.iter().any(|line| line.starts_with("download") || line.starts_with("write")));
        assert_eq!(text, TEXT);
    }
}

#[test]
fn program_is_kept_where_it_is_looked_for() {
    let mut text = TEXT.replace("desired_filename = ripgrep\n", "");
    let (log, _) = simulate(&mut text, true, BODY, &archive());
    assert_eq!(log[2], "check rg");
    assert_eq!(log[4], "write rg 7");
    assert_eq!(log[5], "read");
    let mut text = TEXT.replace("anchor_text = zip$", "anchor_text = exe$");
    let body = r#"<h1>13.0</h1><a href="/x/rg.exe">rg</a>"#;
    let (log, _) = simulate(&mut text, true, body, b"program");
    assert_eq!(log[2], "check ripgrep");
    assert_eq!(log[4], "write ripgrep 7");
    assert_eq!(log[5], "read");
}

#[test]
fn version_that_does_not_fit_a_line_is_not_read_back() {
    let written = record_version(TEXT, "rg", " 13.0").ok().unwrap();
    assert_eq!(configure(&written).version.as_deref(), Some("13.0"));
    let written = record_version(TEXT, "rg", "13.0 # final").ok().unwrap();
    assert_eq!(configure(&written).version.as_deref(), Some("13.0"));
}

#[test]
fn pattern_that_is_none_fails_with_its_message() {
    let mut text = TEXT.replace("zip$", "(");
    let (log, _) = simulate(&mut text, true, BODY, &archive());
    let message = regex::Regex::new("(").unwrap_err().to_string();
    assert_eq!(log.last().unwrap(), &format!("Fail {{ message: {:?} }}", message));
}
