//! Deciding, step by step, whether and how a program is brought up to date.
//!
//! The decisions are made here; the caller does what an [`Action`] asks for, and answers with an
//! [`Event`].
use crate::archive::{
    contents_outcome, extract_target_from_tarfile, extract_target_from_tarxz,
    extract_target_from_zipfile, law_search_stops_at_the_first_entry,
    law_zip_gives_the_whole_member, member, search_outcome, tar_gz_paths, tar_xz_paths,
    zip_contents, zip_extract, zip_file_names, zip_opens,
};
use crate::config::{Config, ConfigView, Fault};
use crate::page::{
    found_on_page, page_outcome, parse_html_page, Hit, HitView, Miss, PageError, PageErrorView,
};
use crate::path::{file_name, Platform};
use crate::text::{ends_with, is_text_le, text_le};
use vstd::prelude::*;
use vstd::utf8::{encode_utf8, valid_utf8};

verus! {

/// The kinds of download that can be handled.
#[derive(Clone, Copy, Debug, PartialEq, Eq, Structural)]
pub enum Extension {
    TarGz,
    TarXz,
    Zip,
    Exe,
}

/// How the members of a tar archive are compressed.
#[derive(Clone, Copy, Debug, PartialEq, Eq, Structural)]
pub enum Compression {
    Gzip,
    Xz,
}

/// Why a run ends with nothing installed.
#[derive(Clone, Copy, Debug, PartialEq, Eq, Structural)]
pub enum Skip {
    /// The target is there.
    TargetExists,
    /// The page gave no release.
    NothingFound(Miss),
    /// The program is there, and the release is not newer.
    NotNewer,
    /// The release is not of a known kind.
    UnknownExtension,
}

/// How far a run has come.
#[derive(Debug)]
pub enum State {
    /// It waits to hear whether the target is there.
    CheckingTarget,
    /// It waits for the release page.
    Fetching,
    /// It found a release, and waits to hear whether the program is there.
    CheckingFile { hit: Hit },
    /// It waits for the download of a release.
    Downloading { hit: Hit, extension: Extension },
    /// It waits for a file that comes out of an archive to be in place.
    Storing { version: String },
    /// It waits for the program to be in place under its own name.
    Installing { version: String },
    /// It installed a version, and waits for the settings file to record that in.
    Recording { version: String },
    /// It waits for the settings file to be written.
    Saving { version: String },
    /// It is over.
    Finished,
}

/// What the caller reports after it did what an [`Action`] asked for.
#[derive(Debug)]
pub enum Event {
    /// Whether the file that was asked about is there.
    FileExists(bool),
    /// The release page.
    Page(String),
    /// The bytes of the download, and the platform by whose rules file names are told in it.
    Downloaded { bytes: Vec<u8>, platform: Platform },
    /// The file was unpacked, written or renamed.
    Completed,
    /// The text of the settings file.
    SettingsText(String),
}

/// What the caller is asked to do next.
#[derive(Debug)]
pub enum Action {
    /// Look whether a file is there.
    CheckFile { name: String },
    /// Fetch the release page.
    FetchPage { url: String },
    /// Fetch the download.
    Download { url: String },
    /// Unpack the entry at an index of a tar archive into a file.
    Unpack { compression: Compression, archive: Vec<u8>, index: usize, name: String },
    /// Write a file.
    WriteFile { name: String, contents: Vec<u8> },
    /// Give a file another name.
    RenameFile { from: String, to: String },
    /// Read the settings file.
    ReadSettings,
    /// Write the settings file.
    WriteSettings { text: String },
    /// Nothing more: a version was installed.
    Finish { new_version: String },
    /// Nothing more: there was nothing to install.
    Skip(Skip),
    /// Nothing more: the `anchor_text` is not a regular expression, as the message says.
    Fail { message: String },
    /// Nothing more: the run cannot go on.
    Abort(Fault),
}

/// The texts in a [`State`].
#[verifier::ext_equal]
pub ghost enum StateView {
    CheckingTarget,
    Fetching,
    CheckingFile { hit: HitView },
    Downloading { hit: HitView, extension: Extension },
    Storing { version: Seq<char> },
    Installing { version: Seq<char> },
    Recording { version: Seq<char> },
    Saving { version: Seq<char> },
    Finished,
}

/// The texts and bytes in an [`Event`].
#[verifier::ext_equal]
pub ghost enum EventView {
    FileExists(bool),
    Page(Seq<char>),
    Downloaded { bytes: Seq<u8>, platform: Platform },
    Completed,
    SettingsText(Seq<char>),
}

/// The texts and bytes in an [`Action`].
#[verifier::ext_equal]
pub ghost enum ActionView {
    CheckFile { name: Seq<char> },
    FetchPage { url: Seq<char> },
    Download { url: Seq<char> },
    Unpack { compression: Compression, archive: Seq<u8>, index: nat, name: Seq<char> },
    WriteFile { name: Seq<char>, contents: Seq<u8> },
    RenameFile { from: Seq<char>, to: Seq<char> },
    ReadSettings,
    WriteSettings { text: Seq<char> },
    Finish { new_version: Seq<char> },
    Skip(Skip),
    Fail { message: Seq<char> },
    Abort(Fault),
}

impl View for State {
    type V = StateView;

    open spec fn view(&self) -> StateView {
        match self {
            State::CheckingTarget => StateView::CheckingTarget,
            State::Fetching => StateView::Fetching,
            State::CheckingFile { hit } => StateView::CheckingFile { hit: hit@ },
            State::Downloading { hit, extension } => StateView::Downloading {
                hit: hit@,
                extension: *extension,
            },
            State::Storing { version } => StateView::Storing { version: version@ },
            State::Installing { version } => StateView::Installing { version: version@ },
            State::Recording { version } => StateView::Recording { version: version@ },
            State::Saving { version } => StateView::Saving { version: version@ },
            State::Finished => StateView::Finished,
        }
    }
}

impl View for Event {
    type V = EventView;

    open spec fn view(&self) -> EventView {
        match self {
            Event::FileExists(present) => EventView::FileExists(*present),
            Event::Page(body) => EventView::Page(body@),
            Event::Downloaded { bytes, platform } => EventView::Downloaded {
                bytes: bytes@,
                platform: *platform,
            },
            Event::Completed => EventView::Completed,
            Event::SettingsText(text) => EventView::SettingsText(text@),
        }
    }
}

impl View for Action {
    type V = ActionView;

    open spec fn view(&self) -> ActionView {
        match self {
            Action::CheckFile { name } => ActionView::CheckFile { name: name@ },
            Action::FetchPage { url } => ActionView::FetchPage { url: url@ },
            Action::Download { url } => ActionView::Download { url: url@ },
            Action::Unpack { compression, archive, index, name } => ActionView::Unpack {
                compression: *compression,
                archive: archive@,
                index: *index as nat,
                name: name@,
            },
            Action::WriteFile { name, contents } => ActionView::WriteFile {
                name: name@,
                contents: contents@,
            },
            Action::RenameFile { from, to } => ActionView::RenameFile { from: from@, to: to@ },
            Action::ReadSettings => ActionView::ReadSettings,
            Action::WriteSettings { text } => ActionView::WriteSettings { text: text@ },
            Action::Finish { new_version } => ActionView::Finish { new_version: new_version@ },
            Action::Skip(skip) => ActionView::Skip(*skip),
            Action::Fail { message } => ActionView::Fail { message: message@ },
            Action::Abort(fault) => ActionView::Abort(*fault),
        }
    }
}

/// The state that comes next, with the action that leads on from it.
pub type Transition = (StateView, ActionView);

/// The end of a run.
pub open spec fn ended(action: ActionView) -> Transition {
    (StateView::Finished, action)
}

/// The kind of download that a URL leads to.
pub open spec fn extension(url: Seq<char>) -> Option<Extension> {
    if ".tar.gz"@.is_suffix_of(url) || ".tgz"@.is_suffix_of(url) {
        Some(Extension::TarGz)
    } else if ".tar.xz"@.is_suffix_of(url) {
        Some(Extension::TarXz)
    } else if ".zip"@.is_suffix_of(url) {
        Some(Extension::Zip)
    } else if ".exe"@.is_suffix_of(url) {
        Some(Extension::Exe)
    } else {
        None
    }
}

/// The name under which the program is kept in the end.
pub open spec fn kept_filename(conf: ConfigView) -> Option<Seq<char>> {
    match conf.desired_filename {
        Some(name) => Some(name),
        None => conf.target_filename_to_extract_from_archive,
    }
}

/// What follows once the page was searched.
pub open spec fn after_page(
    conf: ConfigView,
    found: Result<Result<HitView, Miss>, PageErrorView>,
) -> Transition {
    match (found, conf.version, kept_filename(conf)) {
        (Err(PageErrorView::Pattern { message }), _, _) => ended(ActionView::Fail { message }),
        (Err(PageErrorView::Fault(fault)), _, _) => ended(ActionView::Abort(fault)),
        (Ok(Err(miss)), _, _) => ended(ActionView::Skip(Skip::NothingFound(miss))),
        (Ok(Ok(_)), None, _) => ended(ActionView::Abort(Fault::MissingVersion)),
        (Ok(Ok(_)), Some(_), None) => ended(ActionView::Abort(Fault::MissingTargetFilename)),
        (Ok(Ok(hit)), Some(_), Some(name)) => (
            StateView::CheckingFile { hit },
            ActionView::CheckFile { name },
        ),
    }
}

/// What follows once it is known whether the program is there: it is downloaded unless it is there
/// in a version that is no older, or the download is of no known kind.
pub open spec fn after_check(conf: ConfigView, hit: HitView, present: bool) -> Transition {
    match (conf.version, extension(hit.download_url)) {
        (None, _) => ended(ActionView::Abort(Fault::MissingVersion)),
        (Some(version), _) if present && text_le(hit.version, version) => ended(
            ActionView::Skip(Skip::NotNewer),
        ),
        (Some(_), None) => ended(ActionView::Skip(Skip::UnknownExtension)),
        (Some(_), Some(extension)) => (
            StateView::Downloading { hit, extension },
            ActionView::Download { url: hit.download_url },
        ),
    }
}

/// What follows once a file from an archive is in place: it gets the desired name, where that is
/// another one.
pub open spec fn after_store(conf: ConfigView, version: Seq<char>) -> Transition {
    match (conf.desired_filename, conf.target_filename_to_extract_from_archive) {
        (Some(_), None) => ended(ActionView::Abort(Fault::MissingTargetFilename)),
        (Some(to), Some(from)) if to != from => (
            StateView::Installing { version },
            ActionView::RenameFile { from, to },
        ),
        _ => ended(ActionView::Finish { new_version: version }),
    }
}

/// What follows once a tar archive was searched.
pub open spec fn after_tar(
    conf: ConfigView,
    version: Seq<char>,
    compression: Compression,
    archive: Seq<u8>,
    found: Result<Option<nat>, Fault>,
) -> Transition {
    match (found, conf.target_filename_to_extract_from_archive) {
        (Err(fault), _) => ended(ActionView::Abort(fault)),
        (Ok(None), _) => after_store(conf, version),
        (Ok(Some(_)), None) => ended(ActionView::Abort(Fault::MissingTargetFilename)),
        (Ok(Some(index)), Some(name)) => (
            StateView::Storing { version },
            ActionView::Unpack { compression, archive, index, name },
        ),
    }
}

/// What follows once a zip archive was searched.
pub open spec fn after_zip(
    conf: ConfigView,
    version: Seq<char>,
    found: Result<Option<Seq<u8>>, Fault>,
) -> Transition {
    match (found, conf.target_filename_to_extract_from_archive) {
        (Err(fault), _) => ended(ActionView::Abort(fault)),
        (Ok(None), _) => after_store(conf, version),
        (Ok(Some(_)), None) => ended(ActionView::Abort(Fault::MissingTargetFilename)),
        (Ok(Some(contents)), Some(name)) => (
            StateView::Storing { version },
            ActionView::WriteFile { name, contents },
        ),
    }
}

/// What follows once a bare executable was downloaded.
pub open spec fn after_exe(conf: ConfigView, version: Seq<char>, contents: Seq<u8>) -> Transition {
    match conf.desired_filename {
        None => ended(ActionView::Abort(Fault::MissingDesiredFilename)),
        Some(name) => (StateView::Installing { version }, ActionView::WriteFile { name, contents }),
    }
}

/// What follows once a release was downloaded.
pub open spec fn after_download(
    conf: ConfigView,
    version: Seq<char>,
    extension: Extension,
    bytes: Seq<u8>,
    platform: Platform,
) -> Transition {
    let target = conf.target_filename_to_extract_from_archive;
    match extension {
        Extension::TarGz => after_tar(
            conf,
            version,
            Compression::Gzip,
            bytes,
            member(tar_gz_paths(bytes), target, platform),
        ),
        Extension::TarXz => after_tar(
            conf,
            version,
            Compression::Xz,
            bytes,
            member(tar_xz_paths(bytes), target, platform),
        ),
        Extension::Zip => after_zip(conf, version, zip_extract(bytes, target, platform)),
        Extension::Exe => after_exe(conf, version, bytes),
    }
}

/// Whether an event is one that a state of bringing a program up to date waits for.
pub open spec fn process_expects(state: StateView, event: EventView) -> bool {
    match (state, event) {
        (StateView::Fetching, EventView::Page(_)) => true,
        (StateView::CheckingFile { .. }, EventView::FileExists(_)) => true,
        (StateView::Downloading { .. }, EventView::Downloaded { .. }) => true,
        (StateView::Storing { .. }, EventView::Completed) => true,
        (StateView::Installing { .. }, EventView::Completed) => true,
        _ => false,
    }
}

/// How bringing a program up to date goes on from a state after an event.
pub open spec fn process_next(conf: ConfigView, state: StateView, event: EventView) -> Transition {
    match (state, event) {
        (StateView::Fetching, EventView::Page(body)) => after_page(conf, found_on_page(conf, body)),
        (StateView::CheckingFile { hit }, EventView::FileExists(present)) => after_check(
            conf,
            hit,
            present,
        ),
        (
            StateView::Downloading { hit, extension },
            EventView::Downloaded { bytes, platform },
        ) => after_download(conf, hit.version, extension, bytes, platform),
        (StateView::Storing { version }, EventView::Completed) => after_store(conf, version),
        (StateView::Installing { version }, EventView::Completed) => ended(
            ActionView::Finish { new_version: version },
        ),
        // No state waits for any other event.
        _ => (state, ActionView::Skip(Skip::NotNewer)),
    }
}

/// The texts in a transition.
pub open spec fn transition(r: (State, Action)) -> Transition {
    (r.0@, r.1@)
}

/// The kind of download that a URL leads to.
pub fn extension_of(url: &str) -> (r: Option<Extension>)
    ensures
        r == extension(url@),
{
    if ends_with(url, ".tar.gz") || ends_with(url, ".tgz") {
        Some(Extension::TarGz)
    } else if ends_with(url, ".tar.xz") {
        Some(Extension::TarXz)
    } else if ends_with(url, ".zip") {
        Some(Extension::Zip)
    } else if ends_with(url, ".exe") {
        Some(Extension::Exe)
    } else {
        None
    }
}

/// The name of the file that is there if the program is installed.
pub fn filename_to_check(conf: &Config) -> (r: Option<String>)
    ensures
        r.deep_view() == kept_filename(conf@),
{
    match &conf.desired_filename {
        Some(name) => Some(name.clone()),
        None => match &conf.target_filename_to_extract_from_archive {
            Some(name) => Some(name.clone()),
            None => None,
        },
    }
}

/// Ends a run.
fn end(action: Action) -> (r: (State, Action))
    ensures
        transition(r) == ended(action@),
{
    (State::Finished, action)
}

/// Goes on once the page was searched.
pub fn on_page(conf: &Config, found: Result<Result<Hit, Miss>, PageError>) -> (r: (State, Action))
    ensures
        transition(r) == after_page(conf@, page_outcome(found)),
{
    let hit = match found {
        Err(PageError::Pattern { message }) => return end(Action::Fail { message }),
        Err(PageError::Fault(fault)) => return end(Action::Abort(fault)),
        Ok(Err(miss)) => return end(Action::Skip(Skip::NothingFound(miss))),
        Ok(Ok(hit)) => hit,
    };
    if conf.version.is_none() {
        return end(Action::Abort(Fault::MissingVersion));
    }
    match filename_to_check(conf) {
        Some(name) => (State::CheckingFile { hit }, Action::CheckFile { name }),
        None => end(Action::Abort(Fault::MissingTargetFilename)),
    }
}

/// Goes on once it is known whether the program is there.
pub fn on_file_check(conf: &Config, hit: Hit, present: bool) -> (r: (State, Action))
    ensures
        transition(r) == after_check(conf@, hit@, present),
{
    let existing_version = match &conf.version {
        Some(version) => version,
        None => return end(Action::Abort(Fault::MissingVersion)),
    };
    if present && is_text_le(hit.version.as_str(), existing_version.as_str()) {
        return end(Action::Skip(Skip::NotNewer));
    }
    match extension_of(hit.download_url.as_str()) {
        Some(extension) => {
            let url = hit.download_url.clone();
            (State::Downloading { hit, extension }, Action::Download { url })
        },
        None => end(Action::Skip(Skip::UnknownExtension)),
    }
}

/// Goes on once a file from an archive is in place.
pub fn on_stored(conf: &Config, version: String) -> (r: (State, Action))
    ensures
        transition(r) == after_store(conf@, version@),
{
    match (&conf.desired_filename, &conf.target_filename_to_extract_from_archive) {
        (Some(_), None) => end(Action::Abort(Fault::MissingTargetFilename)),
        (Some(to), Some(from)) => {
            if *to == *from {
                end(Action::Finish { new_version: version })
            } else {
                (
                    State::Installing { version },
                    Action::RenameFile { from: from.clone(), to: to.clone() },
                )
            }
        },
        (None, _) => end(Action::Finish { new_version: version }),
    }
}

/// Goes on once a tar archive was searched.
pub fn on_tar_search(
    conf: &Config,
    version: String,
    compression: Compression,
    archive: Vec<u8>,
    found: Result<Option<usize>, Fault>,
) -> (r: (State, Action))
    ensures
        transition(r) == after_tar(
            conf@,
            version@,
            compression,
            archive@,
            search_outcome(found),
        ),
{
    let index: usize = match found {
        Err(fault) => return end(Action::Abort(fault)),
        Ok(None) => return on_stored(conf, version),
        Ok(Some(index)) => index,
    };
    match &conf.target_filename_to_extract_from_archive {
        Some(name) => (
            State::Storing { version },
            Action::Unpack { compression, archive, index, name: name.clone() },
        ),
        None => end(Action::Abort(Fault::MissingTargetFilename)),
    }
}

/// Goes on once a zip archive was searched.
pub fn on_zip_search(conf: &Config, version: String, found: Result<Option<Vec<u8>>, Fault>) -> (r: (
    State,
    Action,
))
    ensures
        transition(r) == after_zip(conf@, version@, contents_outcome(found)),
{
    let contents = match found {
        Err(fault) => return end(Action::Abort(fault)),
        Ok(None) => return on_stored(conf, version),
        Ok(Some(contents)) => contents,
    };
    match &conf.target_filename_to_extract_from_archive {
        Some(name) => (
            State::Storing { version },
            Action::WriteFile { name: name.clone(), contents },
        ),
        None => end(Action::Abort(Fault::MissingTargetFilename)),
    }
}

/// Goes on once a bare executable was downloaded.
pub fn on_exe(conf: &Config, version: String, contents: Vec<u8>) -> (r: (State, Action))
    ensures
        transition(r) == after_exe(conf@, version@, contents@),
{
    match &conf.desired_filename {
        Some(name) => (
            State::Installing { version },
            Action::WriteFile { name: name.clone(), contents },
        ),
        None => end(Action::Abort(Fault::MissingDesiredFilename)),
    }
}

/// Goes on once a release was downloaded: looks for the program in it.
pub fn on_download(
    conf: &Config,
    version: String,
    extension: Extension,
    bytes: Vec<u8>,
    platform: Platform,
) -> (r: (State, Action))
    ensures
        transition(r) == after_download(conf@, version@, extension, bytes@, platform),
{
    match extension {
        Extension::TarGz => {
            let found = extract_target_from_tarfile(bytes.as_slice(), conf, platform);
            on_tar_search(conf, version, Compression::Gzip, bytes, found)
        },
        Extension::TarXz => {
            let found = extract_target_from_tarxz(bytes.as_slice(), conf, platform);
            on_tar_search(conf, version, Compression::Xz, bytes, found)
        },
        Extension::Zip => {
            let found = extract_target_from_zipfile(bytes.as_slice(), conf, platform);
            on_zip_search(conf, version, found)
        },
        Extension::Exe => on_exe(conf, version, bytes),
    }
}

/// Begins to bring a program up to date.
pub fn process_start(conf: &Config) -> (r: (State, Action))
    ensures
        transition(r) == (StateView::Fetching, ActionView::FetchPage { url: conf@.page_url }),
{
    (State::Fetching, Action::FetchPage { url: conf.page_url.clone() })
}

/// Goes on with bringing a program up to date after an event that the state waits for.
pub fn process(conf: &Config, state: State, event: Event) -> (r: (State, Action))
    requires
        process_expects(state@, event@),
    ensures
        transition(r) == process_next(conf@, state@, event@),
{
    match (state, event) {
        (State::Fetching, Event::Page(body)) => {
            let found = parse_html_page(conf, body.as_str());
            on_page(conf, found)
        },
        (State::CheckingFile { hit }, Event::FileExists(present)) => on_file_check(
            conf,
            hit,
            present,
        ),
        (State::Downloading { hit, extension }, Event::Downloaded { bytes, platform }) => {
            on_download(conf, hit.version, extension, bytes, platform)
        },
        (State::Storing { version }, Event::Completed) => on_stored(conf, version),
        (State::Installing { version }, Event::Completed) => end(
            Action::Finish { new_version: version },
        ),
        // No state waits for any other event.
        (state, _) => (state, Action::Skip(Skip::NotNewer)),
    }
}

/// The kind of a download is told by how its URL ends, and by nothing else.
pub proof fn law_extension_is_the_end_of_the_url(url: Seq<char>)
    ensures
        extension(url) == Some(Extension::TarGz) <==> ".tar.gz"@.is_suffix_of(url)
            || ".tgz"@.is_suffix_of(url),
        extension(url) == Some(Extension::TarXz) <==> ".tar.xz"@.is_suffix_of(url),
        extension(url) == Some(Extension::Zip) <==> ".zip"@.is_suffix_of(url),
        extension(url) == Some(Extension::Exe) <==> ".exe"@.is_suffix_of(url),
{
    reveal_strlit(".tar.gz");
    reveal_strlit(".tgz");
    reveal_strlit(".tar.xz");
    reveal_strlit(".zip");
    reveal_strlit(".exe");
    let n = url.len() as int;
    if ".tar.gz"@.is_suffix_of(url) {
        assert(url[n - 1] == ".tar.gz"@[6] && url[n - 2] == ".tar.gz"@[5]);
    }
    if ".tgz"@.is_suffix_of(url) {
        assert(url[n - 1] == ".tgz"@[3] && url[n - 2] == ".tgz"@[2]);
    }
    if ".tar.xz"@.is_suffix_of(url) {
        assert(url[n - 1] == ".tar.xz"@[6] && url[n - 2] == ".tar.xz"@[5]);
    }
    if ".zip"@.is_suffix_of(url) {
        assert(url[n - 1] == ".zip"@[3]);
    }
    if ".exe"@.is_suffix_of(url) {
        assert(url[n - 1] == ".exe"@[3]);
    }
}

/// The program is kept under the desired name, if one is given, else under the name that it has in
/// the archive, if that is given.
pub proof fn law_kept_filename_is_the_desired_one(conf: ConfigView)
    ensures
        conf.desired_filename is Some ==> kept_filename(conf) == conf.desired_filename,
        conf.desired_filename is None ==> kept_filename(conf)
            == conf.target_filename_to_extract_from_archive,
{
}

/// The states that wait for something, and what each of them waits for.
pub proof fn law_states_wait_for_their_events(state: StateView, event: EventView)
    ensures
        state is Fetching ==> (process_expects(state, event) <==> event is Page),
        state is CheckingFile ==> (process_expects(state, event) <==> event is FileExists),
        state is Downloading ==> (process_expects(state, event) <==> event is Downloaded),
        state is Storing || state is Installing ==> (process_expects(state, event)
            <==> event is Completed),
        state is CheckingTarget || state is Recording || state is Saving || state is Finished
            ==> !process_expects(state, event),
{
}

/// The step after a page. A release that it holds leads to a look for the program, under the name
/// under which it is kept, and is carried on unchanged; an installed version and a name have to be
/// known for that. A page without a release ends the run with the reason, and an error ends it as
/// that error.
pub proof fn law_page_leads_to_a_look_for_the_program(
    conf: ConfigView,
    hit: HitView,
    miss: Miss,
    message: Seq<char>,
    fault: Fault,
    body: Seq<char>,
)
    ensures
        process_next(conf, StateView::Fetching, EventView::Page(body)) == after_page(
            conf,
            found_on_page(conf, body),
        ),
        conf.version is Some && kept_filename(conf) is Some ==> after_page(conf, Ok(Ok(hit))) == (
            StateView::CheckingFile { hit },
            ActionView::CheckFile { name: kept_filename(conf)->0 },
        ),
        conf.version is None ==> after_page(conf, Ok(Ok(hit))) == (
            StateView::Finished,
            ActionView::Abort(Fault::MissingVersion),
        ),
        conf.version is Some && kept_filename(conf) is None ==> after_page(conf, Ok(Ok(hit))) == (
            StateView::Finished,
            ActionView::Abort(Fault::MissingTargetFilename),
        ),
        after_page(conf, Ok(Err(miss))) == (
            StateView::Finished,
            ActionView::Skip(Skip::NothingFound(miss)),
        ),
        after_page(conf, Err(PageErrorView::Pattern { message })) == (
            StateView::Finished,
            ActionView::Fail { message },
        ),
        after_page(conf, Err(PageErrorView::Fault(fault))) == (
            StateView::Finished,
            ActionView::Abort(fault),
        ),
{
}

/// The step after the look for the program. The release is downloaded from its own URL exactly when
/// the program is not there or the installed version sorts before the published one, and the URL
/// ends in a known way. The release and its kind are carried on.
pub proof fn law_newer_release_is_downloaded(
    conf: ConfigView,
    hit: HitView,
    present: bool,
    installed: Seq<char>,
    kind: Extension,
)
    ensures
        process_next(conf, StateView::CheckingFile { hit }, EventView::FileExists(present))
            == after_check(conf, hit, present),
        conf.version is None ==> after_check(conf, hit, present) == (
            StateView::Finished,
            ActionView::Abort(Fault::MissingVersion),
        ),
        conf.version == Some(installed) && (!present || !text_le(hit.version, installed))
            && extension(hit.download_url) == Some(kind) ==> after_check(conf, hit, present) == (
            StateView::Downloading { hit, extension: kind },
            ActionView::Download { url: hit.download_url },
        ),
        conf.version == Some(installed) && (!present || !text_le(hit.version, installed))
            && extension(hit.download_url) is None ==> after_check(conf, hit, present) == (
            StateView::Finished,
            ActionView::Skip(Skip::UnknownExtension),
        ),
        conf.version == Some(installed) && present && text_le(hit.version, installed)
            ==> after_check(conf, hit, present) == (
            StateView::Finished,
            ActionView::Skip(Skip::NotNewer),
        ),
{
}

/// The step after a file from an archive is in place: it is renamed from the name that it has in
/// the archive to the desired one, exactly if one is desired and it is another. What is in place
/// under its name is installed, in the version that was downloaded.
pub proof fn law_stored_file_gets_its_name(
    conf: ConfigView,
    version: Seq<char>,
    from: Seq<char>,
    to: Seq<char>,
)
    ensures
        process_next(conf, StateView::Storing { version }, EventView::Completed) == after_store(
            conf,
            version,
        ),
        process_next(conf, StateView::Installing { version }, EventView::Completed) == (
            StateView::Finished,
            ActionView::Finish { new_version: version },
        ),
        conf.desired_filename == Some(to) && conf.target_filename_to_extract_from_archive == Some(
            from,
        ) && from != to ==> after_store(conf, version) == (
            StateView::Installing { version },
            ActionView::RenameFile { from, to },
        ),
        conf.desired_filename is None || (conf.desired_filename == Some(to)
            && conf.target_filename_to_extract_from_archive == Some(to)) ==> after_store(
            conf,
            version,
        ) == (StateView::Finished, ActionView::Finish { new_version: version }),
        conf.desired_filename is Some && conf.target_filename_to_extract_from_archive is None
            ==> after_store(conf, version) == (
            StateView::Finished,
            ActionView::Abort(Fault::MissingTargetFilename),
        ),
{
}

/// The step after a search of an archive. An entry that was found is unpacked from the same bytes,
/// and a member that was read is written whole, each under the name that was searched for. Where
/// nothing was found the run goes on as after a file that is in place, and a fault ends it.
pub proof fn law_found_file_is_stored_under_its_name(
    conf: ConfigView,
    version: Seq<char>,
    compression: Compression,
    archive: Seq<u8>,
    index: nat,
    contents: Seq<u8>,
    name: Seq<char>,
    fault: Fault,
)
    ensures
        conf.target_filename_to_extract_from_archive == Some(name) ==> {
            &&& after_tar(conf, version, compression, archive, Ok(Some(index))) == (
                StateView::Storing { version },
                ActionView::Unpack { compression, archive, index, name },
            )
            &&& after_zip(conf, version, Ok(Some(contents))) == (
                StateView::Storing { version },
                ActionView::WriteFile { name, contents },
            )
        },
        conf.target_filename_to_extract_from_archive is None ==> {
            &&& after_tar(conf, version, compression, archive, Ok(Some(index))) == (
                StateView::Finished,
                ActionView::Abort(Fault::MissingTargetFilename),
            )
            &&& after_zip(conf, version, Ok(Some(contents))) == (
                StateView::Finished,
                ActionView::Abort(Fault::MissingTargetFilename),
            )
        },
        after_tar(conf, version, compression, archive, Ok(None)) == process_next(
            conf,
            StateView::Storing { version },
            EventView::Completed,
        ),
        after_zip(conf, version, Ok(None)) == process_next(
            conf,
            StateView::Storing { version },
            EventView::Completed,
        ),
        after_tar(conf, version, compression, archive, Err(fault)) == (
            StateView::Finished,
            ActionView::Abort(fault),
        ),
        after_zip(conf, version, Err(fault)) == (StateView::Finished, ActionView::Abort(fault)),
{
}

/// The step after a bare executable was downloaded: all of it is written under the desired name,
/// which has to be given.
pub proof fn law_executable_is_written_whole(
    conf: ConfigView,
    version: Seq<char>,
    contents: Seq<u8>,
    name: Seq<char>,
)
    ensures
        conf.desired_filename == Some(name) ==> after_exe(conf, version, contents) == (
            StateView::Installing { version },
            ActionView::WriteFile { name, contents },
        ),
        conf.desired_filename is None ==> after_exe(conf, version, contents) == (
            StateView::Finished,
            ActionView::Abort(Fault::MissingDesiredFilename),
        ),
{
}

/// The step after a tar archive was downloaded, told by its entries: those that are listed for the
/// compression that the kind of download stands for. Let `i` be the first entry that cannot be read
/// or has the wanted file name (their number, if there is none). If it can be read, it is unpacked
/// from the downloaded bytes to the wanted name; else the run is aborted; and without such an entry
/// the run goes on as after a file that is in place.
pub proof fn law_tar_download_is_unpacked(
    conf: ConfigView,
    hit: HitView,
    compression: Compression,
    bytes: Seq<u8>,
    platform: Platform,
    paths: Seq<Option<Seq<u8>>>,
    target: Seq<char>,
    i: int,
)
    requires
        conf.target_filename_to_extract_from_archive == Some(target),
        compression == Compression::Gzip ==> paths == tar_gz_paths(bytes),
        compression == Compression::Xz ==> paths == tar_xz_paths(bytes),
        0 <= i <= paths.len(),
        forall|j: int|
            0 <= j < i ==> (#[trigger] paths[j]) is Some && (platform == Platform::Windows
                ==> valid_utf8(paths[j]->0)) && file_name(paths[j]->0, platform) != Some(
                encode_utf8(target),
            ),
    ensures
        ({
            let kind = match compression {
                Compression::Gzip => Extension::TarGz,
                Compression::Xz => Extension::TarXz,
            };
            let version = hit.version;
            let step = process_next(
                conf,
                StateView::Downloading { hit, extension: kind },
                EventView::Downloaded { bytes, platform },
            );
            let readable = paths[i] is Some && (platform == Platform::Windows ==> valid_utf8(
                paths[i]->0,
            ));
            &&& step == after_download(conf, version, kind, bytes, platform)
            &&& i < paths.len() && readable && file_name(paths[i]->0, platform) == Some(
                encode_utf8(target),
            ) ==> step == (
                StateView::Storing { version },
                ActionView::Unpack {
                    compression,
                    archive: bytes,
                    index: i as nat,
                    name: target,
                },
            )
            &&& i < paths.len() && !readable ==> step == (
                StateView::Finished,
                ActionView::Abort(Fault::BrokenArchive),
            )
            &&& i == paths.len() ==> step == process_next(
                conf,
                StateView::Storing { version },
                EventView::Completed,
            )
        }),
{
    law_search_stops_at_the_first_entry(paths, target, platform, i);
}

/// The step after a zip archive was downloaded, told by its members. Let `i` be the first member
/// that does not open or has the wanted file name (their number, if there is none). If it opens and
/// can be read, all that it reads as is written to the wanted name; else the run is aborted; and
/// without such a member the run goes on as after a file that is in place.
pub proof fn law_zip_download_is_written_whole(
    conf: ConfigView,
    hit: HitView,
    bytes: Seq<u8>,
    platform: Platform,
    names: Seq<Seq<char>>,
    target: Seq<char>,
    i: int,
)
    requires
        conf.target_filename_to_extract_from_archive == Some(target),
        zip_file_names(bytes) == Some(names),
        0 <= i <= names.len(),
        forall|j: int|
            0 <= j < i ==> zip_opens(bytes, #[trigger] names[j]) && file_name(
                encode_utf8(names[j]),
                platform,
            ) != Some(encode_utf8(target)),
    ensures
        ({
            let version = hit.version;
            let step = process_next(
                conf,
                StateView::Downloading { hit, extension: Extension::Zip },
                EventView::Downloaded { bytes, platform },
            );
            let found = i < names.len() && zip_opens(bytes, names[i]) && file_name(
                encode_utf8(names[i]),
                platform,
            ) == Some(encode_utf8(target));
            &&& step == after_download(conf, version, Extension::Zip, bytes, platform)
            &&& found && zip_contents(bytes, names[i]) is Some ==> step == (
                StateView::Storing { version },
                ActionView::WriteFile {
                    name: target,
                    contents: zip_contents(bytes, names[i])->0,
                },
            )
            &&& found && zip_contents(bytes, names[i]) is None ==> step == (
                StateView::Finished,
                ActionView::Abort(Fault::BrokenArchive),
            )
            &&& i < names.len() && !zip_opens(bytes, names[i]) ==> step == (
                StateView::Finished,
                ActionView::Abort(Fault::BrokenArchive),
            )
            &&& i == names.len() ==> step == process_next(
                conf,
                StateView::Storing { version },
                EventView::Completed,
            )
        }),
{
    law_zip_gives_the_whole_member(bytes, names, target, platform, i);
}

/// The other steps after a download: all of a bare executable is written under the desired name,
/// bytes that are no zip archive abort the run, and so does an archive without a name to look for.
pub proof fn law_other_downloads(
    conf: ConfigView,
    hit: HitView,
    bytes: Seq<u8>,
    platform: Platform,
    kind: Extension,
)
    ensures
        ({
            let version = hit.version;
            let step = process_next(
                conf,
                StateView::Downloading { hit, extension: kind },
                EventView::Downloaded { bytes, platform },
            );
            &&& step == after_download(conf, version, kind, bytes, platform)
            &&& kind == Extension::Exe && conf.desired_filename is Some ==> step == (
                StateView::Installing { version },
                ActionView::WriteFile { name: conf.desired_filename->0, contents: bytes },
            )
            &&& kind == Extension::Exe && conf.desired_filename is None ==> step == (
                StateView::Finished,
                ActionView::Abort(Fault::MissingDesiredFilename),
            )
            &&& kind == Extension::Zip && zip_file_names(bytes) is None ==> step == (
                StateView::Finished,
                ActionView::Abort(Fault::BrokenArchive),
            )
            &&& (kind == Extension::TarGz || kind == Extension::TarXz || kind == Extension::Zip
                && zip_file_names(bytes) is Some)
                && conf.target_filename_to_extract_from_archive is None ==> step == (
                StateView::Finished,
                ActionView::Abort(Fault::MissingTargetFilename),
            )
        }),
{
}

/// What contracts say of a state is all that is in it.
pub proof fn law_state_view_keeps_everything(state: State)
    ensures
        match state {
            State::CheckingTarget => state@ is CheckingTarget,
            State::Fetching => state@ is Fetching,
            State::CheckingFile { hit } => state@ == (StateView::CheckingFile { hit: hit@ }),
            State::Downloading { hit, extension } => state@ == (StateView::Downloading {
                hit: hit@,
                extension,
            }),
            State::Storing { version } => state@ == (StateView::Storing { version: version@ }),
            State::Installing { version } => state@ == (StateView::Installing {
                version: version@,
            }),
            State::Recording { version } => state@ == (StateView::Recording { version: version@ }),
            State::Saving { version } => state@ == (StateView::Saving { version: version@ }),
            State::Finished => state@ is Finished,
        },
{
}

/// What contracts say of an event is all that is in it.
pub proof fn law_event_view_keeps_everything(event: Event)
    ensures
        match event {
            Event::FileExists(present) => event@ == EventView::FileExists(present),
            Event::Page(body) => event@ == EventView::Page(body@),
            Event::Downloaded { bytes, platform } => event@ == (EventView::Downloaded {
                bytes: bytes@,
                platform,
            }),
            Event::Completed => event@ is Completed,
            Event::SettingsText(text) => event@ == EventView::SettingsText(text@),
        },
{
}

/// What contracts say of an action, and of a step, is all that is in it.
pub proof fn law_action_view_keeps_everything(state: State, action: Action)
    ensures
        transition((state, action)) == (state@, action@),
        match action {
            Action::CheckFile { name } => action@ == (ActionView::CheckFile { name: name@ }),
            Action::FetchPage { url } => action@ == (ActionView::FetchPage { url: url@ }),
            Action::Download { url } => action@ == (ActionView::Download { url: url@ }),
            Action::Unpack { compression, archive, index, name } => action@ == (ActionView::Unpack {
                compression,
                archive: archive@,
                index: index as nat,
                name: name@,
            }),
            Action::WriteFile { name, contents } => action@ == (ActionView::WriteFile {
                name: name@,
                contents: contents@,
            }),
            Action::RenameFile { from, to } => action@ == (ActionView::RenameFile {
                from: from@,
                to: to@,
            }),
            Action::ReadSettings => action@ is ReadSettings,
            Action::WriteSettings { text } => action@ == (ActionView::WriteSettings {
                text: text@,
            }),
            Action::Finish { new_version } => action@ == (ActionView::Finish {
                new_version: new_version@,
            }),
            Action::Skip(skip) => action@ == ActionView::Skip(skip),
            Action::Fail { message } => action@ == (ActionView::Fail { message: message@ }),
            Action::Abort(fault) => action@ == ActionView::Abort(fault),
        },
{
}

} // verus!
