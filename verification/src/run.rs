//! One section of the settings from start to end: bringing its program up to date, and recording
//! the version that was installed.
use crate::archive::{tar_gz_paths, tar_xz_paths, zip_contents, zip_file_names, zip_opens};
use crate::config::{configured, Config, ConfigView, Fault};
use crate::page::{found_on_page, HitView, Miss, PageErrorView};
use crate::path::{file_name, Platform};
use crate::process::{
    ended, extension, kept_filename, law_extension_is_the_end_of_the_url,
    law_tar_download_is_unpacked, law_zip_download_is_written_whole, process, process_expects,
    process_next, process_start, transition, Action, ActionView, Compression, Event, EventView,
    Extension, Skip, State, StateView, Transition,
};
use crate::settings::{
    get, is_key, is_section_name, is_value, law_put_keeps_section_order, law_put_keeps_storable,
    law_put_then_get, parsed_ini, put, render, section_names, Document, Settings, SettingsError,
};
use crate::text::{law_text_le_reflexive, text_le};
use vstd::prelude::*;
use vstd::utf8::{encode_utf8, valid_utf8};

verus! {

/// The document with the version of a section set.
pub open spec fn with_version(
    document: Document,
    section: Seq<char>,
    version: Seq<char>,
) -> Document {
    put(document, section, "version"@, version)
}

/// Records in the text of a settings file which version of a section is installed.
pub fn record_version(text: &str, section: &str, version: &str) -> (r: Result<
    String,
    SettingsError,
>)
    ensures
        match (parsed_ini(text@), r) {
            (Some(document), Ok(written)) => {
                let changed = with_version(document, section@, version@);
                &&& written@ == render(changed)
                &&& is_section_name(section@) && is_value(version@) ==> parsed_ini(written@)
                    == Some(changed)
            },
            (None, Err(_)) => true,
            _ => false,
        },
{
    let settings = match Settings::parse(text) {
        Ok(settings) => settings,
        Err(e) => return Err(e),
    };
    proof {
        if is_section_name(section@) && is_value(version@) {
            lemma_version_is_key();
            law_put_keeps_storable(settings@, section@, "version"@, version@);
        }
    }
    Ok(settings.set(section, "version", version).to_text())
}

proof fn lemma_version_is_key()
    ensures
        is_key("version"@),
{
    reveal_strlit("version");
}

/// Whether an event is one that a state of a run waits for.
pub open spec fn expects(state: StateView, event: EventView) -> bool {
    match (state, event) {
        (StateView::CheckingTarget, EventView::FileExists(_)) => true,
        (StateView::Recording { .. }, EventView::SettingsText(_)) => true,
        (StateView::Saving { .. }, EventView::Completed) => true,
        _ => process_expects(state, event),
    }
}

/// How a run begins: by looking for the target.
pub open spec fn first(conf: ConfigView) -> Transition {
    (StateView::CheckingTarget, ActionView::CheckFile { name: conf.target_filename })
}

/// How a run of a section goes on from a state after an event.
pub open spec fn next(
    conf: ConfigView,
    section: Seq<char>,
    state: StateView,
    event: EventView,
) -> Transition {
    match (state, event) {
        (StateView::CheckingTarget, EventView::FileExists(true)) => ended(
            ActionView::Skip(Skip::TargetExists),
        ),
        (StateView::CheckingTarget, EventView::FileExists(false)) => (
            StateView::Fetching,
            ActionView::FetchPage { url: conf.page_url },
        ),
        (StateView::Recording { version }, EventView::SettingsText(text)) => match parsed_ini(
            text,
        ) {
            Some(document) => (
                StateView::Saving { version },
                ActionView::WriteSettings {
                    text: render(with_version(document, section, version)),
                },
            ),
            None => ended(ActionView::Abort(Fault::BrokenSettings)),
        },
        (StateView::Saving { version }, EventView::Completed) => ended(
            ActionView::Finish { new_version: version },
        ),
        _ => {
            let step = process_next(conf, state, event);
            match step.1 {
                ActionView::Finish { new_version: version } => (
                    StateView::Recording { version },
                    ActionView::ReadSettings,
                ),
                _ => step,
            }
        },
    }
}

/// Begins a run.
pub fn start(conf: &Config) -> (r: (State, Action))
    ensures
        transition(r) == first(conf@),
{
    (State::CheckingTarget, Action::CheckFile { name: conf.target_filename.clone() })
}

/// Goes on with a run of a section after an event that the state waits for.
pub fn run_section(conf: &Config, section: &str, state: State, event: Event) -> (r: (State, Action))
    requires
        expects(state@, event@),
    ensures
        transition(r) == next(conf@, section@, state@, event@),
        match (state@, event@) {
            (StateView::Recording { version }, EventView::SettingsText(text)) => match parsed_ini(
                text,
            ) {
                Some(document) if is_section_name(section@) && is_value(version) => {
                    let changed = with_version(document, section@, version);
                    parsed_ini(render(changed)) == Some(changed)
                },
                _ => true,
            },
            _ => true,
        },
{
    match (state, event) {
        (State::CheckingTarget, Event::FileExists(present)) => {
            if present {
                (State::Finished, Action::Skip(Skip::TargetExists))
            } else {
                process_start(conf)
            }
        },
        (State::Recording { version }, Event::SettingsText(text)) => match record_version(
            text.as_str(),
            section,
            version.as_str(),
        ) {
            Ok(text) => (State::Saving { version }, Action::WriteSettings { text }),
            Err(_) => (State::Finished, Action::Abort(Fault::BrokenSettings)),
        },
        (State::Saving { version }, Event::Completed) => (
            State::Finished,
            Action::Finish { new_version: version },
        ),
        (state, event) => {
            let (state, action) = process(conf, state, event);
            match action {
                Action::Finish { new_version: version } => (
                    State::Recording { version },
                    Action::ReadSettings,
                ),
                action => (state, action),
            }
        },
    }
}

/// What a run has come to after a number of events.
pub open spec fn reached(conf: ConfigView, section: Seq<char>, events: Seq<EventView>) -> Transition
    decreases events.len(),
{
    if events.len() == 0 {
        first(conf)
    } else {
        next(conf, section, reached(conf, section, events.drop_last()).0, events.last())
    }
}

/// Whether every event comes in a state of the run that waits for it.
pub open spec fn is_run(conf: ConfigView, section: Seq<char>, events: Seq<EventView>) -> bool
    decreases events.len(),
{
    events.len() > 0 ==> {
        &&& is_run(conf, section, events.drop_last())
        &&& expects(reached(conf, section, events.drop_last()).0, events.last())
    }
}

/// How many events a run can still take.
pub open spec fn remaining(state: StateView) -> nat {
    match state {
        StateView::CheckingTarget => 8,
        StateView::Fetching => 7,
        StateView::CheckingFile { .. } => 6,
        StateView::Downloading { .. } => 5,
        StateView::Storing { .. } => 4,
        StateView::Installing { .. } => 3,
        StateView::Recording { .. } => 2,
        StateView::Saving { .. } => 1,
        StateView::Finished => 0,
    }
}

/// Whether one of the events was a page on which the configuration finds a release of a version.
pub open spec fn is_published(
    conf: ConfigView,
    events: Seq<EventView>,
    version: Seq<char>,
) -> bool {
    exists|i: int|
        0 <= i < events.len() && {
            &&& #[trigger] events[i] matches EventView::Page(body)
            &&& found_on_page(conf, body) matches Ok(Ok(hit))
            &&& hit.version == version
        }
}

/// The version that a state is about.
pub open spec fn version_of(state: StateView) -> Option<Seq<char>> {
    match state {
        StateView::CheckingFile { hit } => Some(hit.version),
        StateView::Downloading { hit, .. } => Some(hit.version),
        StateView::Storing { version } => Some(version),
        StateView::Installing { version } => Some(version),
        StateView::Recording { version } => Some(version),
        StateView::Saving { version } => Some(version),
        _ => None,
    }
}

/// Whether an event reports what the caller does when an action asks for it. Nothing answers an
/// action that ends a run.
pub open spec fn answers(event: EventView, action: ActionView) -> bool {
    match action {
        ActionView::CheckFile { .. } => event is FileExists,
        ActionView::FetchPage { .. } => event is Page,
        ActionView::Download { .. } => event is Downloaded,
        ActionView::Unpack { .. } => event is Completed,
        ActionView::WriteFile { .. } => event is Completed,
        ActionView::RenameFile { .. } => event is Completed,
        ActionView::ReadSettings => event is SettingsText,
        ActionView::WriteSettings { .. } => event is Completed,
        ActionView::Finish { .. } => false,
        ActionView::Skip(_) => false,
        ActionView::Fail { .. } => false,
        ActionView::Abort(_) => false,
    }
}

/// At every point of a run, the events that the state waits for are those that answer the action.
/// So a caller that answers every action can always go on, until the run is over.
pub proof fn law_answers_are_expected(
    conf: ConfigView,
    section: Seq<char>,
    events: Seq<EventView>,
    event: EventView,
)
    requires
        is_run(conf, section, events),
    ensures
        answers(event, reached(conf, section, events).1) <==> expects(
            reached(conf, section, events).0,
            event,
        ),
        answers(event, reached(conf, section, events).1) ==> is_run(
            conf,
            section,
            events.push(event),
        ),
{
    assert(events.push(event).drop_last() =~= events);
    if events.len() > 0 {
        lemma_answers_are_expected(
            conf,
            section,
            reached(conf, section, events.drop_last()).0,
            events.last(),
            event,
        );
    }
}

proof fn lemma_answers_are_expected(
    conf: ConfigView,
    section: Seq<char>,
    state: StateView,
    event: EventView,
    reply: EventView,
)
    requires
        expects(state, event),
    ensures
        answers(reply, next(conf, section, state, event).1) <==> expects(
            next(conf, section, state, event).0,
            reply,
        ),
{
}

/// Every event brings a run nearer to its end, and a run that is over takes none.
pub proof fn law_run_makes_progress(
    conf: ConfigView,
    section: Seq<char>,
    state: StateView,
    event: EventView,
)
    requires
        expects(state, event),
    ensures
        remaining(next(conf, section, state, event).0) < remaining(state),
{
}

/// A run takes at most eight events.
pub proof fn law_run_ends(conf: ConfigView, section: Seq<char>, events: Seq<EventView>)
    requires
        is_run(conf, section, events),
    ensures
        events.len() + remaining(reached(conf, section, events).0) <= 8,
    decreases events.len(),
{
    if events.len() > 0 {
        law_run_ends(conf, section, events.drop_last());
        law_run_makes_progress(
            conf,
            section,
            reached(conf, section, events.drop_last()).0,
            events.last(),
        );
    }
}

/// The version that a run ends up reporting as installed is one that the release page published in
/// that run.
pub proof fn law_installed_version_is_published(
    conf: ConfigView,
    section: Seq<char>,
    events: Seq<EventView>,
)
    requires
        is_run(conf, section, events),
    ensures
        version_of(reached(conf, section, events).0) matches Some(version) ==> is_published(
            conf,
            events,
            version,
        ),
        reached(conf, section, events).1 matches ActionView::Finish { new_version: version }
            ==> is_published(conf, events, version),
    decreases events.len(),
{
    if events.len() > 0 {
        let before = events.drop_last();
        law_installed_version_is_published(conf, section, before);
        let state = reached(conf, section, before).0;
        lemma_version_comes_from_page(conf, section, state, events.last());
        if let Some(version) = version_of(state) {
            let i = choose|i: int|
                0 <= i < before.len() && {
                    &&& #[trigger] before[i] matches EventView::Page(body)
                    &&& found_on_page(conf, body) matches Ok(Ok(hit))
                    &&& hit.version == version
                };
            assert(events[i] == before[i]);
            assert(is_published(conf, events, version));
        }
        if let EventView::Page(body) = events.last() {
            assert(events[events.len() - 1] == events.last());
            if let Ok(Ok(hit)) = found_on_page(conf, body) {
                assert(is_published(conf, events, hit.version));
            }
        }
    }
}

/// The version that a step is about was that of the state, or is that of a page that it was given.
proof fn lemma_version_comes_from_page(
    conf: ConfigView,
    section: Seq<char>,
    state: StateView,
    event: EventView,
)
    requires
        expects(state, event),
    ensures
        ({
            let step = next(conf, section, state, event);
            let found = match event {
                EventView::Page(body) => match found_on_page(conf, body) {
                    Ok(Ok(hit)) => Some(hit.version),
                    _ => None,
                },
                _ => None,
            };
            &&& version_of(step.0) is Some ==> version_of(step.0) == version_of(state)
                || version_of(step.0) == found
            &&& step.1 matches ActionView::Finish { new_version: version } ==> version_of(
                state,
            ) == Some(version)
        }),
{
}

/// Whether something was downloaded among the events.
pub open spec fn has_download(events: Seq<EventView>) -> bool {
    exists|i: int| 0 <= i < events.len() && (#[trigger] events[i]) is Downloaded
}

/// Nothing is put in place, recorded or reported as installed in a run that has downloaded nothing.
pub proof fn law_nothing_is_installed_without_a_download(
    conf: ConfigView,
    section: Seq<char>,
    events: Seq<EventView>,
)
    requires
        is_run(conf, section, events),
    ensures
        match reached(conf, section, events).0 {
            StateView::Storing { .. } => has_download(events),
            StateView::Installing { .. } => has_download(events),
            StateView::Recording { .. } => has_download(events),
            StateView::Saving { .. } => has_download(events),
            _ => true,
        },
        reached(conf, section, events).1 matches ActionView::Finish { .. }
            ==> has_download(events),
    decreases events.len(),
{
    if events.len() > 0 {
        let before = events.drop_last();
        law_nothing_is_installed_without_a_download(conf, section, before);
        if has_download(before) {
            let i = choose|i: int| 0 <= i < before.len() && (#[trigger] before[i]) is Downloaded;
            assert(events[i] == before[i]);
            assert(has_download(events));
        }
        if events.last() is Downloaded {
            assert(events[events.len() - 1] is Downloaded);
        }
    }
}

/// A release is downloaded exactly when the program is missing or older and the kind of the
/// download is known; else the run ends with nothing installed, and says which of the two it is.
pub proof fn law_download_is_due(
    conf: ConfigView,
    section: Seq<char>,
    hit: HitView,
    present: bool,
    installed: Seq<char>,
)
    requires
        conf.version == Some(installed),
    ensures
        ({
            let newer = !present || !text_le(hit.version, installed);
            let known = extension(hit.download_url) is Some;
            let action = next(
                conf,
                section,
                StateView::CheckingFile { hit },
                EventView::FileExists(present),
            ).1;
            &&& newer && known <==> action == (ActionView::Download { url: hit.download_url })
            &&& !newer <==> action == ActionView::Skip(Skip::NotNewer)
            &&& newer && !known <==> action == ActionView::Skip(Skip::UnknownExtension)
        }),
{
}

/// A run only puts files under the names that its configuration gives, and only takes one away to
/// give it the desired name.
pub proof fn law_run_touches_only_its_files(
    conf: ConfigView,
    section: Seq<char>,
    state: StateView,
    event: EventView,
)
    requires
        expects(state, event),
    ensures
        match next(conf, section, state, event).1 {
            ActionView::Unpack { name, .. } => conf.target_filename_to_extract_from_archive == Some(
                name,
            ),
            ActionView::WriteFile { name, .. } => Some(name)
                == conf.target_filename_to_extract_from_archive || Some(name)
                == conf.desired_filename,
            ActionView::RenameFile { from, to } => {
                &&& conf.target_filename_to_extract_from_archive == Some(from)
                &&& conf.desired_filename == Some(to)
            },
            _ => true,
        },
{
}

/// What is installed stands under the name that is looked for on the next run: a file from an
/// archive is renamed to it or has it already, and a bare executable is written to it.
pub proof fn law_program_is_kept_where_it_is_looked_for(
    conf: ConfigView,
    section: Seq<char>,
    version: Seq<char>,
    hit: HitView,
    bytes: Seq<u8>,
    platform: Platform,
    body: Seq<char>,
)
    requires
        conf.target_filename_to_extract_from_archive is Some,
    ensures
        match next(conf, section, StateView::Storing { version }, EventView::Completed).1 {
            ActionView::RenameFile { to, .. } => kept_filename(conf) == Some(to),
            _ => kept_filename(conf) == conf.target_filename_to_extract_from_archive,
        },
        next(
            conf,
            section,
            StateView::Downloading { hit, extension: Extension::Exe },
            EventView::Downloaded { bytes, platform },
        ).1 matches ActionView::WriteFile { name, .. } ==> kept_filename(conf) == Some(name),
        next(conf, section, StateView::Fetching, EventView::Page(body)).1
            matches ActionView::CheckFile { name } ==> kept_filename(conf) == Some(name),
{
}

/// A run of a configured section never lacks a name for its file.
pub proof fn law_configured_section_has_a_file_name(
    document: Document,
    section: Seq<char>,
    conf: ConfigView,
    state: StateView,
    event: EventView,
)
    requires
        configured(document, section) == Ok::<_, Fault>(Some(conf)),
        expects(state, event),
    ensures
        next(conf, section, state, event).1 != ActionView::Abort(Fault::MissingTargetFilename),
{
}

/// Recording a version changes nothing in the settings but that version: the section is configured
/// as before with the new version, and every other section is configured as it was.
pub proof fn law_recording_changes_only_the_version(
    document: Document,
    section: Seq<char>,
    version: Seq<char>,
    other: Seq<char>,
)
    ensures
        configured(with_version(document, section, version), other) == match configured(
            document,
            other,
        ) {
            Ok(Some(conf)) if other == section => Ok(
                Some(ConfigView { version: Some(version), ..conf }),
            ),
            outcome => outcome,
        },
{
    reveal_strlit("version");
    reveal_strlit("page_url");
    reveal_strlit("anchor_tag");
    reveal_strlit("anchor_text");
    reveal_strlit("version_tag");
    reveal_strlit("target_filename_to_extract_from_archive");
    reveal_strlit("desired_filename");
    assert("version"@.len() == 7);
    law_put_then_get(document, section, "version"@, version, other, "version"@);
    law_put_then_get(document, section, "version"@, version, other, "page_url"@);
    law_put_then_get(document, section, "version"@, version, other, "anchor_tag"@);
    law_put_then_get(document, section, "version"@, version, other, "anchor_text"@);
    law_put_then_get(document, section, "version"@, version, other, "version_tag"@);
    law_put_then_get(
        document,
        section,
        "version"@,
        version,
        other,
        "target_filename_to_extract_from_archive"@,
    );
    law_put_then_get(document, section, "version"@, version, other, "desired_filename"@);
}

/// Once a version is installed and recorded, a run of the section that sees the same page and finds
/// the program in place installs nothing.
pub proof fn law_second_run_is_quiet(
    document: Document,
    section: Seq<char>,
    conf: ConfigView,
    body: Seq<char>,
    hit: HitView,
)
    requires
        configured(document, section) == Ok::<_, Fault>(Some(conf)),
        found_on_page(conf, body) == Ok::<_, PageErrorView>(Ok::<_, Miss>(hit)),
    ensures
        ({
            let events = seq![
                EventView::FileExists(false),
                EventView::Page(body),
                EventView::FileExists(true),
            ];
            configured(with_version(document, section, hit.version), section) matches Ok(
                Some(again),
            ) && is_run(again, section, events) && reached(again, section, events) == ended(
                ActionView::Skip(Skip::NotNewer),
            )
        }),
{
    law_recording_changes_only_the_version(document, section, hit.version, section);
    law_text_le_reflexive(hit.version);
    let again = ConfigView { version: Some(hit.version), ..conf };
    assert(found_on_page(again, body) == found_on_page(conf, body));
    let e0 = Seq::<EventView>::empty();
    let e1 = seq![EventView::FileExists(false)];
    let e2 = seq![EventView::FileExists(false), EventView::Page(body)];
    let e3 = seq![
        EventView::FileExists(false),
        EventView::Page(body),
        EventView::FileExists(true),
    ];
    assert(e3.drop_last() =~= e2);
    assert(e2.drop_last() =~= e1);
    assert(e1.drop_last() =~= e0);
    assert(is_run(again, section, e0));
    assert(reached(again, section, e0) == first(again));
    assert(is_run(again, section, e1));
    assert(reached(again, section, e1).0 == StateView::Fetching);
    assert(is_run(again, section, e2));
    assert(reached(again, section, e2).0 == (StateView::CheckingFile { hit }));
    assert(is_run(again, section, e3));
}

/// What each state of a run waits for.
pub proof fn law_run_waits_for_its_events(state: StateView, event: EventView)
    ensures
        state is CheckingTarget || state is CheckingFile ==> (expects(state, event)
            <==> event is FileExists),
        state is Fetching ==> (expects(state, event) <==> event is Page),
        state is Downloading ==> (expects(state, event) <==> event is Downloaded),
        state is Storing || state is Installing || state is Saving ==> (expects(state, event)
            <==> event is Completed),
        state is Recording ==> (expects(state, event) <==> event is SettingsText),
        state is Finished ==> !expects(state, event),
{
}

/// A run begins with a look for the target, and goes on with the page of the configuration exactly
/// if the target is not there.
pub proof fn law_run_begins_with_the_target(conf: ConfigView, section: Seq<char>)
    ensures
        first(conf) == (
            StateView::CheckingTarget,
            ActionView::CheckFile { name: conf.target_filename },
        ),
        next(conf, section, StateView::CheckingTarget, EventView::FileExists(false)) == (
            StateView::Fetching,
            ActionView::FetchPage { url: conf.page_url },
        ),
        next(conf, section, StateView::CheckingTarget, EventView::FileExists(true)) == (
            StateView::Finished,
            ActionView::Skip(Skip::TargetExists),
        ),
{
}

/// A run goes on as bringing the program up to date does, whatever the configuration and the
/// version; but where that would be done, every version that was installed is recorded first.
pub proof fn law_every_update_is_recorded(
    conf: ConfigView,
    section: Seq<char>,
    state: StateView,
    event: EventView,
    version: Seq<char>,
)
    requires
        ({
            ||| state is Fetching && event is Page
            ||| state is CheckingFile && event is FileExists
            ||| state is Downloading && event is Downloaded
            ||| (state is Storing || state is Installing) && event is Completed
        }),
    ensures
        process_next(conf, state, event).1 == (ActionView::Finish { new_version: version })
            ==> next(conf, section, state, event) == (
            StateView::Recording { version },
            ActionView::ReadSettings,
        ),
        !(process_next(conf, state, event).1 is Finish) ==> next(conf, section, state, event)
            == process_next(conf, state, event),
{
}

/// The settings are written as they were read, with the version of the section set to the one that
/// was installed; only then the run is over. Settings that cannot be read abort it.
pub proof fn law_recording_writes_the_version(
    conf: ConfigView,
    section: Seq<char>,
    version: Seq<char>,
    text: Seq<char>,
)
    ensures
        parsed_ini(text) matches Some(document) ==> next(
            conf,
            section,
            StateView::Recording { version },
            EventView::SettingsText(text),
        ) == (
            StateView::Saving { version },
            ActionView::WriteSettings { text: render(put(document, section, "version"@, version)) },
        ),
        parsed_ini(text) is None ==> next(
            conf,
            section,
            StateView::Recording { version },
            EventView::SettingsText(text),
        ) == (StateView::Finished, ActionView::Abort(Fault::BrokenSettings)),
        next(conf, section, StateView::Saving { version }, EventView::Completed) == (
            StateView::Finished,
            ActionView::Finish { new_version: version },
        ),
{
}

/// Recording a version leaves every value of every section of the settings as it was, but for the
/// version of the section, which is the one that was recorded; no section is moved or dropped.
pub proof fn law_recording_keeps_all_other_settings(
    document: Document,
    section: Seq<char>,
    version: Seq<char>,
    other_section: Seq<char>,
    other_key: Seq<char>,
)
    ensures
        with_version(document, section, version) == put(document, section, "version"@, version),
        get(with_version(document, section, version), section, "version"@) == Some(version),
        other_section != section || other_key != "version"@ ==> get(
            with_version(document, section, version),
            other_section,
            other_key,
        ) == get(document, other_section, other_key),
        section_names(document).is_prefix_of(
            section_names(with_version(document, section, version)),
        ),
{
    law_put_then_get(document, section, "version"@, version, section, "version"@);
    law_put_then_get(document, section, "version"@, version, other_section, other_key);
    law_put_keeps_section_order(document, section, "version"@, version);
}

/// A run is its steps: it begins with the first one, and every event that the state waits for makes
/// it longer by one.
pub proof fn law_run_is_its_steps(
    conf: ConfigView,
    section: Seq<char>,
    events: Seq<EventView>,
    event: EventView,
)
    ensures
        is_run(conf, section, Seq::empty()),
        reached(conf, section, Seq::empty()) == first(conf),
        is_run(conf, section, events.push(event)) <==> is_run(conf, section, events) && expects(
            reached(conf, section, events).0,
            event,
        ),
        reached(conf, section, events.push(event)) == next(
            conf,
            section,
            reached(conf, section, events).0,
            event,
        ),
{
    assert(events.push(event).drop_last() =~= events);
    assert(events.push(event).last() == event);
}

/// A run reports a version as installed only once that version stands in the settings file: its
/// last event says that the file was written, and what was written is the settings that the event
/// before it brought, with that version in the section.
pub proof fn law_reported_version_is_recorded(
    conf: ConfigView,
    section: Seq<char>,
    events: Seq<EventView>,
    version: Seq<char>,
)
    requires
        is_run(conf, section, events),
        reached(conf, section, events).1 == (ActionView::Finish { new_version: version }),
    ensures
        events.len() >= 2,
        events.last() is Completed,
        reached(conf, section, events.drop_last()).0 == (StateView::Saving { version }),
        ({
            &&& events[events.len() - 2] matches EventView::SettingsText(text)
            &&& parsed_ini(text) matches Some(document)
            &&& reached(conf, section, events.drop_last()).1 == (ActionView::WriteSettings {
                text: render(put(document, section, "version"@, version)),
            })
        }),
{
    let before = events.drop_last();
    assert(events.len() > 0);
    lemma_finish_comes_from_saving(
        conf,
        section,
        reached(conf, section, before).0,
        events.last(),
        version,
    );
    assert(is_run(conf, section, before) && before.len() > 0);
    lemma_saving_comes_from_recording(
        conf,
        section,
        reached(conf, section, before.drop_last()).0,
        before.last(),
        version,
    );
    assert(before.last() == events[events.len() - 2]);
}

proof fn lemma_finish_comes_from_saving(
    conf: ConfigView,
    section: Seq<char>,
    state: StateView,
    event: EventView,
    version: Seq<char>,
)
    requires
        expects(state, event),
        next(conf, section, state, event).1 == (ActionView::Finish { new_version: version }),
    ensures
        event is Completed,
        state == (StateView::Saving { version }),
{
}

proof fn lemma_saving_comes_from_recording(
    conf: ConfigView,
    section: Seq<char>,
    state: StateView,
    event: EventView,
    version: Seq<char>,
)
    requires
        expects(state, event),
        next(conf, section, state, event).0 == (StateView::Saving { version }),
    ensures
        ({
            &&& event matches EventView::SettingsText(text)
            &&& parsed_ini(text) matches Some(document)
            &&& next(conf, section, state, event).1 == (ActionView::WriteSettings {
                text: render(put(document, section, "version"@, version)),
            })
        }),
{
}

/// A release that is due, and whose URL ends in `.tar.gz`, `.tgz` or `.tar.xz`, is downloaded from
/// that URL and searched as a tar archive with that compression. The first entry with the wanted
/// file name is unpacked to it, with that compression and from those bytes, if all entries before
/// it can be read.
pub proof fn law_tar_release_is_unpacked(
    conf: ConfigView,
    section: Seq<char>,
    hit: HitView,
    present: bool,
    bytes: Seq<u8>,
    platform: Platform,
    installed: Seq<char>,
    target: Seq<char>,
    paths: Seq<Option<Seq<u8>>>,
    compression: Compression,
    i: int,
)
    requires
        conf.version == Some(installed),
        conf.target_filename_to_extract_from_archive == Some(target),
        !present || !text_le(hit.version, installed),
        compression == Compression::Gzip ==> (".tar.gz"@.is_suffix_of(hit.download_url)
            || ".tgz"@.is_suffix_of(hit.download_url)) && paths == tar_gz_paths(bytes),
        compression == Compression::Xz ==> ".tar.xz"@.is_suffix_of(hit.download_url) && paths
            == tar_xz_paths(bytes),
        0 <= i < paths.len(),
        forall|j: int|
            0 <= j <= i ==> (#[trigger] paths[j]) is Some && (platform == Platform::Windows
                ==> valid_utf8(paths[j]->0)),
        forall|j: int|
            0 <= j < i ==> file_name((#[trigger] paths[j])->0, platform) != Some(
                encode_utf8(target),
            ),
        file_name(paths[i]->0, platform) == Some(encode_utf8(target)),
    ensures
        ({
            let asked = next(
                conf,
                section,
                StateView::CheckingFile { hit },
                EventView::FileExists(present),
            );
            &&& asked.1 == (ActionView::Download { url: hit.download_url })
            &&& next(conf, section, asked.0, EventView::Downloaded { bytes, platform }) == (
                StateView::Storing { version: hit.version },
                ActionView::Unpack {
                    compression,
                    archive: bytes,
                    index: i as nat,
                    name: target,
                },
            )
        }),
{
    law_extension_is_the_end_of_the_url(hit.download_url);
    law_tar_download_is_unpacked(conf, hit, compression, bytes, platform, paths, target, i);
}

/// A release that is due, and whose URL ends in `.zip`, is downloaded from that URL and searched as
/// a zip archive. All that the first member with the wanted file name reads as is written to it, if
/// that can be read and all members before it open.
pub proof fn law_zip_release_is_written_whole(
    conf: ConfigView,
    section: Seq<char>,
    hit: HitView,
    present: bool,
    bytes: Seq<u8>,
    platform: Platform,
    installed: Seq<char>,
    target: Seq<char>,
    names: Seq<Seq<char>>,
    contents: Seq<u8>,
    i: int,
)
    requires
        conf.version == Some(installed),
        conf.target_filename_to_extract_from_archive == Some(target),
        !present || !text_le(hit.version, installed),
        ".zip"@.is_suffix_of(hit.download_url),
        zip_file_names(bytes) == Some(names),
        0 <= i < names.len(),
        forall|j: int| 0 <= j <= i ==> zip_opens(bytes, #[trigger] names[j]),
        forall|j: int|
            0 <= j < i ==> file_name(encode_utf8(#[trigger] names[j]), platform) != Some(
                encode_utf8(target),
            ),
        file_name(encode_utf8(names[i]), platform) == Some(encode_utf8(target)),
        zip_contents(bytes, names[i]) == Some(contents),
    ensures
        ({
            let asked = next(
                conf,
                section,
                StateView::CheckingFile { hit },
                EventView::FileExists(present),
            );
            &&& asked.1 == (ActionView::Download { url: hit.download_url })
            &&& next(conf, section, asked.0, EventView::Downloaded { bytes, platform }) == (
                StateView::Storing { version: hit.version },
                ActionView::WriteFile { name: target, contents },
            )
        }),
{
    law_extension_is_the_end_of_the_url(hit.download_url);
    law_zip_download_is_written_whole(conf, hit, bytes, platform, names, target, i);
}

/// A release that is due, and whose URL ends in `.exe`, is downloaded from that URL, and all of it
/// is written under the desired name.
pub proof fn law_exe_release_is_written_whole(
    conf: ConfigView,
    section: Seq<char>,
    hit: HitView,
    present: bool,
    bytes: Seq<u8>,
    platform: Platform,
    installed: Seq<char>,
    name: Seq<char>,
)
    requires
        conf.version == Some(installed),
        conf.desired_filename == Some(name),
        !present || !text_le(hit.version, installed),
        ".exe"@.is_suffix_of(hit.download_url),
    ensures
        ({
            let asked = next(
                conf,
                section,
                StateView::CheckingFile { hit },
                EventView::FileExists(present),
            );
            &&& asked.1 == (ActionView::Download { url: hit.download_url })
            &&& next(conf, section, asked.0, EventView::Downloaded { bytes, platform }) == (
                StateView::Installing { version: hit.version },
                ActionView::WriteFile { name, contents: bytes },
            )
        }),
{
    law_extension_is_the_end_of_the_url(hit.download_url);
}

} // verus!
