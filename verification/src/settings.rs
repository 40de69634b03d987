//! The settings file: named sections of `key = value` lines, in the order in which they appear.
use vstd::prelude::*;

verus! {

/// The lines of one section, in order: keys with their values.
pub type Items = Seq<(Seq<char>, Seq<char>)>;

/// A settings document: sections, in order, each with its name and its lines.
pub type Document = Seq<(Seq<char>, Items)>;

/// Where `key` first stands among `entries`; their number, if it does not.
pub open spec fn position<V>(entries: Seq<(Seq<char>, V)>, key: Seq<char>) -> nat
    decreases entries.len(),
{
    if entries.len() == 0 || entries[0].0 == key {
        0
    } else {
        1 + position(entries.drop_first(), key)
    }
}

/// What `key` stands for among `entries`.
pub open spec fn lookup<V>(entries: Seq<(Seq<char>, V)>, key: Seq<char>) -> Option<V> {
    let i = position(entries, key);
    if i < entries.len() {
        Some(entries[i as int].1)
    } else {
        None
    }
}

/// `entries` with `key` standing for `value`: in the place where `key` stood, else at the end.
pub open spec fn assign<V>(
    entries: Seq<(Seq<char>, V)>,
    key: Seq<char>,
    value: V,
) -> Seq<(Seq<char>, V)> {
    let i = position(entries, key);
    if i < entries.len() {
        entries.update(i as int, (key, value))
    } else {
        entries.push((key, value))
    }
}

/// The value of `key` in a section of the document.
pub open spec fn get(document: Document, section: Seq<char>, key: Seq<char>) -> Option<Seq<char>> {
    match lookup(document, section) {
        Some(items) => lookup(items, key),
        None => None,
    }
}

/// The document with `key` set to `value` in a section, which is added where it is missing.
pub open spec fn put(
    document: Document,
    section: Seq<char>,
    key: Seq<char>,
    value: Seq<char>,
) -> Document {
    let items = match lookup(document, section) {
        Some(items) => items,
        None => Seq::empty(),
    };
    assign(document, section, assign(items, key, value))
}

/// The names of the sections, in order.
pub open spec fn section_names(document: Document) -> Seq<Seq<char>> {
    Seq::new(document.len(), |i: int| document[i].0)
}

/// One line of a section as it is written.
pub open spec fn item_text(item: (Seq<char>, Seq<char>)) -> Seq<char> {
    item.0 + seq![' ', '=', ' '] + item.1 + seq!['\n']
}

/// A section as it is written: its name in brackets, then its lines.
pub open spec fn section_text(section: (Seq<char>, Items)) -> Seq<char> {
    seq!['['] + section.0 + seq![']', '\n'] + Seq::new(
        section.1.len(),
        |i: int| item_text(section.1[i]),
    ).flatten()
}

/// The document as it is written, with a blank line between sections.
pub open spec fn render(document: Document) -> Seq<char>
    decreases document.len(),
{
    if document.len() == 0 {
        Seq::empty()
    } else if document.len() == 1 {
        section_text(document[0])
    } else {
        section_text(document[0]) + seq!['\n'] + render(document.drop_first())
    }
}

/// Unicode white space.
pub open spec fn is_white_space(c: char) -> bool {
    ||| '\u{9}' <= c <= '\u{d}'
    ||| c == '\u{20}'
    ||| c == '\u{85}'
    ||| c == '\u{a0}'
    ||| c == '\u{1680}'
    ||| '\u{2000}' <= c <= '\u{200a}'
    ||| '\u{2028}' <= c <= '\u{2029}'
    ||| c == '\u{202f}'
    ||| c == '\u{205f}'
    ||| c == '\u{3000}'
}

/// Text that stays on one line and outside any comment.
pub open spec fn is_single_line(s: Seq<char>) -> bool {
    forall|i: int| 0 <= i < s.len() ==> s[i] != '\n' && s[i] != ';' && s[i] != '#'
}

/// Text with no white space at either end.
pub open spec fn is_trimmed(s: Seq<char>) -> bool {
    s.len() > 0 ==> !is_white_space(s[0]) && !is_white_space(s.last())
}

/// A section name that a settings file can hold.
pub open spec fn is_section_name(s: Seq<char>) -> bool {
    &&& is_single_line(s)
    &&& s.len() > 0 ==> s[0] != '[' && s[0] != ']' && s.last() != '[' && s.last() != ']'
}

/// A key that a settings file can hold.
pub open spec fn is_key(s: Seq<char>) -> bool {
    &&& is_single_line(s)
    &&& is_trimmed(s)
    &&& s.len() > 0
    &&& s[0] != '['
    &&& !s.contains('=')
}

/// A value that a settings file can hold.
pub open spec fn is_value(s: Seq<char>) -> bool {
    &&& is_single_line(s)
    &&& is_trimmed(s)
}

/// No key stands twice.
pub open spec fn has_distinct_keys<V>(entries: Seq<(Seq<char>, V)>) -> bool {
    forall|i: int, j: int| 0 <= i < j < entries.len() ==> entries[i].0 != entries[j].0
}

/// Lines that a section of a settings file can hold: at least one, and no key twice.
pub open spec fn is_storable_section(items: Items) -> bool {
    &&& items.len() > 0
    &&& has_distinct_keys(items)
    &&& forall|i: int| 0 <= i < items.len() ==> is_key(#[trigger] items[i].0) && is_value(items[i].1)
}

/// A document that a settings file can hold.
pub open spec fn is_storable(document: Document) -> bool {
    &&& has_distinct_keys(document)
    &&& forall|i: int|
        0 <= i < document.len() ==> is_section_name(#[trigger] document[i].0)
            && is_storable_section(document[i].1)
}

/// The document of `tini`; what it holds is [`ini_document`].
#[verifier::external_type_specification]
#[verifier::external_body]
pub struct ExIni(tini::Ini);

/// The error of `tini`, which is carried through.
#[verifier::external_type_specification]
#[verifier::external_body]
pub struct ExIniError(tini::Error);

/// The sections and lines that a `tini::Ini` holds, in its order.
pub uninterp spec fn ini_document(ini: tini::Ini) -> Document;

/// The section to which `tini::Ini::item` adds: the name last given to `tini::Ini::section`.
pub uninterp spec fn ini_cursor(ini: tini::Ini) -> Seq<char>;

/// The document that `tini::Ini::from_string` reads in a text; `None` where it reports an error.
pub uninterp spec fn parsed_ini(text: Seq<char>) -> Option<Document>;

/// Calls `tini::Ini::from_string`. What it reads depends on the text alone; it drops comments,
/// trims keys and values, and keeps one entry for each section that has lines and for each key, so
/// the document is one that a settings file can hold.
#[verifier::external_body]
fn ini_from_string(text: &str) -> (r: Result<tini::Ini, tini::Error>)
    ensures
        match r {
            Ok(ini) => parsed_ini(text@) == Some(ini_document(ini)) && is_storable(
                ini_document(ini),
            ),
            Err(_) => parsed_ini(text@) is None,
        },
{
    tini::Ini::from_string(text)
}

/// Calls `tini::Ini::get` for a `String`: the value of the key in the section, as it stands there.
#[verifier::external_body]
fn ini_get(ini: &tini::Ini, section: &str, key: &str) -> (r: Option<String>)
    ensures
        r.deep_view() == get(ini_document(*ini), section@, key@),
{
    ini.get(section, key)
}

/// Calls `tini::Ini::iter`, and keeps the section names: each section once, in order.
#[verifier::external_body]
fn ini_sections(ini: &tini::Ini) -> (r: Vec<String>)
    ensures
        r.deep_view() == section_names(ini_document(*ini)),
{
    ini.iter().map(|section| section.0.clone()).collect()
}

/// Calls `tini::Ini::section`, which selects a section and changes no line.
#[verifier::external_body]
fn ini_section(ini: tini::Ini, name: &str) -> (r: tini::Ini)
    ensures
        ini_document(r) == ini_document(ini),
        ini_cursor(r) == name@,
{
    ini.section(name)
}

/// Calls `tini::Ini::item`, which sets a key in the selected section.
#[verifier::external_body]
fn ini_item(ini: tini::Ini, key: &str, value: &str) -> (r: tini::Ini)
    ensures
        ini_document(r) == put(ini_document(ini), ini_cursor(ini), key@, value@),
        ini_cursor(r) == ini_cursor(ini),
{
    ini.item(key, value)
}

/// Calls `to_string` on a `tini::Ini`, which writes the document out. A document that a settings
/// file can hold is what `tini::Ini::from_string` reads back from that text.
#[verifier::external_body]
fn ini_to_string(ini: &tini::Ini) -> (r: String)
    ensures
        r@ == render(ini_document(*ini)),
        is_storable(ini_document(*ini)) ==> parsed_ini(r@) == Some(ini_document(*ini)),
{
    ini.to_string()
}

/// Why a settings file could not be used.
pub enum SettingsError {
    /// The text is not a settings document.
    Malformed(tini::Error),
}

/// A settings file that was read.
pub struct Settings {
    ini: tini::Ini,
}

impl View for Settings {
    type V = Document;

    closed spec fn view(&self) -> Document {
        ini_document(self.ini)
    }
}

impl Settings {
    /// Reads a settings file from its text.
    pub fn parse(text: &str) -> (r: Result<Settings, SettingsError>)
        ensures
            match r {
                Ok(settings) => parsed_ini(text@) == Some(settings@) && is_storable(settings@),
                Err(_) => parsed_ini(text@) is None,
            },
    {
        match ini_from_string(text) {
            Ok(ini) => Ok(Settings { ini }),
            Err(e) => Err(SettingsError::Malformed(e)),
        }
    }

    /// The names of the sections, in order.
    pub fn sections(&self) -> (r: Vec<String>)
        ensures
            r.deep_view() == section_names(self@),
    {
        ini_sections(&self.ini)
    }

    /// The value of a key in a section.
    pub fn get(&self, section: &str, key: &str) -> (r: Option<String>)
        ensures
            r.deep_view() == get(self@, section@, key@),
    {
        ini_get(&self.ini, section, key)
    }

    /// Sets a key in a section, and keeps everything else.
    pub fn set(self, section: &str, key: &str, value: &str) -> (r: Settings)
        ensures
            r@ == put(self@, section@, key@, value@),
    {
        Settings { ini: ini_item(ini_section(self.ini, section), key, value) }
    }

    /// The text of the settings file.
    pub fn to_text(&self) -> (r: String)
        ensures
            r@ == render(self@),
            is_storable(self@) ==> parsed_ini(r@) == Some(self@),
    {
        ini_to_string(&self.ini)
    }
}

/// After a key is set, it reads as the value it was set to, and every other key of every section
/// reads as before.
pub proof fn law_put_then_get(
    document: Document,
    section: Seq<char>,
    key: Seq<char>,
    value: Seq<char>,
    other_section: Seq<char>,
    other_key: Seq<char>,
)
    ensures
        get(put(document, section, key, value), other_section, other_key) == if other_section
            == section && other_key == key {
            Some(value)
        } else {
            get(document, other_section, other_key)
        },
{
    let items = match lookup(document, section) {
        Some(items) => items,
        None => Seq::empty(),
    };
    lemma_assign_then_lookup(items, key, value, other_key);
    lemma_assign_then_lookup(document, section, assign(items, key, value), other_section);
}

/// Setting a key in a section that is there moves, adds and drops no section; in one that is not,
/// it adds that section at the end.
pub proof fn law_put_keeps_section_order(
    document: Document,
    section: Seq<char>,
    key: Seq<char>,
    value: Seq<char>,
)
    ensures
        section_names(put(document, section, key, value)) == if section_names(document).contains(
            section,
        ) {
            section_names(document)
        } else {
            section_names(document).push(section)
        },
{
    lemma_position(document, section);
    let names = section_names(document);
    let after = section_names(put(document, section, key, value));
    if position(document, section) < document.len() {
        assert(names[position(document, section) as int] == section);
        assert(after =~= names);
    } else {
        assert(!names.contains(section)) by {
            if names.contains(section) {
                let i = choose|i: int| 0 <= i < names.len() && names[i] == section;
                assert(document[i].0 == section);
            }
        }
        assert(after =~= names.push(section));
    }
}

/// Setting a key that a settings file can hold keeps the document one that it can hold.
pub proof fn law_put_keeps_storable(
    document: Document,
    section: Seq<char>,
    key: Seq<char>,
    value: Seq<char>,
)
    requires
        is_storable(document),
        is_section_name(section),
        is_key(key),
        is_value(value),
    ensures
        is_storable(put(document, section, key, value)),
{
    lemma_position(document, section);
    let items = match lookup(document, section) {
        Some(items) => items,
        None => Seq::empty(),
    };
    lemma_position(items, key);
    if position(document, section) < document.len() {
        let i = position(document, section) as int;
        assert(is_section_name(document[i].0) && is_storable_section(document[i].1));
    }
    let changed = assign(items, key, value);
    assert(has_distinct_keys(items));
    assert(has_distinct_keys(changed));
    assert(is_storable_section(changed)) by {
        assert forall|i: int| 0 <= i < changed.len() implies is_key(#[trigger] changed[i].0)
            && is_value(changed[i].1) by {
            if i < items.len() {
                assert(is_key(items[i].0));
            }
        }
    }
    let result = put(document, section, key, value);
    assert forall|i: int| 0 <= i < result.len() implies is_section_name(#[trigger] result[i].0)
        && is_storable_section(result[i].1) by {
        if i < document.len() {
            assert(is_section_name(document[i].0));
        }
    }
}

/// A key reads as the value in the first line that has it, in the first section of that name:
/// `i` is the section and `k` the line, or the number of them where there is none.
pub proof fn law_get_reads_the_first_line(
    document: Document,
    section: Seq<char>,
    key: Seq<char>,
    i: int,
    k: int,
)
    requires
        0 <= i <= document.len(),
        forall|j: int| 0 <= j < i ==> (#[trigger] document[j]).0 != section,
        i < document.len() ==> document[i].0 == section,
        i < document.len() ==> 0 <= k <= document[i].1.len(),
        i < document.len() ==> forall|j: int|
            0 <= j < k ==> (#[trigger] document[i].1[j]).0 != key,
        i < document.len() && k < document[i].1.len() ==> document[i].1[k].0 == key,
    ensures
        get(document, section, key) == if i < document.len() && k < document[i].1.len() {
            Some(document[i].1[k].1)
        } else {
            None
        },
{
    lemma_position_is(document, section, i);
    if i < document.len() {
        lemma_position_is(document[i].1, key, k);
    }
}

/// Setting a key changes one line and nothing else: the first line of the first section of that
/// name that has the key. Where the section has no such line, one is added at its end; where there
/// is no such section, one with that line is added at the end of the document.
pub proof fn law_put_changes_one_line(
    document: Document,
    section: Seq<char>,
    key: Seq<char>,
    value: Seq<char>,
    i: int,
    k: int,
)
    requires
        0 <= i <= document.len(),
        forall|j: int| 0 <= j < i ==> (#[trigger] document[j]).0 != section,
        i < document.len() ==> document[i].0 == section,
        i < document.len() ==> 0 <= k <= document[i].1.len(),
        i < document.len() ==> forall|j: int|
            0 <= j < k ==> (#[trigger] document[i].1[j]).0 != key,
        i < document.len() && k < document[i].1.len() ==> document[i].1[k].0 == key,
    ensures
        put(document, section, key, value) == if i == document.len() {
            document.push((section, seq![(key, value)]))
        } else if k == document[i].1.len() {
            document.update(i, (section, document[i].1.push((key, value))))
        } else {
            document.update(i, (section, document[i].1.update(k, (key, value))))
        },
{
    lemma_position_is(document, section, i);
    if i < document.len() {
        lemma_position_is(document[i].1, key, k);
    } else {
        let none: Items = Seq::empty();
        assert(position(none, key) == 0);
        assert(assign(none, key, value) =~= seq![(key, value)]);
    }
}

/// The names of the sections are those of the document, one for each, in its order.
pub proof fn law_sections_are_listed(document: Document)
    ensures
        section_names(document).len() == document.len(),
        forall|i: int|
            0 <= i < document.len() ==> #[trigger] section_names(document)[i] == document[i].0,
{
}

/// Where `position` points, and what stands before it.
proof fn lemma_position<V>(entries: Seq<(Seq<char>, V)>, key: Seq<char>)
    ensures
        position(entries, key) <= entries.len(),
        position(entries, key) < entries.len() ==> entries[position(entries, key) as int].0 == key,
        forall|j: int| 0 <= j < position(entries, key) ==> entries[j].0 != key,
    decreases entries.len(),
{
    if entries.len() > 0 && entries[0].0 != key {
        let rest = entries.drop_first();
        lemma_position(rest, key);
        assert forall|j: int| 0 <= j < position(entries, key) implies entries[j].0 != key by {
            if j > 0 {
                assert(rest[j - 1].0 != key);
            }
        }
    }
}

/// The first place where a key stands is its position.
proof fn lemma_position_is<V>(entries: Seq<(Seq<char>, V)>, key: Seq<char>, i: int)
    requires
        0 <= i <= entries.len(),
        i < entries.len() ==> entries[i].0 == key,
        forall|j: int| 0 <= j < i ==> entries[j].0 != key,
    ensures
        position(entries, key) == i,
{
    lemma_position(entries, key);
    let p = position(entries, key) as int;
    if p < i {
        assert(entries[p].0 != key);
    }
    if i < p {
        assert(entries[i].0 != key);
    }
}

proof fn lemma_assign_then_lookup<V>(
    entries: Seq<(Seq<char>, V)>,
    key: Seq<char>,
    value: V,
    other: Seq<char>,
)
    ensures
        lookup(assign(entries, key, value), other) == if other == key {
            Some(value)
        } else {
            lookup(entries, other)
        },
{
    lemma_position(entries, key);
    lemma_position(entries, other);
    let result = assign(entries, key, value);
    let i = position(entries, key) as int;
    let j = position(entries, other) as int;
    if other == key {
        lemma_position_is(result, other, i);
    } else if j < entries.len() {
        lemma_position_is(result, other, j);
    } else {
        lemma_position_is(result, other, result.len() as int);
    }
}

} // verus!
