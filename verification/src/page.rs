//! Finding the published version and its download on a release page.
use crate::config::{Config, ConfigView, Fault};
use crate::text::join_pieces;
use vstd::prelude::*;

verus! {

/// The host that the links of a release page are relative to.
pub const HOST: &'static str = "https://github.com";

/// An element of a page: the value of the attribute that was asked for, and its pieces of text.
pub struct Element {
    pub attribute: Option<String>,
    pub text: Vec<String>,
}

/// The texts in an [`Element`].
pub type ElementView = (Option<Seq<char>>, Seq<Seq<char>>);

impl DeepView for Element {
    type V = ElementView;

    open spec fn deep_view(&self) -> ElementView {
        (self.attribute.deep_view(), self.text.deep_view())
    }
}

/// A release that a page publishes.
#[derive(Debug)]
pub struct Hit {
    pub version: String,
    pub download_url: String,
}

/// The texts in a [`Hit`].
#[verifier::ext_equal]
pub ghost struct HitView {
    pub version: Seq<char>,
    pub download_url: Seq<char>,
}

impl View for Hit {
    type V = HitView;

    open spec fn view(&self) -> HitView {
        HitView { version: self.version@, download_url: self.download_url@ }
    }
}

/// Why a page that was searched gave no release.
#[derive(Clone, Copy, Debug, PartialEq, Eq, Structural)]
pub enum Miss {
    /// The `anchor_tag` is not a selector.
    InvalidAnchorTag,
    /// No link matches.
    NoLink,
    /// A link matches, and no element states a version.
    NoVersion,
}

/// Why a page could not be searched.
#[derive(Debug)]
pub enum PageError {
    /// The `anchor_text` is not a regular expression, as the message says.
    Pattern { message: String },
    /// The run cannot go on.
    Fault(Fault),
}

/// The texts in a [`PageError`].
#[verifier::ext_equal]
pub ghost enum PageErrorView {
    Pattern { message: Seq<char> },
    Fault(Fault),
}

/// The texts in a release that was looked for.
pub open spec fn hit_outcome(r: Result<Hit, Miss>) -> Result<HitView, Miss> {
    match r {
        Ok(hit) => Ok(hit@),
        Err(miss) => Err(miss),
    }
}

/// The texts in what searching a page gave.
pub open spec fn page_outcome(r: Result<Result<Hit, Miss>, PageError>) -> Result<
    Result<HitView, Miss>,
    PageErrorView,
> {
    match r {
        Ok(found) => Ok(hit_outcome(found)),
        Err(PageError::Pattern { message }) => Err(PageErrorView::Pattern { message: message@ }),
        Err(PageError::Fault(fault)) => Err(PageErrorView::Fault(fault)),
    }
}

/// Whether `scraper::Selector::parse` accepts a selector.
pub uninterp spec fn selector_parses(selector: Seq<char>) -> bool;

/// The elements that `scraper::Html::select` picks, in order, in the document that
/// `scraper::Html::parse_document` reads in `body`: with the attribute asked for, and the pieces of
/// text in them.
pub uninterp spec fn selected(
    body: Seq<char>,
    selector: Seq<char>,
    attribute: Seq<char>,
) -> Seq<ElementView>;

/// The message of the error that `regex::Regex::new` reports for a pattern; `None` if it accepts
/// the pattern.
pub uninterp spec fn regex_error(pattern: Seq<char>) -> Option<Seq<char>>;

/// Whether `regex::Regex::captures_iter` finds a match of a pattern in a text.
pub uninterp spec fn regex_captures(pattern: Seq<char>, text: Seq<char>) -> bool;

/// Calls `scraper::Selector::parse`, `scraper::Html::parse_document` and `scraper::Html::select`,
/// and reads each element with `attr` and `text`. Whether the selector is accepted depends on it
/// alone, and which elements come back on the three texts alone.
#[verifier::external_body]
fn select_elements(body: &str, selector: &str, attribute: &str) -> (r: Option<Vec<Element>>)
    ensures
        match r {
            Some(elements) => selector_parses(selector@) && elements.deep_view() == selected(
                body@,
                selector@,
                attribute@,
            ),
            None => !selector_parses(selector@),
        },
{
    let selector = scraper::Selector::parse(selector).ok()?;
    let document = scraper::Html::parse_document(body);
    Some(
        document.select(&selector).map(
            |e| Element {
                attribute: e.value().attr(attribute).map(String::from),
                text: e.text().map(String::from).collect(),
            },
        ).collect(),
    )
}

/// Calls `regex::Regex::new` once, and `regex::Regex::captures_iter` on each text: whether there is
/// a first match. Whether the pattern is accepted, and what the error says if it is not, depends on
/// the pattern alone.
#[verifier::external_body]
fn captures_each(pattern: &str, texts: &Vec<String>) -> (r: Result<Vec<bool>, String>)
    ensures
        match r {
            Ok(flags) => regex_error(pattern@) is None && flags@ == Seq::new(
                texts@.len(),
                |i: int| regex_captures(pattern@, texts@[i]@),
            ),
            Err(message) => regex_error(pattern@) == Some(message@),
        },
{
    let regex = regex::Regex::new(pattern).map_err(|e| e.to_string())?;
    Ok(texts.iter().map(|text| regex.captures_iter(text).next().is_some()).collect())
}

/// The attributes of the elements that have one, in order.
pub open spec fn links(elements: Seq<ElementView>) -> Seq<Seq<char>>
    decreases elements.len(),
{
    if elements.len() == 0 {
        Seq::empty()
    } else {
        let before = links(elements.drop_last());
        match elements.last().0 {
            Some(link) => before.push(link),
            None => before,
        }
    }
}

/// Where the first `true` stands; the number of flags, if there is none.
pub open spec fn first_set(flags: Seq<bool>) -> nat
    decreases flags.len(),
{
    if flags.len() == 0 || flags[0] {
        0
    } else {
        1 + first_set(flags.drop_first())
    }
}

/// The release to which the first link that matched leads, in the version that the first of the
/// `versions` states.
pub open spec fn chosen_hit(
    links: Seq<Seq<char>>,
    flags: Seq<bool>,
    versions: Seq<ElementView>,
) -> Result<HitView, Miss> {
    let i = first_set(flags);
    if i >= links.len() {
        Err(Miss::NoLink)
    } else if versions.len() == 0 {
        Err(Miss::NoVersion)
    } else {
        Ok(
            HitView {
                version: versions[0].1.flatten(),
                download_url: HOST@ + links[i as int],
            },
        )
    }
}

/// What a page comes to: `anchors` and `versions` are the elements that the two selectors pick
/// (`None` for no selector), `flags` says which of the links match (else why there is no pattern).
pub open spec fn judged_page(
    anchors: Option<Seq<ElementView>>,
    has_version_tag: bool,
    versions: Option<Seq<ElementView>>,
    flags: Result<Seq<bool>, Seq<char>>,
) -> Result<Result<HitView, Miss>, PageErrorView> {
    match (anchors, versions, flags) {
        (None, _, _) => Ok(Err(Miss::InvalidAnchorTag)),
        (Some(_), _, _) if !has_version_tag => Err(PageErrorView::Fault(Fault::MissingVersionTag)),
        (Some(_), None, _) => Err(PageErrorView::Fault(Fault::InvalidVersionTag)),
        (Some(_), Some(_), Err(message)) => Err(PageErrorView::Pattern { message }),
        (Some(anchors), Some(versions), Ok(flags)) => Ok(
            chosen_hit(links(anchors), flags, versions),
        ),
    }
}

/// The elements of a page that a selector picks, with their links; `None` if it is no selector.
pub open spec fn picked(body: Seq<char>, selector: Seq<char>) -> Option<Seq<ElementView>> {
    if selector_parses(selector) {
        Some(selected(body, selector, "href"@))
    } else {
        None
    }
}

/// What a configuration finds on a page.
pub open spec fn found_on_page(conf: ConfigView, body: Seq<char>) -> Result<
    Result<HitView, Miss>,
    PageErrorView,
> {
    let anchors = picked(body, conf.anchor_tag);
    let versions = match conf.version_tag {
        Some(tag) => picked(body, tag),
        None => None,
    };
    let links = match anchors {
        Some(anchors) => links(anchors),
        None => Seq::empty(),
    };
    let flags = match regex_error(conf.anchor_text) {
        None => Ok(Seq::new(links.len(), |i: int| regex_captures(conf.anchor_text, links[i]))),
        Some(message) => Err(message),
    };
    judged_page(anchors, conf.version_tag is Some, versions, flags)
}

/// The attributes of the elements that have one, in order.
pub fn collect_links(elements: &Vec<Element>) -> (r: Vec<String>)
    ensures
        r.deep_view() == links(elements.deep_view()),
{
    let mut out: Vec<String> = Vec::new();
    let mut i: usize = 0;
    assert(out.deep_view() =~= links(elements.deep_view().take(0)));
    while i < elements.len()
        invariant
            i <= elements@.len(),
            out.deep_view() == links(elements.deep_view().take(i as int)),
        decreases elements@.len() - i,
    {
        let ghost upto = elements.deep_view().take(i + 1);
        assert(upto.drop_last() =~= elements.deep_view().take(i as int));
        assert(upto.last() == elements@[i as int].deep_view());
        let ghost before = out.deep_view();
        match &elements[i].attribute {
            Some(link) => {
                out.push(link.clone());
                assert(out.deep_view() =~= before.push(link@));
            },
            None => {},
        }
        i += 1;
    }
    assert(elements.deep_view().take(i as int) =~= elements.deep_view());
    out
}

/// Picks the release to which the first matching link leads.
pub fn choose_hit(links: &Vec<String>, flags: &Vec<bool>, versions: &Vec<Element>) -> (r: Result<
    Hit,
    Miss,
>)
    requires
        flags@.len() == links@.len(),
    ensures
        hit_outcome(r) == chosen_hit(links.deep_view(), flags@, versions.deep_view()),
{
    let mut i: usize = 0;
    assert(flags@.skip(0) =~= flags@);
    while i < links.len()
        invariant
            i <= links@.len(),
            flags@.len() == links@.len(),
            first_set(flags@) == i + first_set(flags@.skip(i as int)),
        decreases links@.len() - i,
    {
        assert(flags@.skip(i as int)[0] == flags@[i as int]);
        if flags[i] {
            if versions.len() == 0 {
                return Err(Miss::NoVersion);
            }
            let version = join_pieces(&versions[0].text);
            let mut download_url = HOST.to_string();
            download_url.append(links[i].as_str());
            return Ok(Hit { version, download_url });
        }
        assert(flags@.skip(i as int).drop_first() =~= flags@.skip(i + 1));
        i += 1;
    }
    Err(Miss::NoLink)
}

/// Judges a page by what its elements are and which of its links match.
pub fn judge_page(
    anchors: &Option<Vec<Element>>,
    has_version_tag: bool,
    versions: &Option<Vec<Element>>,
    flags: Result<Vec<bool>, String>,
) -> (r: Result<Result<Hit, Miss>, PageError>)
    requires
        (anchors, flags) matches (Some(anchors), Ok(flags)) ==> flags@.len() == links(
            anchors.deep_view(),
        ).len(),
    ensures
        page_outcome(r) == judged_page(
            anchors.deep_view(),
            has_version_tag,
            versions.deep_view(),
            match flags {
                Ok(flags) => Ok(flags@),
                Err(message) => Err(message@),
            },
        ),
{
    let anchors = match anchors {
        Some(anchors) => anchors,
        None => return Ok(Err(Miss::InvalidAnchorTag)),
    };
    if !has_version_tag {
        return Err(PageError::Fault(Fault::MissingVersionTag));
    }
    let versions = match versions {
        Some(versions) => versions,
        None => return Err(PageError::Fault(Fault::InvalidVersionTag)),
    };
    match flags {
        Ok(flags) => {
            let links = collect_links(anchors);
            assert(links@.len() == links.deep_view().len());
            Ok(choose_hit(&links, &flags, versions))
        },
        Err(message) => Err(PageError::Pattern { message }),
    }
}

/// Searches a page for the release that a configuration asks for.
pub fn parse_html_page(conf: &Config, body: &str) -> (r: Result<Result<Hit, Miss>, PageError>)
    ensures
        page_outcome(r) == found_on_page(conf@, body@),
{
    let anchors = select_elements(body, conf.anchor_tag.as_str(), "href");
    let versions = match &conf.version_tag {
        Some(tag) => select_elements(body, tag.as_str(), "href"),
        None => None,
    };
    let links = match &anchors {
        Some(anchors) => collect_links(anchors),
        None => Vec::new(),
    };
    let flags = captures_each(conf.anchor_text.as_str(), &links);
    proof {
        let texts = links.deep_view();
        if anchors is None {
            assert(texts =~= Seq::empty());
        }
        if flags is Ok {
            assert(flags->Ok_0@ =~= Seq::new(
                texts.len(),
                |i: int| regex_captures(conf@.anchor_text, texts[i]),
            ));
        }
    }
    judge_page(&anchors, conf.version_tag.is_some(), &versions, flags)
}

/// A configuration whose version tag is a selector and whose anchor text is a pattern can search
/// every page.
pub proof fn law_sound_configuration_searches_every_page(conf: ConfigView, body: Seq<char>)
    requires
        conf.version_tag matches Some(tag) && selector_parses(tag),
        regex_error(conf.anchor_text) is None,
    ensures
        found_on_page(conf, body) is Ok,
{
}

/// A release is found exactly when a link matches and a version is stated. Its download is the
/// first link that matches, on the host; its version is all the text of the first element that
/// states one.
pub proof fn law_first_matching_link_wins(
    links: Seq<Seq<char>>,
    flags: Seq<bool>,
    versions: Seq<ElementView>,
)
    requires
        flags.len() == links.len(),
    ensures
        chosen_hit(links, flags, versions) is Ok <==> flags.contains(true) && versions.len() > 0,
        forall|i: int|
            #![trigger links[i]]
            0 <= i < flags.len() && flags[i] && versions.len() > 0 && (forall|j: int|
                0 <= j < i ==> !flags[j]) ==> chosen_hit(links, flags, versions) == Ok::<_, Miss>(
                HitView { version: versions[0].1.flatten(), download_url: HOST@ + links[i] },
            ),
{
    lemma_first_set(flags);
    let p = first_set(flags) as int;
    if flags.contains(true) {
        let i = choose|i: int| 0 <= i < flags.len() && flags[i] == true;
        if p >= flags.len() {
            assert(!flags[i]);
        }
    }
    if p < flags.len() {
        assert(flags[p] == true);
    }
    assert forall|i: int|
        #![trigger links[i]]
        0 <= i < flags.len() && flags[i] && versions.len() > 0 && (forall|j: int|
            0 <= j < i ==> !flags[j]) implies chosen_hit(links, flags, versions) == Ok::<_, Miss>(
        HitView { version: versions[0].1.flatten(), download_url: HOST@ + links[i] },
    ) by {
        if i < p {
            assert(!flags[i]);
        }
        if p < i {
            assert(!flags[p]);
        }
    }
}

/// What a page holds for a configuration whose selectors and pattern are sound. The release is that
/// of the first selected element whose own link matches the pattern, on the host, in the version
/// that all the text of the first version element spells; without a version element there is none,
/// and without an element whose link matches there is none.
pub proof fn law_page_gives_the_first_matching_link(
    conf: ConfigView,
    body: Seq<char>,
    tag: Seq<char>,
    i: int,
)
    requires
        selector_parses(conf.anchor_tag),
        conf.version_tag == Some(tag),
        selector_parses(tag),
        regex_error(conf.anchor_text) is None,
    ensures
        ({
            let elements = selected(body, conf.anchor_tag, "href"@);
            let versions = selected(body, tag, "href"@);
            &&& 0 <= i < elements.len() && elements[i].0 is Some && regex_captures(
                conf.anchor_text,
                elements[i].0->0,
            ) && (forall|j: int|
                0 <= j < i && (#[trigger] elements[j]).0 is Some ==> !regex_captures(
                    conf.anchor_text,
                    elements[j].0->0,
                )) ==> found_on_page(conf, body) == if versions.len() > 0 {
                Ok::<_, PageErrorView>(
                    Ok::<_, Miss>(
                        HitView {
                            version: versions[0].1.flatten(),
                            download_url: "https://github.com"@ + elements[i].0->0,
                        },
                    ),
                )
            } else {
                Ok(Err(Miss::NoVersion))
            }
            &&& (forall|j: int|
                0 <= j < elements.len() && (#[trigger] elements[j]).0 is Some ==> !regex_captures(
                    conf.anchor_text,
                    elements[j].0->0,
                )) ==> found_on_page(conf, body) == Ok::<_, PageErrorView>(
                Err::<HitView, _>(Miss::NoLink),
            )
        }),
{
    let pattern = conf.anchor_text;
    let elements = selected(body, conf.anchor_tag, "href"@);
    let all = links(elements);
    let flags = Seq::new(all.len(), |k: int| regex_captures(pattern, all[k]));
    lemma_first_set(flags);
    if 0 <= i < elements.len() && elements[i].0 is Some && regex_captures(pattern, elements[i].0->0)
        && (forall|j: int|
        0 <= j < i && (#[trigger] elements[j]).0 is Some ==> !regex_captures(
            pattern,
            elements[j].0->0,
        )) {
        let before = elements.take(i);
        let from = elements.skip(i);
        assert(elements =~= before + from);
        lemma_links_append(before, from);
        assert(from =~= seq![elements[i]] + elements.skip(i + 1));
        lemma_links_append(seq![elements[i]], elements.skip(i + 1));
        lemma_links_single(elements[i]);
        lemma_links_come_from_elements(before);
        let k = links(before).len() as int;
        assert(all[k] == elements[i].0->0);
        assert forall|m: int| 0 <= m < k implies !flags[m] by {
            assert(all[m] == links(before)[m]);
            let j = choose|j: int|
                0 <= j < before.len() && (#[trigger] before[j]).0 == Some(links(before)[m]);
            assert(before[j] == elements[j]);
        }
        assert(flags[k]);
        let p = first_set(flags) as int;
        if p < k {
            assert(!flags[p]);
        }
        if k < p {
            assert(!flags[k]);
        }
    }
    if forall|j: int|
        0 <= j < elements.len() && (#[trigger] elements[j]).0 is Some ==> !regex_captures(
            pattern,
            elements[j].0->0,
        ) {
        lemma_links_come_from_elements(elements);
        let p = first_set(flags) as int;
        if p < flags.len() {
            let j = choose|j: int|
                0 <= j < elements.len() && (#[trigger] elements[j]).0 == Some(all[p]);
            assert(!regex_captures(pattern, elements[j].0->0));
        }
    }
}

/// What is reported of a configuration that is not sound, whatever the page: the anchor tag comes
/// first, then the version tag, then the pattern with the message of its error.
pub proof fn law_unsound_configuration_is_told(conf: ConfigView, body: Seq<char>)
    ensures
        !selector_parses(conf.anchor_tag) ==> found_on_page(conf, body) == Ok::<_, PageErrorView>(
            Err::<HitView, _>(Miss::InvalidAnchorTag),
        ),
        selector_parses(conf.anchor_tag) && conf.version_tag is None ==> found_on_page(conf, body)
            == Err::<Result<HitView, Miss>, _>(PageErrorView::Fault(Fault::MissingVersionTag)),
        selector_parses(conf.anchor_tag) && conf.version_tag is Some && !selector_parses(
            conf.version_tag->0,
        ) ==> found_on_page(conf, body) == Err::<Result<HitView, Miss>, _>(
            PageErrorView::Fault(Fault::InvalidVersionTag),
        ),
        selector_parses(conf.anchor_tag) && conf.version_tag is Some && selector_parses(
            conf.version_tag->0,
        ) && regex_error(conf.anchor_text) is Some ==> found_on_page(conf, body) == Err::<
            Result<HitView, Miss>,
            _,
        >(PageErrorView::Pattern { message: regex_error(conf.anchor_text)->0 }),
{
}

/// The links of elements are their attributes, one after another: those of two lists are those of
/// the one followed by those of the other, and an element without the attribute has none.
pub proof fn law_links_are_the_attributes(
    first: Seq<ElementView>,
    second: Seq<ElementView>,
    element: ElementView,
)
    ensures
        links(first + second) == links(first) + links(second),
        element.0 matches Some(link) ==> links(seq![element]) == seq![link],
        element.0 is None ==> links(seq![element]).len() == 0,
{
    lemma_links_append(first, second);
    lemma_links_single(element);
}

/// How links that were tried and elements with versions come to a release: the first link that
/// matched decides the download, and only after that it is asked whether there is a version.
pub proof fn law_chosen_link(
    links: Seq<Seq<char>>,
    flags: Seq<bool>,
    versions: Seq<ElementView>,
    i: int,
)
    requires
        flags.len() == links.len(),
        0 <= i <= flags.len(),
        forall|j: int| 0 <= j < i ==> !flags[j],
        i < flags.len() ==> flags[i],
    ensures
        i == flags.len() ==> chosen_hit(links, flags, versions) == Err::<HitView, _>(Miss::NoLink),
        i < flags.len() && versions.len() == 0 ==> chosen_hit(links, flags, versions) == Err::<
            HitView,
            _,
        >(Miss::NoVersion),
        i < flags.len() && versions.len() > 0 ==> chosen_hit(links, flags, versions) == Ok::<
            _,
            Miss,
        >(
            HitView {
                version: versions[0].1.flatten(),
                download_url: "https://github.com"@ + links[i],
            },
        ),
{
    lemma_first_set(flags);
    let p = first_set(flags) as int;
    if p < i {
        assert(!flags[p]);
    }
    if i < p {
        assert(!flags[i]);
    }
}

/// How a page is judged once it was read: a selector that is missing or none comes before the
/// pattern, the anchor tag before the version tag, and the elements count only if all are sound.
pub proof fn law_judged_in_order(
    anchors: Seq<ElementView>,
    versions: Seq<ElementView>,
    found: Option<Seq<ElementView>>,
    has_version_tag: bool,
    flags: Seq<bool>,
    outcome: Result<Seq<bool>, Seq<char>>,
    message: Seq<char>,
)
    ensures
        judged_page(None, has_version_tag, found, outcome) == Ok::<_, PageErrorView>(
            Err::<HitView, _>(Miss::InvalidAnchorTag),
        ),
        judged_page(Some(anchors), false, found, outcome) == Err::<Result<HitView, Miss>, _>(
            PageErrorView::Fault(Fault::MissingVersionTag),
        ),
        judged_page(Some(anchors), true, None, outcome) == Err::<Result<HitView, Miss>, _>(
            PageErrorView::Fault(Fault::InvalidVersionTag),
        ),
        judged_page(Some(anchors), true, Some(versions), Err(message)) == Err::<
            Result<HitView, Miss>,
            _,
        >(PageErrorView::Pattern { message }),
        judged_page(Some(anchors), true, Some(versions), Ok(flags)) == Ok::<_, PageErrorView>(
            chosen_hit(links(anchors), flags, versions),
        ),
{
}

/// What contracts say of a release, an element and the outcome of a search is all that is in them.
pub proof fn law_page_views_keep_everything(
    hit: Hit,
    element: Element,
    miss: Miss,
    fault: Fault,
    message: String,
)
    ensures
        hit@.version == hit.version@,
        hit@.download_url == hit.download_url@,
        element.deep_view().0 == element.attribute.deep_view(),
        element.deep_view().1 == element.text.deep_view(),
        hit_outcome(Ok(hit)) == Ok::<_, Miss>(hit@),
        hit_outcome(Err(miss)) == Err::<HitView, _>(miss),
        page_outcome(Ok(Ok(hit))) == Ok::<_, PageErrorView>(Ok::<_, Miss>(hit@)),
        page_outcome(Ok(Err(miss))) == Ok::<_, PageErrorView>(Err::<HitView, _>(miss)),
        page_outcome(Err(PageError::Pattern { message })) == Err::<Result<HitView, Miss>, _>(
            PageErrorView::Pattern { message: message@ },
        ),
        page_outcome(Err(PageError::Fault(fault))) == Err::<Result<HitView, Miss>, _>(
            PageErrorView::Fault(fault),
        ),
{
}

proof fn lemma_links_append(first: Seq<ElementView>, second: Seq<ElementView>)
    ensures
        links(first + second) == links(first) + links(second),
    decreases second.len(),
{
    if second.len() == 0 {
        assert(first + second =~= first);
    } else {
        lemma_links_append(first, second.drop_last());
        assert((first + second).drop_last() =~= first + second.drop_last());
        assert((first + second).last() == second.last());
    }
}

proof fn lemma_links_single(element: ElementView)
    ensures
        links(seq![element]) == match element.0 {
            Some(link) => seq![link],
            None => Seq::empty(),
        },
{
    let before = seq![element].drop_last();
    assert(before.len() == 0);
    assert(links(before) =~= Seq::empty());
    assert(seq![element].last() == element);
    if let Some(link) = element.0 {
        assert(links(seq![element]) =~= seq![link]);
    }
}

proof fn lemma_links_come_from_elements(elements: Seq<ElementView>)
    ensures
        forall|m: int|
            #![trigger links(elements)[m]]
            0 <= m < links(elements).len() ==> exists|j: int|
                0 <= j < elements.len() && (#[trigger] elements[j]).0 == Some(links(elements)[m]),
    decreases elements.len(),
{
    if elements.len() > 0 {
        let rest = elements.drop_last();
        lemma_links_come_from_elements(rest);
        assert forall|m: int|
            #![trigger links(elements)[m]]
            0 <= m < links(elements).len() implies exists|j: int|
            0 <= j < elements.len() && (#[trigger] elements[j]).0 == Some(links(elements)[m]) by {
            if m < links(rest).len() {
                assert(links(elements)[m] == links(rest)[m]);
                let j = choose|j: int|
                    0 <= j < rest.len() && (#[trigger] rest[j]).0 == Some(links(rest)[m]);
                assert(elements[j] == rest[j]);
            } else {
                assert(elements[elements.len() - 1].0 == Some(links(elements)[m]));
            }
        }
    }
}

proof fn lemma_first_set(flags: Seq<bool>)
    ensures
        first_set(flags) <= flags.len(),
        first_set(flags) < flags.len() ==> flags[first_set(flags) as int],
        forall|j: int| 0 <= j < first_set(flags) ==> !flags[j],
    decreases flags.len(),
{
    if flags.len() > 0 && !flags[0] {
        let rest = flags.drop_first();
        lemma_first_set(rest);
        assert forall|j: int| 0 <= j < first_set(flags) implies !flags[j] by {
            if j > 0 {
                assert(!rest[j - 1]);
            }
        }
    }
}

} // verus!
