use vstd::prelude::*;
use crate::dates::{
    announce_time, fmt_date_ms, fmt_datetime_ms, iso_date_ms, iso_datetime_ms, now_ms,
    parse_fmt_date_ms, parse_fmt_datetime_ms, parse_iso_date_ms, parse_iso_datetime_ms,
    spec_delay_ms,
};
use crate::parsers::utils::{reverse_chapters, spec_finalize, spec_make_link, try_make_link};
use crate::structs::{Chapter, ChapterV, ParseError, Target, TargetTags};
use crate::strutil::str_contains_char;

verus! {

#[verifier::external_type_specification]
#[verifier::external_body]
pub struct ExHtml(scraper::Html);

#[verifier::external_type_specification]
#[verifier::external_body]
pub struct ExSelector(scraper::Selector);

#[verifier::external_type_specification]
#[verifier::external_body]
pub struct ExElementRef<'a>(scraper::ElementRef<'a>);

/// Whether a CSS selector string is valid: a function of the string alone.
pub uninterp spec fn selector_ok(s: Seq<char>) -> bool;

/// Relies on scraper's `Selector::parse`: whether a selector string parses
/// is a function of the string alone.
#[verifier::external_body]
fn selector_parse(s: &str) -> (r: Option<scraper::Selector>)
    ensures
        r is Some <==> selector_ok(s@),
{
    scraper::Selector::parse(s).ok()
}

/// Compiles a CSS selector string, failing on invalid ones.
pub fn make_selector(string: &str) -> (r: Result<scraper::Selector, ParseError>)
    ensures
        r is Ok <==> selector_ok(string@),
        r is Err ==> r == Err::<scraper::Selector, ParseError>(ParseError::BadSelector),
{
    match selector_parse(string) {
        Some(s) => Ok(s),
        None => Err(ParseError::BadSelector),
    }
}

/// Relies on scraper's `Html::parse_document`; HTML parsing is lenient and
/// yields a document for every input, so nothing is promised of it.
#[verifier::external_body]
pub(crate) fn parse_document(source: &str) -> scraper::Html {
    scraper::Html::parse_document(source)
}

/// Relies on `Html::select`, collected to a list; which elements a
/// document yields for a selector is not modelled.
#[verifier::external_body]
fn select_all<'a>(html: &'a scraper::Html, selector: &scraper::Selector) -> Vec<
    scraper::ElementRef<'a>,
> {
    html.select(selector).collect()
}

/// Relies on `Html::select`; the first matching element, if any.
#[verifier::external_body]
pub(crate) fn select_first_doc<'a>(
    html: &'a scraper::Html,
    selector: &scraper::Selector,
) -> Option<scraper::ElementRef<'a>> {
    html.select(selector).next()
}

/// Relies on `ElementRef::select`; the first matching sub-element, if any.
#[verifier::external_body]
fn select_first_in<'a>(
    element: &scraper::ElementRef<'a>,
    selector: &scraper::Selector,
) -> Option<scraper::ElementRef<'a>> {
    element.select(selector).next()
}

/// Relies on `ElementRef` being `Copy`.
#[verifier::external_body]
fn copy_element<'a>(element: &scraper::ElementRef<'a>) -> scraper::ElementRef<'a> {
    *element
}

/// Relies on `Element::attr`; the attribute's value on the element itself.
#[verifier::external_body]
fn element_attr(element: &scraper::ElementRef<'_>, attribute: &str) -> Option<String> {
    element.value().attr(attribute).map(String::from)
}

/// Relies on `ElementRef::text`: the element's concatenated text content.
#[verifier::external_body]
pub(crate) fn element_text(element: &scraper::ElementRef<'_>) -> String {
    element.text().collect::<String>()
}

/// The sub-element a field reads from: the first match of the field's
/// selector, or the chapter element itself when no selector is configured.
/// `None` when the selector is invalid or matches nothing.
pub fn get_sub_element<'a>(element: &scraper::ElementRef<'a>, tag: &Option<String>) -> Option<
    scraper::ElementRef<'a>,
> {
    match tag {
        Some(t) => match make_selector(t.as_str()) {
            Ok(selector) => select_first_in(element, &selector),
            Err(_) => None,
        },
        None => Some(copy_element(element)),
    }
}

/// Resolves one field of a chapter element: locate the sub-element, then
/// read the named attribute, or the text content when no attribute is
/// configured. `None` is a resolution failure.
pub fn get_value(
    element: &scraper::ElementRef<'_>,
    tag: &Option<String>,
    attribute: &Option<String>,
) -> Option<String> {
    let sub = match get_sub_element(element, tag) {
        Some(s) => s,
        None => {
            return None;
        },
    };
    match attribute {
        Some(a) => element_attr(&sub, a.as_str()),
        None => Some(element_text(&sub)),
    }
}

/// The raw texts one chapter element resolved to. A `date_text` of `None`
/// means no date was configured: the current time stands in.
pub struct RawRow {
    pub number: String,
    pub title: String,
    pub date_text: Option<String>,
    pub url: String,
}

/// The mathematical value of a raw row.
pub struct RawRowV {
    pub number: Seq<char>,
    pub title: Seq<char>,
    pub date_text: Option<Seq<char>>,
    pub url: Seq<char>,
}

impl View for RawRow {
    type V = RawRowV;

    open spec fn view(&self) -> RawRowV {
        RawRowV {
            number: self.number@,
            title: self.title@,
            date_text: match self.date_text {
                Some(s) => Some(s@),
                None => None,
            },
            url: self.url@,
        }
    }
}

impl DeepView for RawRow {
    type V = RawRowV;

    open spec fn deep_view(&self) -> RawRowV {
        self.view()
    }
}

/// Resolves every configured field of one chapter element. `None` when any
/// field fails: that chapter is skipped, not fatal to the batch.
pub fn extract_row(element: &scraper::ElementRef<'_>, tags: &TargetTags) -> Option<RawRow> {
    let number = match get_value(element, &tags.number_tag, &tags.number_attribute) {
        Some(s) => s,
        None => {
            return None;
        },
    };
    let title = match get_value(element, &tags.title_tag, &tags.title_attribute) {
        Some(s) => s,
        None => {
            return None;
        },
    };
    let date_text = if tags.date_tag.is_none() && tags.date_attribute.is_none() {
        None
    } else {
        match get_value(element, &tags.date_tag, &tags.date_attribute) {
            Some(s) => Some(s),
            None => {
                return None;
            },
        }
    };
    let url = match get_value(element, &tags.url_tag, &tags.url_attribute) {
        Some(s) => s,
        None => {
            return None;
        },
    };
    Some(RawRow { number, title, date_text, url })
}

/// The instant a date text names: texts holding a `:` carry a time of day
/// and parse as datetimes, others as bare dates at midnight; with the
/// configured strftime pattern when one is given, else as ISO 8601.
pub open spec fn spec_html_date(s: Seq<char>, fmt: Option<Seq<char>>) -> Option<i64> {
    if s.contains(':') {
        match fmt {
            Some(f) => fmt_datetime_ms(f, s),
            None => iso_datetime_ms(s),
        }
    } else {
        match fmt {
            Some(f) => fmt_date_ms(f, s),
            None => iso_date_ms(s),
        }
    }
}

/// Parses a date text, as `spec_html_date` says.
pub fn parse_string_to_datetime(date_string: &str, format: &Option<String>) -> (r: Result<
    i64,
    ParseError,
>)
    ensures
        match r {
            Ok(t) => spec_html_date(
                date_string@,
                match *format {
                    Some(f) => Some(f@),
                    None => None,
                },
            ) == Some(t),
            Err(e) => spec_html_date(
                date_string@,
                match *format {
                    Some(f) => Some(f@),
                    None => None,
                },
            ) is None && e == ParseError::BadDate,
        },
{
    let parsed = if str_contains_char(date_string, ':') {
        match format {
            Some(f) => parse_fmt_datetime_ms(f.as_str(), date_string),
            None => parse_iso_datetime_ms(date_string),
        }
    } else {
        match format {
            Some(f) => parse_fmt_date_ms(f.as_str(), date_string),
            None => parse_iso_date_ms(date_string),
        }
    };
    match parsed {
        Some(t) => Ok(t),
        None => Err(ParseError::BadDate),
    }
}

/// The date format of a target's tags, as a plain value.
pub open spec fn spec_tags_fmt(t: Target) -> Option<Seq<char>>
    recommends
        t.tags is Some,
{
    match t.tags->0.date_format {
        Some(f) => Some(f@),
        None => None,
    }
}

/// The chapter one resolved row yields: `None` when its date text does not
/// parse, its URL cannot be resolved, or its announcement time leaves the
/// timestamp range; such a chapter is skipped.
pub open spec fn spec_html_chapter(t: Target, row: RawRowV, now: int) -> Option<ChapterV>
    recommends
        t.tags is Some,
{
    let date = match row.date_text {
        None => Some(now),
        Some(s) => match spec_html_date(s, spec_tags_fmt(t)) {
            Some(d) => Some(d as int),
            None => None,
        },
    };
    match date {
        None => None,
        Some(date) => {
            let url = match t.base_url {
                Some(b) => spec_make_link(b@, row.url),
                None => Some(row.url),
            };
            match url {
                None => None,
                Some(u) => {
                    if !(i64::MIN <= date <= i64::MAX) || date + spec_delay_ms(t.delay)
                        > i64::MAX {
                        None
                    } else {
                        Some(
                            ChapterV {
                                manga: t.name@,
                                number: row.number,
                                title: row.title,
                                date: date,
                                url: u,
                                logged_at: None,
                                announced_at: date + spec_delay_ms(t.delay),
                            },
                        )
                    }
                },
            }
        },
    }
}

/// The chapters of a list of resolution outcomes, in document order:
/// failed rows and rows whose chapter cannot be built are dropped.
pub open spec fn spec_html_chapters(t: Target, rows: Seq<Option<RawRowV>>, now: int) -> Seq<
    ChapterV,
>
    recommends
        t.tags is Some,
    decreases rows.len(),
{
    if rows.len() == 0 {
        Seq::empty()
    } else {
        let init = spec_html_chapters(t, rows.drop_last(), now);
        match rows.last() {
            None => init,
            Some(row) => match spec_html_chapter(t, row, now) {
                Some(c) => init.push(c),
                None => init,
            },
        }
    }
}

/// Builds the chapter of one resolved row, as `spec_html_chapter` says.
fn html_chapter(t: &Target, row: &RawRow, now: i64) -> (r: Option<Chapter>)
    requires
        t.tags is Some,
    ensures
        match r {
            Some(c) => spec_html_chapter(*t, row@, now as int) == Some(c@),
            None => spec_html_chapter(*t, row@, now as int) is None,
        },
{
    let tags = match &t.tags {
        Some(tg) => tg,
        None => {
            proof {
                assert(false);
            }
            return None;
        },
    };
    let date = match &row.date_text {
        None => now,
        Some(s) => match parse_string_to_datetime(s.as_str(), &tags.date_format) {
            Ok(d) => d,
            Err(_) => {
                return None;
            },
        },
    };
    let url = match &t.base_url {
        Some(b) => match try_make_link(b.as_str(), row.url.as_str()) {
            Some(u) => u,
            None => {
                return None;
            },
        },
        None => row.url.clone(),
    };
    let announced_at = match announce_time(date, t.delay) {
        Some(a) => a,
        None => {
            return None;
        },
    };
    Some(
        Chapter {
            manga: t.name.clone(),
            number: row.number.clone(),
            title: row.title.clone(),
            date: date,
            url: url,
            logged_at: None,
            announced_at: announced_at,
        },
    )
}

/// Assembles chapters out of per-element resolution outcomes, in document
/// order, as `spec_html_chapters` says. Public so that what follows the
/// scraper calls is checkable on any row list.
pub fn assemble_chapters(target: &Target, rows: &Vec<Option<RawRow>>, now: i64) -> (r: Vec<
    Chapter,
>)
    requires
        target.tags is Some,
    ensures
        r.deep_view() == spec_html_chapters(*target, rows.deep_view(), now as int),
{
    let n = rows.len();
    let mut out: Vec<Chapter> = Vec::new();
    let mut i: usize = 0;
    proof {
        assert(rows.deep_view().subrange(0, 0) =~= Seq::<Option<RawRowV>>::empty());
    }
    while i < n
        invariant
            n == rows@.len(),
            rows.deep_view().len() == n,
            i <= n,
            target.tags is Some,
            out.deep_view() == spec_html_chapters(
                *target,
                rows.deep_view().subrange(0, i as int),
                now as int,
            ),
        decreases n - i,
    {
        proof {
            assert(rows.deep_view().subrange(0, i + 1).drop_last() =~= rows.deep_view().subrange(
                0,
                i as int,
            ));
            assert(rows.deep_view().subrange(0, i + 1).last() == rows.deep_view()[i as int]);
            assert(rows.deep_view()[i as int] == rows@[i as int].deep_view());
        }
        let ghost pre = out.deep_view();
        match &rows[i] {
            Some(row) => {
                match html_chapter(target, row, now) {
                    Some(c) => {
                        let ghost cv = c@;
                        out.push(c);
                        proof {
                            assert(out.deep_view() =~= pre.push(cv));
                        }
                    },
                    None => {},
                }
            },
            None => {},
        }
        i = i + 1;
    }
    proof {
        assert(rows.deep_view().subrange(0, n as int) =~= rows.deep_view());
    }
    out
}

/// Parses a chapter list out of an HTML page under a target's tag
/// configuration. Fatal only when the chapters selector is invalid; a
/// chapter element with any unresolvable field is skipped.
pub fn parse_html(target: &Target, source: &str) -> (r: Result<Vec<Chapter>, ParseError>)
    requires
        target.tags is Some,
    ensures
        r is Err <==> !selector_ok(target.tags->0.chapters_tag@),
        r is Err ==> r == Err::<Vec<Chapter>, ParseError>(ParseError::BadSelector),
        r is Ok ==> exists|rows: Seq<Option<RawRowV>>, now: int|
            (r->Ok_0).deep_view() == spec_finalize(
                target.ascending_source,
                #[trigger] spec_html_chapters(*target, rows, now),
            ),
        r matches Ok(v) ==> forall|j: int|
            0 <= j < v.deep_view().len() ==> {
                let c = #[trigger] v.deep_view()[j];
                &&& c.announced_at == c.date + spec_delay_ms(target.delay)
                &&& c.manga == target.name@
                &&& c.logged_at is None
            },
{
    let tags = match &target.tags {
        Some(tg) => tg,
        None => {
            proof {
                assert(false);
            }
            return Err(ParseError::BadSelector);
        },
    };
    let html = parse_document(source);
    let selector = match make_selector(tags.chapters_tag.as_str()) {
        Ok(s) => s,
        Err(e) => {
            return Err(e);
        },
    };
    let elements = select_all(&html, &selector);
    let mut rows: Vec<Option<RawRow>> = Vec::new();
    let n = elements.len();
    let mut i: usize = 0;
    while i < n
        invariant
            n == elements@.len(),
            i <= n,
        decreases n - i,
    {
        rows.push(extract_row(&elements[i], tags));
        i = i + 1;
    }
    let now = now_ms();
    let chapters = assemble_chapters(target, &rows, now);
    let out = if !target.ascending_source {
        reverse_chapters(chapters)
    } else {
        chapters
    };
    proof {
        let rws = rows.deep_view();
        let nw = now as int;
        assert(out.deep_view() == spec_finalize(
            target.ascending_source,
            spec_html_chapters(*target, rws, nw),
        ));
        lemma_html_announce_delay(*target, rws, nw);
        let base = spec_html_chapters(*target, rws, nw);
        assert forall|j: int| 0 <= j < out.deep_view().len() implies {
            let c = #[trigger] out.deep_view()[j];
            &&& c.announced_at == c.date + spec_delay_ms(target.delay)
            &&& c.manga == target.name@
            &&& c.logged_at is None
        } by {
            if target.ascending_source {
                assert(out.deep_view()[j] == base[j]);
            } else {
                assert(out.deep_view()[j] == base[base.len() - 1 - j]);
            }
        }
    }
    Ok(out)
}

/// A row that failed resolution contributes nothing: the chapters of the
/// row list equal the chapters of the list without it.
pub proof fn lemma_html_failed_row_excluded(
    t: Target,
    rows: Seq<Option<RawRowV>>,
    now: int,
    i: int,
)
    requires
        t.tags is Some,
        0 <= i < rows.len(),
        rows[i] is None,
    ensures
        spec_html_chapters(t, rows, now) == spec_html_chapters(t, rows.remove(i), now),
    decreases rows.len(),
{
    if i == rows.len() - 1 {
        assert(rows.remove(i) =~= rows.drop_last());
    } else {
        lemma_html_failed_row_excluded(t, rows.drop_last(), now, i);
        assert(rows.remove(i).drop_last() =~= rows.drop_last().remove(i));
        assert(rows.remove(i).last() == rows.last());
    }
}

/// Every assembled chapter announces at its date plus the configured
/// delay; with no delay, or a delay of zero days, at its date exactly.
pub proof fn lemma_html_announce_delay(t: Target, rows: Seq<Option<RawRowV>>, now: int)
    requires
        t.tags is Some,
    ensures
        forall|j: int|
            0 <= j < spec_html_chapters(t, rows, now).len() ==> {
                let c = #[trigger] spec_html_chapters(t, rows, now)[j];
                &&& c.announced_at == c.date + spec_delay_ms(t.delay)
                &&& c.manga == t.name@
                &&& c.logged_at is None
                &&& (t.delay is None || t.delay == Some(0u8) ==> c.announced_at == c.date)
            },
    decreases rows.len(),
{
    if rows.len() > 0 {
        lemma_html_announce_delay(t, rows.drop_last(), now);
    }
}

} // verus!
