use vstd::prelude::*;
use crate::dates::{
    spec_delay_ms, spec_has_hour, rfc2822_ms, rfc3339_ms, fmt_datetime_ms, fmt_date_ms,
    announce_time, has_hour_specifier, parse_date_rfc2822, parse_date_rfc3339,
    parse_date_unix_seconds, parse_date_unix_millis, parse_date_unix_nanos, parse_fmt_datetime_ms,
    parse_fmt_date_ms, MIN_UNIX_SEC, MAX_UNIX_SEC,
};
use crate::jsonval::{jeq, json_eq, jv_get, jv_to_text, spec_dot_get, spec_jv_string, JsonValue};
use crate::parsers::utils::{
    reverse_chapters, spec_finalize, spec_make_link, try_make_link,
};
use crate::structs::{Chapter, ChapterV, JsonDateTimeFormat, ParseError, Target};

verus! {

/// One skip condition applies to an element: the value at its dot-path
/// exists and equals the configured value.
pub open spec fn spec_matches_skip(cond: (String, JsonValue), elem: JsonValue) -> bool {
    match spec_dot_get(elem, cond.0@) {
        Some(v) => jeq(v, cond.1),
        None => false,
    }
}

/// An element is dropped when any configured skip condition applies to it.
pub open spec fn spec_skip_elem(skip: Seq<(String, JsonValue)>, elem: JsonValue) -> bool {
    exists|i: int| 0 <= i < skip.len() && spec_matches_skip(#[trigger] skip[i], elem)
}

/// Decides `spec_skip_elem`.
fn elem_skipped(skip: &Vec<(String, JsonValue)>, elem: &JsonValue) -> (r: bool)
    ensures
        r == spec_skip_elem(skip@, *elem),
{
    let n = skip.len();
    let mut i: usize = 0;
    while i < n
        invariant
            n == skip@.len(),
            i <= n,
            forall|j: int| 0 <= j < i ==> !spec_matches_skip(#[trigger] skip@[j], *elem),
        decreases n - i,
    {
        match jv_get(elem, skip[i].0.as_str()) {
            Some(v) => {
                if json_eq(v, &skip[i].1) {
                    assert(spec_matches_skip(skip@[i as int], *elem));
                    return true;
                }
            },
            None => {},
        }
        assert(!spec_matches_skip(skip@[i as int], *elem));
        i = i + 1;
    }
    false
}

/// The texts the listed dot-paths contribute to a field, in order;
/// `None` when any path is absent or names a non-text value.
pub open spec fn spec_parts(elem: JsonValue, keys: Seq<String>) -> Option<Seq<Seq<char>>>
    decreases keys.len(),
{
    if keys.len() == 0 {
        Some(Seq::empty())
    } else {
        match spec_parts(elem, keys.drop_last()) {
            None => None,
            Some(init) => match spec_dot_get(elem, keys.last()@) {
                Some(v) => match spec_jv_string(v) {
                    Some(t) => Some(init.push(t)),
                    None => None,
                },
                None => None,
            },
        }
    }
}

/// Joins parts with single spaces, dropping empty parts.
pub open spec fn spec_join_nonempty(parts: Seq<Seq<char>>) -> Seq<char>
    decreases parts.len(),
{
    if parts.len() == 0 {
        Seq::empty()
    } else {
        let rest = spec_join_nonempty(parts.drop_last());
        let last = parts.last();
        if last.len() == 0 {
            rest
        } else if rest.len() == 0 {
            last
        } else {
            rest + seq![' '] + last
        }
    }
}

/// The text a field mixes out of its dot-paths: every path resolved,
/// rendered, and space-joined with empty renderings dropped.
pub open spec fn spec_mixed(elem: JsonValue, keys: Seq<String>) -> Option<Seq<char>> {
    match spec_parts(elem, keys) {
        Some(parts) => Some(spec_join_nonempty(parts)),
        None => None,
    }
}

/// A failed prefix makes the whole part list fail.
proof fn lemma_parts_prefix_none(elem: JsonValue, keys: Seq<String>, i: int)
    requires
        0 <= i <= keys.len(),
        spec_parts(elem, keys.subrange(0, i)) is None,
    ensures
        spec_parts(elem, keys) is None,
    decreases keys.len() - i,
{
    if i == keys.len() {
        assert(keys.subrange(0, i) =~= keys);
    } else {
        assert(keys.subrange(0, i + 1).drop_last() =~= keys.subrange(0, i));
        assert(keys.subrange(0, i + 1).last() == keys[i]);
        lemma_parts_prefix_none(elem, keys, i + 1);
    }
}

/// Builds the mixed text of a field, as `spec_mixed` says.
fn mixed(elem: &JsonValue, keys: &Vec<String>) -> (r: Option<String>)
    ensures
        match r {
            Some(s) => spec_mixed(*elem, keys@) == Some(s@),
            None => spec_mixed(*elem, keys@) is None,
        },
{
    let n = keys.len();
    let mut acc = String::new();
    let mut i: usize = 0;
    proof {
        assert(keys@.subrange(0, 0) =~= Seq::<String>::empty());
    }
    while i < n
        invariant
            n == keys@.len(),
            i <= n,
            spec_parts(*elem, keys@.subrange(0, i as int)) matches Some(parts) && acc@
                == spec_join_nonempty(parts),
        decreases n - i,
    {
        proof {
            assert(keys@.subrange(0, i + 1).drop_last() =~= keys@.subrange(0, i as int));
            assert(keys@.subrange(0, i + 1).last() == keys@[i as int]);
        }
        let part = match jv_get(elem, keys[i].as_str()) {
            Some(v) => jv_to_text(v),
            None => None,
        };
        match part {
            None => {
                proof {
                    lemma_parts_prefix_none(*elem, keys@, i + 1);
                }
                return None;
            },
            Some(p) => {
                let ghost old_parts = spec_parts(*elem, keys@.subrange(0, i as int))->0;
                if p.unicode_len() > 0 {
                    if acc.unicode_len() == 0 {
                        acc = p;
                    } else {
                        proof {
                            reveal_strlit(" ");
                        }
                        acc.append(" ");
                        acc.append(p.as_str());
                    }
                } else {
                }
                proof {
                    assert(spec_parts(*elem, keys@.subrange(0, i + 1)) matches Some(q) && q
                        == old_parts.push(p@));
                    assert(old_parts.push(p@).drop_last() =~= old_parts);
                }
            },
        }
        i = i + 1;
    }
    proof {
        assert(keys@.subrange(0, n as int) =~= keys@);
    }
    Some(acc)
}

/// The instant a date value names under one configured format, in epoch
/// milliseconds; `None` when the value has the wrong kind or does not parse.
pub open spec fn spec_format_date(f: JsonDateTimeFormat, v: JsonValue) -> Option<int> {
    match f {
        JsonDateTimeFormat::UnixSec => match v {
            JsonValue::Int(n) => if MIN_UNIX_SEC <= n <= MAX_UNIX_SEC {
                Some(n * 1000)
            } else {
                None
            },
            _ => None,
        },
        JsonDateTimeFormat::UnixMilli => match v {
            JsonValue::Int(n) => Some(n as int),
            _ => None,
        },
        JsonDateTimeFormat::UnixNano => match v {
            JsonValue::Int(n) => Some(n as int / 1_000_000),
            _ => None,
        },
        JsonDateTimeFormat::Rfc2822 => match v {
            JsonValue::Str(s) => match rfc2822_ms(s@) {
                Some(t) => Some(t as int),
                None => None,
            },
            _ => None,
        },
        JsonDateTimeFormat::Rfc3339 => match v {
            JsonValue::Str(s) => match rfc3339_ms(s@) {
                Some(t) => Some(t as int),
                None => None,
            },
            _ => None,
        },
        JsonDateTimeFormat::StringFormat(f) => match v {
            JsonValue::Str(s) => {
                let parsed = if spec_has_hour(f@) {
                    fmt_datetime_ms(f@, s@)
                } else {
                    fmt_date_ms(f@, s@)
                };
                match parsed {
                    Some(t) => Some(t as int),
                    None => None,
                }
            },
            _ => None,
        },
    }
}

/// The date a chapter element carries: the value at the date dot-path,
/// read under the configured format, RFC 3339 when none is configured.
pub open spec fn spec_elem_date(
    elem: JsonValue,
    key: Seq<char>,
    fmt: Option<JsonDateTimeFormat>,
) -> Option<int> {
    match spec_dot_get(elem, key) {
        Some(v) => match fmt {
            Some(f) => spec_format_date(f, v),
            None => spec_format_date(JsonDateTimeFormat::Rfc3339, v),
        },
        None => None,
    }
}

/// Reads a date value under one format, as `spec_format_date` says.
fn format_date(f: &JsonDateTimeFormat, v: &JsonValue) -> (r: Option<i64>)
    ensures
        match r {
            Some(t) => spec_format_date(*f, *v) == Some(t as int),
            None => spec_format_date(*f, *v) is None,
        },
{
    match f {
        JsonDateTimeFormat::UnixSec => match v {
            JsonValue::Int(n) => parse_date_unix_seconds(*n).ok(),
            _ => None,
        },
        JsonDateTimeFormat::UnixMilli => match v {
            JsonValue::Int(n) => parse_date_unix_millis(*n).ok(),
            _ => None,
        },
        JsonDateTimeFormat::UnixNano => match v {
            JsonValue::Int(n) => parse_date_unix_nanos(*n).ok(),
            _ => None,
        },
        JsonDateTimeFormat::Rfc2822 => match v {
            JsonValue::Str(s) => parse_date_rfc2822(s.as_str()).ok(),
            _ => None,
        },
        JsonDateTimeFormat::Rfc3339 => match v {
            JsonValue::Str(s) => parse_date_rfc3339(s.as_str()).ok(),
            _ => None,
        },
        JsonDateTimeFormat::StringFormat(f) => match v {
            JsonValue::Str(s) => {
                if has_hour_specifier(f.as_str()) {
                    parse_fmt_datetime_ms(f.as_str(), s.as_str())
                } else {
                    parse_fmt_date_ms(f.as_str(), s.as_str())
                }
            },
            _ => None,
        },
    }
}

/// The URL a chapter element carries: the text at the url dot-path,
/// resolved against the base URL when one is configured.
pub open spec fn spec_elem_url(
    elem: JsonValue,
    key: Seq<char>,
    base: Option<String>,
) -> Option<Seq<char>> {
    match spec_dot_get(elem, key) {
        Some(v) => match spec_jv_string(v) {
            Some(u) => match base {
                Some(b) => spec_make_link(b@, u),
                None => Some(u),
            },
            None => None,
        },
        None => None,
    }
}

/// The chapter one array element yields, `None` when a field of it cannot
/// be resolved; such an element is skipped, not fatal.
pub open spec fn spec_json_chapter(t: Target, elem: JsonValue) -> Option<ChapterV>
    recommends
        t.keys is Some,
{
    let keys = t.keys->0;
    match spec_mixed(elem, keys.number@) {
        None => None,
        Some(number) => match spec_mixed(elem, keys.title@) {
            None => None,
            Some(title) => match spec_elem_date(elem, keys.date@, keys.date_format) {
                None => None,
                Some(date) => match spec_elem_url(elem, keys.url@, t.base_url) {
                    None => None,
                    Some(url) => {
                        if !(i64::MIN <= date <= i64::MAX) || date + spec_delay_ms(t.delay)
                            > i64::MAX {
                            None
                        } else {
                            Some(
                                ChapterV {
                                    manga: t.name@,
                                    number: number,
                                    title: title,
                                    date: date,
                                    url: url,
                                    logged_at: None,
                                    announced_at: date + spec_delay_ms(t.delay),
                                },
                            )
                        }
                    },
                },
            },
        },
    }
}

/// Builds the chapter of one element, as `spec_json_chapter` says.
fn json_chapter(t: &Target, elem: &JsonValue) -> (r: Option<Chapter>)
    requires
        t.keys is Some,
    ensures
        match r {
            Some(c) => spec_json_chapter(*t, *elem) == Some(c@),
            None => spec_json_chapter(*t, *elem) is None,
        },
{
    let keys = match &t.keys {
        Some(k) => k,
        None => {
            proof {
                assert(false);
            }
            return None;
        },
    };
    let number = match mixed(elem, &keys.number) {
        Some(s) => s,
        None => {
            return None;
        },
    };
    let title = match mixed(elem, &keys.title) {
        Some(s) => s,
        None => {
            return None;
        },
    };
    let date_value = match jv_get(elem, keys.date.as_str()) {
        Some(v) => v,
        None => {
            return None;
        },
    };
    let date = match &keys.date_format {
        Some(f) => format_date(f, date_value),
        None => format_date(&JsonDateTimeFormat::Rfc3339, date_value),
    };
    let date = match date {
        Some(d) => d,
        None => {
            return None;
        },
    };
    let url_value = match jv_get(elem, keys.url.as_str()) {
        Some(v) => v,
        None => {
            return None;
        },
    };
    let url_text = match jv_to_text(url_value) {
        Some(u) => u,
        None => {
            return None;
        },
    };
    let url = match &t.base_url {
        Some(b) => match try_make_link(b.as_str(), url_text.as_str()) {
            Some(u) => u,
            None => {
                return None;
            },
        },
        None => url_text,
    };
    let announced_at = match announce_time(date, t.delay) {
        Some(a) => a,
        None => {
            return None;
        },
    };
    Some(
        Chapter {
            manga: t.name.clone(),
            number: number,
            title: title,
            date: date,
            url: url,
            logged_at: None,
            announced_at: announced_at,
        },
    )
}

/// The chapters of an element array, in document order: skipped elements
/// and elements with unresolvable fields dropped, the rest built by
/// `spec_json_chapter`.
pub open spec fn spec_json_chapters(t: Target, elems: Seq<JsonValue>) -> Seq<ChapterV>
    recommends
        t.keys is Some,
    decreases elems.len(),
{
    if elems.len() == 0 {
        Seq::empty()
    } else {
        let init = spec_json_chapters(t, elems.drop_last());
        let e = elems.last();
        if spec_skip_elem(t.keys->0.skip@, e) {
            init
        } else {
            match spec_json_chapter(t, e) {
                Some(c) => init.push(c),
                None => init,
            }
        }
    }
}

/// What the JSON parser yields in document order, before the ordering
/// correction.
pub open spec fn spec_parse_json_core(t: Target, doc: JsonValue) -> Result<
    Seq<ChapterV>,
    ParseError,
>
    recommends
        t.keys is Some,
{
    match spec_dot_get(doc, t.keys->0.chapters@) {
        None => Err(ParseError::ChaptersMissing),
        Some(v) => match v {
            JsonValue::Arr(elems) => Ok(spec_json_chapters(t, elems@)),
            _ => Err(ParseError::ChaptersNotArray),
        },
    }
}

/// What the JSON parser yields on one target and one document.
pub open spec fn spec_parse_json(t: Target, doc: JsonValue) -> Result<Seq<ChapterV>, ParseError>
    recommends
        t.keys is Some,
{
    match spec_parse_json_core(t, doc) {
        Ok(s) => Ok(spec_finalize(t.ascending_source, s)),
        Err(e) => Err(e),
    }
}

/// Parses a chapter list out of a JSON document under a target's key
/// configuration. Fatal only when the chapters array itself cannot be
/// found; every per-element failure just drops that element.
pub fn parse_json(target: &Target, document: &JsonValue) -> (r: Result<Vec<Chapter>, ParseError>)
    requires
        target.keys is Some,
    ensures
        match r {
            Ok(v) => spec_parse_json(*target, *document) matches Ok(s) && v.deep_view() == s,
            Err(e) => spec_parse_json(*target, *document) == Err::<Seq<ChapterV>, ParseError>(e),
        },
{
    let keys = match &target.keys {
        Some(k) => k,
        None => {
            proof {
                assert(false);
            }
            return Err(ParseError::ChaptersMissing);
        },
    };
    let chapters_value = match jv_get(document, keys.chapters.as_str()) {
        Some(v) => v,
        None => {
            return Err(ParseError::ChaptersMissing);
        },
    };
    let elems = match chapters_value {
        JsonValue::Arr(elems) => elems,
        _ => {
            return Err(ParseError::ChaptersNotArray);
        },
    };
    let n = elems.len();
    let mut out: Vec<Chapter> = Vec::new();
    let mut i: usize = 0;
    proof {
        assert(elems@.subrange(0, 0) =~= Seq::<JsonValue>::empty());
    }
    while i < n
        invariant
            n == elems@.len(),
            i <= n,
            target.keys is Some,
            *keys == target.keys->0,
            out.deep_view() == spec_json_chapters(*target, elems@.subrange(0, i as int)),
        decreases n - i,
    {
        proof {
            assert(elems@.subrange(0, i + 1).drop_last() =~= elems@.subrange(0, i as int));
            assert(elems@.subrange(0, i + 1).last() == elems@[i as int]);
        }
        let elem = &elems[i];
        let ghost pre = out.deep_view();
        if !elem_skipped(&keys.skip, elem) {
            match json_chapter(target, elem) {
                Some(c) => {
                    let ghost cv = c@;
                    out.push(c);
                    proof {
                        assert(out.deep_view() =~= pre.push(cv));
                    }
                },
                None => {},
            }
        }
        i = i + 1;
    }
    proof {
        assert(elems@.subrange(0, n as int) =~= elems@);
    }
    if !target.ascending_source {
        out = reverse_chapters(out);
    }
    Ok(out)
}

/// The ascending flag only picks between the document-order chapters and
/// their exact reverse; with `lemma_finalize_reverses`, turning the flag
/// off yields the reverse of what turning it on yields.
pub proof fn lemma_parse_json_reversal(t: Target, doc: JsonValue)
    requires
        t.keys is Some,
    ensures
        match (spec_parse_json(t, doc), spec_parse_json_core(t, doc)) {
            (Ok(s), Ok(c)) => s == spec_finalize(t.ascending_source, c),
            (Err(e1), Err(e2)) => e1 == e2,
            _ => false,
        },
{
}

/// An element matching a configured skip condition contributes nothing:
/// the chapters of the array equal the chapters of the array without it.
pub proof fn lemma_json_skip_drops(t: Target, elems: Seq<JsonValue>, i: int)
    requires
        t.keys is Some,
        0 <= i < elems.len(),
        spec_skip_elem(t.keys->0.skip@, elems[i]),
    ensures
        spec_json_chapters(t, elems) == spec_json_chapters(t, elems.remove(i)),
    decreases elems.len(),
{
    if i == elems.len() - 1 {
        assert(elems.remove(i) =~= elems.drop_last());
    } else {
        lemma_json_skip_drops(t, elems.drop_last(), i);
        assert(elems.remove(i).drop_last() =~= elems.drop_last().remove(i));
        assert(elems.remove(i).last() == elems.last());
    }
}

/// Every produced chapter announces at its date plus the configured delay;
/// with no delay, or a delay of zero days, at its date exactly.
pub proof fn lemma_json_announce_delay(t: Target, elems: Seq<JsonValue>)
    requires
        t.keys is Some,
    ensures
        forall|j: int|
            0 <= j < spec_json_chapters(t, elems).len() ==> {
                let c = #[trigger] spec_json_chapters(t, elems)[j];
                &&& c.announced_at == c.date + spec_delay_ms(t.delay)
                &&& c.manga == t.name@
                &&& c.logged_at is None
                &&& (t.delay is None || t.delay == Some(0u8) ==> c.announced_at == c.date)
            },
    decreases elems.len(),
{
    if elems.len() > 0 {
        lemma_json_announce_delay(t, elems.drop_last());
    }
}

/// `lemma_json_announce_delay`, carried through the ordering correction to
/// the parser's actual output.
pub proof fn lemma_parse_json_announce(t: Target, doc: JsonValue)
    requires
        t.keys is Some,
    ensures
        spec_parse_json(t, doc) matches Ok(s) ==> forall|j: int|
            0 <= j < s.len() ==> {
                let c = #[trigger] s[j];
                &&& c.announced_at == c.date + spec_delay_ms(t.delay)
                &&& c.manga == t.name@
                &&& c.logged_at is None
                &&& (t.delay is None || t.delay == Some(0u8) ==> c.announced_at == c.date)
            },
{
    match spec_dot_get(doc, t.keys->0.chapters@) {
        Some(v) => match v {
            JsonValue::Arr(elems) => {
                lemma_json_announce_delay(t, elems@);
            },
            _ => {},
        },
        None => {},
    }
}

} // verus!
