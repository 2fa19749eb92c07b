use vstd::prelude::*;
use crate::dates::{announce_time, now_ms, spec_delay_ms};
use crate::parsers::utils::{reverse_chapters, spec_finalize, spec_make_link, try_make_link};
use crate::structs::{Chapter, ChapterV, ParseError, Target};

verus! {

/// One syndication feed entry, reduced to the plain values the parser
/// reads: the entry id, its title text, its published time in epoch
/// milliseconds, and its first link's href.
pub struct FeedEntry {
    pub id: String,
    pub title: Option<String>,
    pub published: Option<i64>,
    pub link: Option<String>,
}

/// The mathematical value of a feed entry.
pub struct FeedEntryV {
    pub id: Seq<char>,
    pub title: Option<Seq<char>>,
    pub published: Option<int>,
    pub link: Option<Seq<char>>,
}

impl View for FeedEntry {
    type V = FeedEntryV;

    open spec fn view(&self) -> FeedEntryV {
        FeedEntryV {
            id: self.id@,
            title: match self.title {
                Some(t) => Some(t@),
                None => None,
            },
            published: match self.published {
                Some(p) => Some(p as int),
                None => None,
            },
            link: match self.link {
                Some(l) => Some(l@),
                None => None,
            },
        }
    }
}

impl DeepView for FeedEntry {
    type V = FeedEntryV;

    open spec fn deep_view(&self) -> FeedEntryV {
        self.view()
    }
}

/// The entries a document holds when read as a syndication feed; `None`
/// when it cannot be read as a feed at all.
pub uninterp spec fn feed_of(s: Seq<char>) -> Option<Seq<FeedEntryV>>;

/// Relies on feed_rs's `parser::parse`: whether a document parses as a feed,
/// and what entries it then holds, is a function of the document alone.
/// Each entry is converted to plain values: its id, its title's content,
/// its published time as epoch milliseconds, its first link's href.
/// The one exception to determinism is the id feed_rs invents for an entry
/// carrying no link at all, which can be freshly generated per parse; such
/// an entry cannot become a chapter anyway, so its id is taken as empty.
#[verifier::external_body]
fn parse_feed(source: &str) -> (r: Option<Vec<FeedEntry>>)
    ensures
        match r {
            Some(v) => feed_of(source@) == Some(v.deep_view()),
            None => feed_of(source@) is None,
        },
{
    match feed_rs::parser::parse(source.as_bytes()) {
        Ok(feed) => Some(feed.entries.into_iter().map(|e| FeedEntry {
            id: if e.links.is_empty() { String::new() } else { e.id },
            title: e.title.map(|t| t.content),
            published: e.published.map(|d| d.timestamp_millis()),
            link: e.links.first().map(|l| l.href.clone()),
        }).collect()),
        Err(_) => None,
    }
}

/// The chapter one feed entry yields: its id as number, its title, its
/// published time (the current time when absent), its first link resolved
/// against the base URL. Any failure here is fatal to the whole parse.
pub open spec fn spec_rss_chapter(t: Target, e: FeedEntryV, now: int) -> Result<
    ChapterV,
    ParseError,
> {
    match e.title {
        None => Err(ParseError::MissingTitle),
        Some(title) => {
            let date = match e.published {
                Some(d) => d,
                None => now,
            };
            match e.link {
                None => Err(ParseError::BadUrl),
                Some(link) => {
                    let url = match t.base_url {
                        Some(b) => spec_make_link(b@, link),
                        None => Some(link),
                    };
                    match url {
                        None => Err(ParseError::BadUrl),
                        Some(u) => {
                            if !(i64::MIN <= date <= i64::MAX) || date + spec_delay_ms(t.delay)
                                > i64::MAX {
                                Err(ParseError::TimeOverflow)
                            } else {
                                Ok(
                                    ChapterV {
                                        manga: t.name@,
                                        number: e.id,
                                        title: title,
                                        date: date,
                                        url: u,
                                        logged_at: None,
                                        announced_at: date + spec_delay_ms(t.delay),
                                    },
                                )
                            }
                        },
                    }
                },
            }
        },
    }
}

/// The chapters of a list of feed entries, in feed order; the first
/// entry-level failure fails the whole list.
pub open spec fn spec_rss_chapters(t: Target, entries: Seq<FeedEntryV>, now: int) -> Result<
    Seq<ChapterV>,
    ParseError,
>
    decreases entries.len(),
{
    if entries.len() == 0 {
        Ok(Seq::empty())
    } else {
        match spec_rss_chapters(t, entries.drop_last(), now) {
            Err(e) => Err(e),
            Ok(init) => match spec_rss_chapter(t, entries.last(), now) {
                Err(e) => Err(e),
                Ok(c) => Ok(init.push(c)),
            },
        }
    }
}

/// An error on a prefix is the error of the whole.
proof fn lemma_rss_prefix_err(t: Target, entries: Seq<FeedEntryV>, now: int, i: int)
    requires
        0 <= i <= entries.len(),
        spec_rss_chapters(t, entries.subrange(0, i), now) is Err,
    ensures
        spec_rss_chapters(t, entries, now) == spec_rss_chapters(t, entries.subrange(0, i), now),
    decreases entries.len() - i,
{
    if i == entries.len() {
        assert(entries.subrange(0, i) =~= entries);
    } else {
        assert(entries.subrange(0, i + 1).drop_last() =~= entries.subrange(0, i));
        lemma_rss_prefix_err(t, entries, now, i + 1);
    }
}

/// Builds the chapter of one feed entry, as `spec_rss_chapter` says.
fn rss_chapter(t: &Target, e: &FeedEntry, now: i64) -> (r: Result<Chapter, ParseError>)
    ensures
        match r {
            Ok(c) => spec_rss_chapter(*t, e@, now as int) == Ok::<ChapterV, ParseError>(c@),
            Err(err) => spec_rss_chapter(*t, e@, now as int) == Err::<ChapterV, ParseError>(err),
        },
{
    let title = match &e.title {
        Some(s) => s.clone(),
        None => {
            return Err(ParseError::MissingTitle);
        },
    };
    let date = match e.published {
        Some(d) => d,
        None => now,
    };
    let link = match &e.link {
        Some(l) => l,
        None => {
            return Err(ParseError::BadUrl);
        },
    };
    let url = match &t.base_url {
        Some(b) => match try_make_link(b.as_str(), link.as_str()) {
            Some(u) => u,
            None => {
                return Err(ParseError::BadUrl);
            },
        },
        None => link.clone(),
    };
    let announced_at = match announce_time(date, t.delay) {
        Some(a) => a,
        None => {
            return Err(ParseError::TimeOverflow);
        },
    };
    Ok(
        Chapter {
            manga: t.name.clone(),
            number: e.id.clone(),
            title: title,
            date: date,
            url: url,
            logged_at: None,
            announced_at: announced_at,
        },
    )
}

/// Builds the chapters of a list of feed entries, in feed order, as
/// `spec_rss_chapters` says. Public so that what follows the feed_rs call
/// is checkable on any entry list.
pub fn chapters_from_entries(target: &Target, entries: &Vec<FeedEntry>, now: i64) -> (r: Result<
    Vec<Chapter>,
    ParseError,
>)
    ensures
        match r {
            Ok(v) => spec_rss_chapters(*target, entries.deep_view(), now as int) == Ok::<
                Seq<ChapterV>,
                ParseError,
            >(v.deep_view()),
            Err(e) => spec_rss_chapters(*target, entries.deep_view(), now as int) == Err::<
                Seq<ChapterV>,
                ParseError,
            >(e),
        },
{
    let n = entries.len();
    let mut out: Vec<Chapter> = Vec::new();
    let mut i: usize = 0;
    proof {
        assert(entries.deep_view().subrange(0, 0) =~= Seq::<FeedEntryV>::empty());
    }
    while i < n
        invariant
            n == entries@.len(),
            entries.deep_view().len() == n,
            i <= n,
            spec_rss_chapters(*target, entries.deep_view().subrange(0, i as int), now as int)
                matches Ok(s) && out.deep_view() == s,
        decreases n - i,
    {
        proof {
            assert(entries.deep_view().subrange(0, i + 1).drop_last() =~= entries.deep_view()
                .subrange(0, i as int));
            assert(entries.deep_view().subrange(0, i + 1).last() == entries.deep_view()[i as int]);
            assert(entries.deep_view()[i as int] == entries@[i as int]@);
        }
        let ghost pre = out.deep_view();
        match rss_chapter(target, &entries[i], now) {
            Ok(c) => {
                let ghost cv = c@;
                out.push(c);
                proof {
                    assert(out.deep_view() =~= pre.push(cv));
                }
            },
            Err(e) => {
                proof {
                    lemma_rss_prefix_err(*target, entries.deep_view(), now as int, i + 1);
                }
                return Err(e);
            },
        }
        i = i + 1;
    }
    proof {
        assert(entries.deep_view().subrange(0, n as int) =~= entries.deep_view());
    }
    Ok(out)
}

/// Parses a chapter list out of a syndication feed document. Fatal when
/// the document is no feed, and on any entry whose fields cannot be
/// resolved; entries without a published time take the current time.
pub fn parse_rss(target: &Target, source: &str) -> (r: Result<Vec<Chapter>, ParseError>)
    ensures
        feed_of(source@) is None ==> r == Err::<Vec<Chapter>, ParseError>(ParseError::BadFeed),
        feed_of(source@) is Some ==> exists|now: int|
            match (r, #[trigger] spec_rss_chapters(*target, feed_of(source@)->0, now)) {
                (Ok(v), Ok(s)) => v.deep_view() == spec_finalize(target.ascending_source, s),
                (Err(e1), Err(e2)) => e1 == e2,
                _ => false,
            },
        r matches Ok(v) ==> forall|j: int|
            0 <= j < v.deep_view().len() ==> {
                let c = #[trigger] v.deep_view()[j];
                &&& c.announced_at == c.date + spec_delay_ms(target.delay)
                &&& c.manga == target.name@
                &&& c.logged_at is None
            },
{
    let entries = match parse_feed(source) {
        Some(e) => e,
        None => {
            return Err(ParseError::BadFeed);
        },
    };
    let now = now_ms();
    match chapters_from_entries(target, &entries, now) {
        Ok(chapters) => {
            let out = if !target.ascending_source {
                reverse_chapters(chapters)
            } else {
                chapters
            };
            proof {
                let nw = now as int;
                assert(match (
                    Ok::<Vec<Chapter>, ParseError>(out),
                    spec_rss_chapters(*target, feed_of(source@)->0, nw),
                ) {
                    (Ok(v), Ok(s)) => v.deep_view() == spec_finalize(target.ascending_source, s),
                    (Err(e1), Err(e2)) => e1 == e2,
                    _ => false,
                });
                lemma_rss_announce_delay(*target, entries.deep_view(), nw);
                let base = spec_rss_chapters(*target, entries.deep_view(), nw)->Ok_0;
                assert forall|j: int| 0 <= j < out.deep_view().len() implies {
                    let c = #[trigger] out.deep_view()[j];
                    &&& c.announced_at == c.date + spec_delay_ms(target.delay)
                    &&& c.manga == target.name@
                    &&& c.logged_at is None
                } by {
                    if target.ascending_source {
                        assert(out.deep_view()[j] == base[j]);
                    } else {
                        assert(out.deep_view()[j] == base[base.len() - 1 - j]);
                    }
                }
            }
            Ok(out)
        },
        Err(e) => {
            proof {
                let nw = now as int;
                assert(match (
                    Err::<Vec<Chapter>, ParseError>(e),
                    spec_rss_chapters(*target, feed_of(source@)->0, nw),
                ) {
                    (Ok(v), Ok(s)) => v.deep_view() == spec_finalize(target.ascending_source, s),
                    (Err(e1), Err(e2)) => e1 == e2,
                    _ => false,
                });
            }
            Err(e)
        },
    }
}

/// When every entry carries a published time, the fallback clock is never
/// read: the parse is deterministic in the document alone.
pub proof fn lemma_rss_now_irrelevant(t: Target, entries: Seq<FeedEntryV>, n1: int, n2: int)
    requires
        forall|j: int| 0 <= j < entries.len() ==> (#[trigger] entries[j]).published is Some,
    ensures
        spec_rss_chapters(t, entries, n1) == spec_rss_chapters(t, entries, n2),
    decreases entries.len(),
{
    if entries.len() > 0 {
        lemma_rss_now_irrelevant(t, entries.drop_last(), n1, n2);
    }
}

/// Every chapter a feed yields announces at its date plus the configured
/// delay, carries the target's name, and is not yet logged.
pub proof fn lemma_rss_announce_delay(t: Target, entries: Seq<FeedEntryV>, now: int)
    ensures
        spec_rss_chapters(t, entries, now) matches Ok(s) ==> forall|j: int|
            0 <= j < s.len() ==> {
                let c = #[trigger] s[j];
                &&& c.announced_at == c.date + spec_delay_ms(t.delay)
                &&& c.manga == t.name@
                &&& c.logged_at is None
                &&& (t.delay is None || t.delay == Some(0u8) ==> c.announced_at == c.date)
            },
    decreases entries.len(),
{
    if entries.len() > 0 {
        lemma_rss_announce_delay(t, entries.drop_last(), now);
    }
}

} // verus!
