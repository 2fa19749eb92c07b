use vstd::prelude::*;
use crate::jsonval::JsonValue;

verus! {

/// A delivery destination (one chat server) registered with the bot.
pub struct Server {
    pub identifier: String,
    pub feed_channel_identifier: String,
}

/// Two servers are the same destination when their identifiers agree;
/// the feed channel is mutable configuration, not identity.
pub open spec fn server_eq(a: Server, b: Server) -> bool {
    a.identifier@ == b.identifier@
}

impl PartialEq for Server {
    fn eq(&self, other: &Self) -> (r: bool) {
        self.identifier == other.identifier
    }
}

impl vstd::std_specs::cmp::PartialEqSpecImpl for Server {
    open spec fn obeys_eq_spec() -> bool {
        true
    }

    open spec fn eq_spec(&self, other: &Server) -> bool {
        server_eq(*self, *other)
    }
}

impl Server {
    /// An explicit copy whose fields are known to match the original.
    pub fn duplicate(&self) -> (r: Server)
        ensures
            r.identifier@ == self.identifier@,
            r.feed_channel_identifier@ == self.feed_channel_identifier@,
    {
        Server {
            identifier: self.identifier.clone(),
            feed_channel_identifier: self.feed_channel_identifier.clone(),
        }
    }
}

/// Chapter of a manga.
/// `number` may not be the chapter's actual release number, just a unique
/// identifier setting it apart from the other chapters of the same manga.
/// Timestamps are milliseconds since the Unix epoch, UTC.
pub struct Chapter {
    pub manga: String,
    pub number: String,
    pub title: String,
    pub date: i64,
    pub url: String,
    pub logged_at: Option<i64>,
    pub announced_at: i64,
}

/// The mathematical value of a chapter: every field as a plain value.
pub struct ChapterV {
    pub manga: Seq<char>,
    pub number: Seq<char>,
    pub title: Seq<char>,
    pub date: int,
    pub url: Seq<char>,
    pub logged_at: Option<int>,
    pub announced_at: int,
}

impl View for Chapter {
    type V = ChapterV;

    open spec fn view(&self) -> ChapterV {
        ChapterV {
            manga: self.manga@,
            number: self.number@,
            title: self.title@,
            date: self.date as int,
            url: self.url@,
            logged_at: match self.logged_at {
                Some(t) => Some(t as int),
                None => None,
            },
            announced_at: self.announced_at as int,
        }
    }
}

impl DeepView for Chapter {
    type V = ChapterV;

    open spec fn deep_view(&self) -> ChapterV {
        self.view()
    }
}

/// The dedup identity of a chapter: the (manga, title, number) triple.
pub open spec fn chapter_same_key(a: ChapterV, b: ChapterV) -> bool {
    a.manga == b.manga && a.title == b.title && a.number == b.number
}

impl Chapter {
    /// An explicit copy whose fields are known to match the original.
    pub fn duplicate(&self) -> (r: Chapter)
        ensures
            r@ == self@,
    {
        Chapter {
            manga: self.manga.clone(),
            number: self.number.clone(),
            title: self.title.clone(),
            date: self.date,
            url: self.url.clone(),
            logged_at: self.logged_at,
            announced_at: self.announced_at,
        }
    }
}

/// The supported parse modes.
#[derive(Clone, Copy, PartialEq, Eq, Structural)]
pub enum ParseMode {
    Rss,
    Json,
    Html,
    JsonInHtml,
}

/// Why a parse attempt failed as a whole. Failures scoped to one chapter
/// element are not errors: that element is skipped.
#[derive(Debug, Clone, Copy, PartialEq, Eq, Structural)]
pub enum ParseError {
    /// The document could not be read as a feed at all.
    BadFeed,
    /// A feed entry carried no title.
    MissingTitle,
    /// A URL could not be resolved, even against the base URL.
    BadUrl,
    /// A date string did not parse under the expected format.
    BadDate,
    /// The configured chapters dot-path names nothing in the document.
    ChaptersMissing,
    /// The value at the chapters dot-path is not an array.
    ChaptersNotArray,
    /// A configured CSS selector string is invalid.
    BadSelector,
    /// The configured script element was not found in the page.
    ScriptMissing,
    /// A chapter's announcement time leaves the timestamp range.
    TimeOverflow,
}

/// Enum of supported datetime parse formats for the JSON parser.
pub enum JsonDateTimeFormat {
    UnixSec,
    UnixMilli,
    UnixNano,
    Rfc2822,
    Rfc3339,
    StringFormat(String),
}

/// JSON object keys information for parsing from a JSON source.
/// `skip` holds dot-path/value pairs: an element whose value at such a
/// path equals the given value is dropped.
pub struct TargetKeys {
    pub chapters: String,
    pub number: Vec<String>,
    pub title: Vec<String>,
    pub date: String,
    pub date_format: Option<JsonDateTimeFormat>,
    pub url: String,
    pub skip: Vec<(String, JsonValue)>,
}

/// Strings of CSS selectors and attribute names for parsing from an HTML
/// source. A missing selector means "use the chapter element itself"; a
/// missing attribute means "use the element's text content".
pub struct TargetTags {
    pub chapters_tag: String,
    pub number_tag: Option<String>,
    pub number_attribute: Option<String>,
    pub title_tag: Option<String>,
    pub title_attribute: Option<String>,
    pub date_tag: Option<String>,
    pub date_attribute: Option<String>,
    /// How to parse the date text, in strftime notation.
    pub date_format: Option<String>,
    pub url_tag: Option<String>,
    pub url_attribute: Option<String>,
}

/// Each target defines a source to get manga updates from.
pub struct Target {
    pub name: String,
    pub source: String,
    /// Whether the source lists old chapters first instead of new first.
    pub ascending_source: bool,
    pub mode: ParseMode,
    pub base_url: Option<String>,
    pub request_headers: Option<Vec<(String, String)>>,
    /// How much to delay the announcement of new chapters (in days).
    pub delay: Option<u8>,
    // JSON mode
    pub keys: Option<TargetKeys>,
    // HTML mode
    pub tags: Option<TargetTags>,
}

} // verus!
