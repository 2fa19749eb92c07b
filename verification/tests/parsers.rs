use mangafeed::jsonval::JsonValue;
use mangafeed::parsers::html::parse_html;
use mangafeed::parsers::json::parse_json;
use mangafeed::parsers::json_in_html::extract_embedded_json;
use mangafeed::parsers::rss::parse_rss;
use mangafeed::parsers::utils::make_link;
use mangafeed::structs::{JsonDateTimeFormat, ParseMode, Target, TargetKeys, TargetTags};

fn s(text: &str) -> String {
    String::from(text)
}

fn rfc3339_ms(text: &str) -> i64 {
    chrono::DateTime::parse_from_rfc3339(text).unwrap().timestamp_millis()
}

fn rfc2822_ms(text: &str) -> i64 {
    chrono::DateTime::parse_from_rfc2822(text).unwrap().timestamp_millis()
}

fn obj(fields: Vec<(&str, JsonValue)>) -> JsonValue {
    JsonValue::Obj(fields.into_iter().map(|(k, v)| (String::from(k), v)).collect())
}

fn json_target() -> Target {
    Target {
        name: s("Test Manga"),
        source: s("https://comic-json.com/test.json"),
        ascending_source: false,
        mode: ParseMode::Json,
        base_url: Some(s("https://comic-json.com")),
        request_headers: None,
        delay: None,
        keys: Some(TargetKeys {
            chapters: s("comic.episodes"),
            number: vec![s("volume")],
            title: vec![s("volume"), s("title")],
            date: s("publish_start"),
            date_format: None,
            url: s("page_url"),
            skip: vec![(s("readable"), JsonValue::Bool(false))],
        }),
        tags: None,
    }
}

fn json_document() -> JsonValue {
    let episode_106 = obj(vec![
        ("id", JsonValue::Int(16255)),
        ("volume", JsonValue::Str(s("Chapter 106"))),
        ("sort_volume", JsonValue::Int(113)),
        ("page_count", JsonValue::Int(0)),
        ("title", JsonValue::Str(s("Dat Boi"))),
        ("publish_start", JsonValue::Str(s("2022-10-11T10:00:00.000+09:00"))),
        ("publish_end", JsonValue::Str(s("2022-11-22T10:00:00.000+09:00"))),
        ("member_publish_start", JsonValue::Str(s("2022-10-11T10:00:00.000+09:00"))),
        ("member_publish_end", JsonValue::Str(s("2022-11-22T10:00:00.000+09:00"))),
        ("status", JsonValue::Str(s("public"))),
        ("page_url", JsonValue::Str(s("/comics/json/113"))),
        ("readable", JsonValue::Bool(true)),
    ]);
    let separator = obj(vec![
        ("readable", JsonValue::Bool(false)),
        ("title", JsonValue::Str(s("Sum Kinda Separator Thing"))),
    ]);
    let episode_105 = obj(vec![
        ("id", JsonValue::Int(16180)),
        ("volume", JsonValue::Str(s("Chapter 105"))),
        ("sort_volume", JsonValue::Int(112)),
        ("page_count", JsonValue::Int(0)),
        ("title", JsonValue::Str(s("Here comes"))),
        ("publish_start", JsonValue::Str(s("2022-09-27T10:00:00.000+09:00"))),
        ("publish_end", JsonValue::Str(s("2022-11-08T10:00:00.000+09:00"))),
        ("member_publish_start", JsonValue::Str(s("2022-09-27T10:00:00.000+09:00"))),
        ("member_publish_end", JsonValue::Str(s("2022-11-08T10:00:00.000+09:00"))),
        ("status", JsonValue::Str(s("public"))),
        ("page_url", JsonValue::Str(s("/comics/json/112"))),
    ]);
    obj(vec![(
        "comic",
        obj(vec![("episodes", JsonValue::Arr(vec![episode_106, separator, episode_105]))]),
    )])
}

#[test]
fn json_test_parse_json() {
    let target = json_target();
    let document = json_document();
    let chapters = parse_json(&target, &document).unwrap();

    // Should have 2 chapters; the "readable": false element is dropped.
    assert!(chapters.len() == 2);
    // Check manga title
    assert_eq!(chapters[0].manga, "Test Manga");
    assert_eq!(chapters[0].manga, chapters[1].manga);
    // Check numbers (chapter IDs)
    assert_eq!(chapters[0].number, "Chapter 105");
    assert_eq!(chapters[1].number, "Chapter 106");
    // Check titles
    assert_eq!(chapters[0].title, "Chapter 105 Here comes");
    assert_eq!(chapters[1].title, "Chapter 106 Dat Boi");
    // Check links
    assert_eq!(chapters[0].url, "https://comic-json.com/comics/json/112");
    assert_eq!(chapters[1].url, "https://comic-json.com/comics/json/113");
    // Check dates
    assert_eq!(chapters[0].date, rfc3339_ms("2022-09-27T10:00:00.000+09:00"));
    assert_eq!(chapters[1].date, rfc3339_ms("2022-10-11T10:00:00.000+09:00"));
    // No delay is configured, so chapters announce at their dates.
    assert_eq!(chapters[0].announced_at, chapters[0].date);
    assert_eq!(chapters[1].announced_at, chapters[1].date);
}

#[test]
fn json_parser_reversal_matches_flag() {
    let document = json_document();
    let descending = json_target();
    let mut ascending = json_target();
    ascending.ascending_source = true;

    let reversed = parse_json(&descending, &document).unwrap();
    let plain = parse_json(&ascending, &document).unwrap();

    assert_eq!(plain.len(), reversed.len());
    let n = plain.len();
    for i in 0..n {
        assert_eq!(plain[i].number, reversed[n - 1 - i].number);
        assert_eq!(plain[i].title, reversed[n - 1 - i].title);
        assert_eq!(plain[i].url, reversed[n - 1 - i].url);
        assert_eq!(plain[i].date, reversed[n - 1 - i].date);
    }
}

#[test]
fn json_parser_skip_keeps_matching_elements_out() {
    let target = json_target();
    let document = json_document();
    let chapters = parse_json(&target, &document).unwrap();
    for chapter in &chapters {
        assert!(!chapter.title.contains("Separator"));
    }
    assert_eq!(chapters.len(), 2);
}

#[test]
fn json_parser_missing_chapters_path_is_fatal() {
    let target = json_target();
    let document = obj(vec![("comic", obj(vec![]))]);
    assert!(parse_json(&target, &document).is_err());
}

#[test]
fn json_parser_non_array_chapters_is_fatal() {
    let target = json_target();
    let document = obj(vec![("comic", obj(vec![("episodes", JsonValue::Int(3))]))]);
    assert!(parse_json(&target, &document).is_err());
}

#[test]
fn json_parser_delay_shifts_announcement() {
    let mut target = json_target();
    target.delay = Some(2);
    let document = json_document();
    let chapters = parse_json(&target, &document).unwrap();
    for chapter in &chapters {
        assert_eq!(chapter.announced_at, chapter.date + 2 * 86_400_000);
    }
}

fn html_target() -> Target {
    Target {
        name: s("Test Manga"),
        source: s("https://comic-html.com/test.html"),
        ascending_source: false,
        mode: ParseMode::Html,
        base_url: Some(s("https://comic-html.com")),
        request_headers: None,
        delay: Some(7),
        keys: None,
        tags: Some(TargetTags {
            chapters_tag: s("div#chapterlist li"),
            number_tag: None,
            number_attribute: Some(s("data-num")),
            title_tag: Some(s("div div a span.chapternum")),
            title_attribute: None,
            date_tag: Some(s("div div a span.chapterdate")),
            date_attribute: None,
            date_format: Some(s("%B %-d, %Y")),
            url_tag: Some(s("div div a")),
            url_attribute: Some(s("href")),
        }),
    }
}

const HTML_SOURCE: &str = r###"<!DOCTYPE html PUBLIC "-//W3C//DTD XHTML 1.0 Transitional//EN" "https://www.w3.org/TR/xhtml1/DTD/xhtml1-transitional.dtd">
<html xmlns="https://www.w3.org/1999/xhtml" lang="ja">
<head>
    <title>Test Manga</title>
</head>
<body>
    <div id="content">
        <div class="wrapper">
            <article>
                <div class="eplister" id="chapterlist">
                    <ul class="clstyle">
                        <li data-num="51">
                            <div class="chbox">
                                <div class="eph-num">
                                    <a href="https://comic-html.com/chapter/51">
                                        <span class="chapternum">Chapter 51</span>
                                        <span class="chapterdate">June 3, 2022</span>
                                    </a>
                                </div>
                            </div>
                        </li>
                        <li data-num="50">
                            <div class="chbox">
                                <div class="eph-num">
                                    <a href="https://comic-html.com/chapter/50">
                                        <span class="chapternum">Chapter 50</span>
                                        <span class="chapterdate">May 15, 2022</span>
                                    </a>
                                </div>
                            </div>
                        </li>
                    </ul>
                </div>
            </article>
        </div>
    </div>
</body>
</html>"###;

#[test]
fn test_parse_html() {
    let target = html_target();
    let chapters = parse_html(&target, HTML_SOURCE).unwrap();

    // Should have 2 chapters
    assert!(chapters.len() == 2);
    // Check manga title
    assert_eq!(chapters[0].manga, "Test Manga");
    assert_eq!(chapters[0].manga, chapters[1].manga);
    // Check numbers (chapter IDs)
    assert_eq!(chapters[0].number, "50");
    assert_eq!(chapters[1].number, "51");
    // Check titles
    assert_eq!(chapters[0].title, "Chapter 50");
    assert_eq!(chapters[1].title, "Chapter 51");
    // Check links
    assert_eq!(chapters[0].url, "https://comic-html.com/chapter/50");
    assert_eq!(chapters[1].url, "https://comic-html.com/chapter/51");
    // Check dates
    assert_eq!(chapters[0].date, rfc3339_ms("2022-05-15T00:00:00.000+00:00"));
    assert_eq!(chapters[1].date, rfc3339_ms("2022-06-03T00:00:00.000+00:00"));
    // Check announce time
    assert_eq!(chapters[0].announced_at, rfc3339_ms("2022-05-22T00:00:00.000+00:00"));
    assert_eq!(chapters[1].announced_at, rfc3339_ms("2022-06-10T00:00:00.000+00:00"));
}

#[test]
fn html_parser_reversal_matches_flag() {
    let descending = html_target();
    let mut ascending = html_target();
    ascending.ascending_source = true;

    let reversed = parse_html(&descending, HTML_SOURCE).unwrap();
    let plain = parse_html(&ascending, HTML_SOURCE).unwrap();

    assert_eq!(plain.len(), reversed.len());
    let n = plain.len();
    for i in 0..n {
        assert_eq!(plain[i].number, reversed[n - 1 - i].number);
    }
}

#[test]
fn html_parser_skips_chapter_with_missing_field() {
    // The second list item has no chapterdate span: only that chapter is
    // dropped, the batch itself succeeds.
    let target = html_target();
    let source = r###"<html><body>
        <div id="chapterlist">
            <li data-num="51">
                <div><div><a href="/chapter/51">
                    <span class="chapternum">Chapter 51</span>
                    <span class="chapterdate">June 3, 2022</span>
                </a></div></div>
            </li>
            <li data-num="50">
                <div><div><a href="/chapter/50">
                    <span class="chapternum">Chapter 50</span>
                </a></div></div>
            </li>
        </div>
    </body></html>"###;
    let chapters = parse_html(&target, source).unwrap();
    assert_eq!(chapters.len(), 1);
    assert_eq!(chapters[0].number, "51");
}

fn rss_target() -> Target {
    Target {
        name: s("Test Manga"),
        source: s("https://comic-rss.com/test.rss"),
        ascending_source: false,
        mode: ParseMode::Rss,
        base_url: Some(s("https://comic-rss.com")),
        request_headers: None,
        delay: None,
        keys: None,
        tags: None,
    }
}

const RSS_SOURCE: &str = r###"<?xml version="1.0"?>
<rss version="2.0" xmlns:giga="https://gigaviewer.com">
    <channel>
        <title>RSS Test Publishing</title>
        <pubDate>Fri, 23 Sep 2022 03:00:00 +0000</pubDate>
        <link>https://comic-rss.com/title/11111</link>
        <description>Lorem ipsum</description>
        <docs>http://blogs.law.harvard.edu/tech/rss</docs>
        <item>
            <title>Part 24: The Omega</title>
            <link>https://comic-rss.com/episode/00024</link>
            <guid isPermalink="false">00024</guid>
            <pubDate>Fri, 23 Sep 2022 03:00:00 +0000</pubDate>
            <enclosure url="https://cdn-img.comic-rss.com/public/episode-thumbnail/123" length="0" type="image/jpeg" />
            <author>Noowee</author>
        </item>
        <item>
            <title>Part 23: The Alpha</title>
            <link>/episode/00023</link>
            <guid isPermalink="false">00023</guid>
            <pubDate>Fri, 16 Sep 2022 03:00:00 +0000</pubDate>
            <enclosure url="https://cdn-img.comic-rss.com/public/episode-thumbnail/321" length="0" type="image/jpeg" />
            <author>Noowee</author>
        </item>
    </channel>
</rss>
"###;

#[test]
fn test_parse_rss() {
    let target = rss_target();
    let chapters = parse_rss(&target, RSS_SOURCE).unwrap();

    // Should have 2 chapters
    assert!(chapters.len() == 2);
    // Check manga title
    assert_eq!(chapters[0].manga, "Test Manga");
    assert_eq!(chapters[0].manga, chapters[1].manga);
    // Check numbers (chapter IDs)
    assert_eq!(chapters[0].number, "00023");
    assert_eq!(chapters[1].number, "00024");
    // Check titles
    assert_eq!(chapters[0].title, "Part 23: The Alpha");
    assert_eq!(chapters[1].title, "Part 24: The Omega");
    // Check links
    assert_eq!(chapters[0].url, "https://comic-rss.com/episode/00023");
    assert_eq!(chapters[1].url, "https://comic-rss.com/episode/00024");
    // Check dates
    assert_eq!(chapters[0].date, rfc2822_ms("Fri, 16 Sep 2022 03:00:00 +0000"));
    assert_eq!(chapters[1].date, rfc2822_ms("Fri, 23 Sep 2022 03:00:00 +0000"));
}

#[test]
fn rss_parser_reversal_matches_flag() {
    let descending = rss_target();
    let mut ascending = rss_target();
    ascending.ascending_source = true;

    let reversed = parse_rss(&descending, RSS_SOURCE).unwrap();
    let plain = parse_rss(&ascending, RSS_SOURCE).unwrap();

    assert_eq!(plain.len(), reversed.len());
    let n = plain.len();
    for i in 0..n {
        assert_eq!(plain[i].number, reversed[n - 1 - i].number);
    }
}

#[test]
fn rss_parser_rejects_non_feed() {
    let target = rss_target();
    assert!(parse_rss(&target, "this is no feed at all").is_err());
}

fn json_in_html_target() -> Target {
    Target {
        name: s("Test Manga"),
        source: s("https://comic-json.com/test.html"),
        ascending_source: false,
        mode: ParseMode::JsonInHtml,
        base_url: Some(s("https://comic-json.com/viewer/")),
        request_headers: None,
        delay: None,
        keys: Some(TargetKeys {
            chapters: s("props.pageProps.chapters.0.chapters"),
            number: vec![s("chapterId")],
            title: vec![s("chapterMainName")],
            date: s("updatedDate"),
            date_format: Some(JsonDateTimeFormat::StringFormat(s("%Y/%m/%d"))),
            url: s("chapterId"),
            skip: vec![],
        }),
        tags: Some(TargetTags {
            chapters_tag: s("script#__NEXT_DATA__"),
            number_tag: None,
            number_attribute: None,
            title_tag: None,
            title_attribute: None,
            date_tag: None,
            date_attribute: None,
            date_format: None,
            url_tag: None,
            url_attribute: None,
        }),
    }
}

const JSON_IN_HTML_SOURCE: &str = r###"<!DOCTYPE html>
<html>
  <body>
    <script id="__NEXT_DATA__" type="application/json">
      {
        "props": {
          "pageProps": {
            "chapters": [
              {
                "chapters": [
                  {
                    "chapterId": 48550,
                    "chapterMainName": "CH 2",
                    "pointConsumption": {},
                    "numberOfComments": 72,
                    "numberOfLikes": 1007,
                    "updatedDate": "2023/11/02"
                  },
                  {
                    "chapterId": 48286,
                    "chapterMainName": "CH 1",
                    "pointConsumption": {},
                    "numberOfComments": 17,
                    "numberOfLikes": 955,
                    "updatedDate": "2023/10/26"
                  }
                ],
                "bookIssueHeader": { "text": "ABC" }
              }
            ]
          }
        }
      }
    </script>
  </body>
</html>"###;

fn decode(value: &serde_json::Value) -> JsonValue {
    match value {
        serde_json::Value::Null => JsonValue::Null,
        serde_json::Value::Bool(b) => JsonValue::Bool(*b),
        serde_json::Value::Number(n) => match n.as_i64() {
            Some(i) => JsonValue::Int(i),
            None => JsonValue::Num(n.to_string()),
        },
        serde_json::Value::String(text) => JsonValue::Str(text.clone()),
        serde_json::Value::Array(items) => JsonValue::Arr(items.iter().map(decode).collect()),
        serde_json::Value::Object(fields) => {
            JsonValue::Obj(fields.iter().map(|(k, v)| (k.clone(), decode(v))).collect())
        }
    }
}

#[test]
fn json_in_html_test_parse_json() {
    let target = json_in_html_target();
    let embedded = extract_embedded_json(&target, JSON_IN_HTML_SOURCE).unwrap();
    let raw: serde_json::Value = serde_json::from_str(&embedded).unwrap();
    let chapters = parse_json(&target, &decode(&raw)).unwrap();

    // Should have 2 chapters
    assert!(chapters.len() == 2);
    // Check manga title
    assert_eq!(chapters[0].manga, "Test Manga");
    assert_eq!(chapters[0].manga, chapters[1].manga);
    // Check numbers (chapter IDs)
    assert_eq!(chapters[0].number, "48286");
    assert_eq!(chapters[1].number, "48550");
    // Check titles
    assert_eq!(chapters[0].title, "CH 1");
    assert_eq!(chapters[1].title, "CH 2");
    // Check links
    assert_eq!(chapters[0].url, "https://comic-json.com/viewer/48286");
    assert_eq!(chapters[1].url, "https://comic-json.com/viewer/48550");
    // Check dates
    assert_eq!(chapters[0].date, rfc3339_ms("2023-10-26T00:00:00.000+00:00"));
    assert_eq!(chapters[1].date, rfc3339_ms("2023-11-02T00:00:00.000+00:00"));
    // Check announce time (same as dates)
    assert_eq!(chapters[0].announced_at, rfc3339_ms("2023-10-26T00:00:00.000+00:00"));
    assert_eq!(chapters[1].announced_at, rfc3339_ms("2023-11-02T00:00:00.000+00:00"));
}

#[test]
fn html_parser_rejects_invalid_chapters_selector() {
    let mut target = html_target();
    target.tags.as_mut().unwrap().chapters_tag = s("div#[");
    assert!(parse_html(&target, HTML_SOURCE).is_err());
}

#[test]
fn html_parser_parses_datetime_text_with_format() {
    let mut target = html_target();
    {
        let tags = target.tags.as_mut().unwrap();
        tags.date_format = Some(s("%Y-%m-%d %H:%M"));
    }
    let source = r###"<html><body><div id="chapterlist">
        <li data-num="1">
            <div><div><a href="/chapter/1">
                <span class="chapternum">Chapter 1</span>
                <span class="chapterdate">2022-05-15 10:30</span>
            </a></div></div>
        </li>
    </div></body></html>"###;
    let chapters = parse_html(&target, source).unwrap();
    assert_eq!(chapters.len(), 1);
    assert_eq!(chapters[0].date, rfc3339_ms("2022-05-15T10:30:00.000+00:00"));
}

#[test]
fn html_parser_autodetects_iso_dates_without_format() {
    let mut target = html_target();
    {
        let tags = target.tags.as_mut().unwrap();
        tags.date_format = None;
    }
    let source = r###"<html><body><div id="chapterlist">
        <li data-num="1">
            <div><div><a href="/chapter/1">
                <span class="chapternum">Chapter 1</span>
                <span class="chapterdate">2022-05-15</span>
            </a></div></div>
        </li>
        <li data-num="2">
            <div><div><a href="/chapter/2">
                <span class="chapternum">Chapter 2</span>
                <span class="chapterdate">2022-05-16T08:45:00</span>
            </a></div></div>
        </li>
    </div></body></html>"###;
    let chapters = parse_html(&target, source).unwrap();
    assert_eq!(chapters.len(), 2);
    // Newest-first source: document order is reversed.
    assert_eq!(chapters[0].date, rfc3339_ms("2022-05-16T08:45:00.000+00:00"));
    assert_eq!(chapters[1].date, rfc3339_ms("2022-05-15T00:00:00.000+00:00"));
}

#[test]
fn rss_parser_fails_on_entry_without_title() {
    let target = rss_target();
    let source = r###"<?xml version="1.0"?>
<rss version="2.0"><channel>
    <title>Feed</title>
    <link>https://comic-rss.com/t</link>
    <description>d</description>
    <item>
        <link>/episode/1</link>
        <guid>1</guid>
        <pubDate>Fri, 16 Sep 2022 03:00:00 +0000</pubDate>
    </item>
</channel></rss>"###;
    assert!(parse_rss(&target, source).is_err());
}

#[test]
fn json_parser_skips_element_with_unparseable_date() {
    let target = json_target();
    let good = obj(vec![
        ("volume", JsonValue::Str(s("Chapter 1"))),
        ("title", JsonValue::Str(s("One"))),
        ("publish_start", JsonValue::Str(s("2022-09-27T10:00:00.000+09:00"))),
        ("page_url", JsonValue::Str(s("/c/1"))),
    ]);
    let bad_date = obj(vec![
        ("volume", JsonValue::Str(s("Chapter 2"))),
        ("title", JsonValue::Str(s("Two"))),
        ("publish_start", JsonValue::Str(s("yesterday-ish"))),
        ("page_url", JsonValue::Str(s("/c/2"))),
    ]);
    let document = obj(vec![(
        "comic",
        obj(vec![("episodes", JsonValue::Arr(vec![good, bad_date]))]),
    )]);
    let chapters = parse_json(&target, &document).unwrap();
    assert_eq!(chapters.len(), 1);
    assert_eq!(chapters[0].number, "Chapter 1");
}

#[test]
fn json_parser_renders_negative_integers_in_decimal() {
    let mut target = json_target();
    target.keys.as_mut().unwrap().number = vec![s("volume")];
    let element = obj(vec![
        ("volume", JsonValue::Int(-42)),
        ("title", JsonValue::Str(s("Negative"))),
        ("publish_start", JsonValue::Str(s("2022-09-27T10:00:00.000+09:00"))),
        ("page_url", JsonValue::Str(s("/c/n"))),
    ]);
    let document = obj(vec![("comic", obj(vec![("episodes", JsonValue::Arr(vec![element]))]))]);
    let chapters = parse_json(&target, &document).unwrap();
    assert_eq!(chapters.len(), 1);
    assert_eq!(chapters[0].number, "-42");
}

#[test]
fn json_parser_skips_element_whose_announcement_overflows() {
    let mut target = json_target();
    target.delay = Some(255);
    target.keys.as_mut().unwrap().date_format = Some(JsonDateTimeFormat::UnixSec);
    let element = obj(vec![
        ("volume", JsonValue::Str(s("Chapter 1"))),
        ("title", JsonValue::Str(s("Edge"))),
        ("publish_start", JsonValue::Int(9_223_372_036_854_775)),
        ("page_url", JsonValue::Str(s("/c/1"))),
    ]);
    let document = obj(vec![("comic", obj(vec![("episodes", JsonValue::Arr(vec![element]))]))]);
    let chapters = parse_json(&target, &document).unwrap();
    assert_eq!(chapters.len(), 0);
}

#[test]
fn json_in_html_missing_script_is_fatal() {
    let target = json_in_html_target();
    let source = "<html><body><p>No data here.</p></body></html>";
    assert!(extract_embedded_json(&target, source).is_err());
}

#[test]
fn make_link_resolves_relative_against_base() {
    assert_eq!(make_link("https://x.com", "/a"), "https://x.com/a");
}

#[test]
fn make_link_passes_absolute_through() {
    assert_eq!(make_link("https://x.com", "https://y.com/a"), "https://y.com/a");
}
