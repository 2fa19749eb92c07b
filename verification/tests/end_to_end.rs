use mangafeed::announcer::{begin_announce, finish_announce};
use mangafeed::parsers::rss::parse_rss;
use mangafeed::store::Store;
use mangafeed::structs::{ParseMode, Target};

const FEED: &str = r###"<?xml version="1.0"?>
<rss version="2.0">
    <channel>
        <title>RSS Test Publishing</title>
        <link>https://comic-rss.com/title/11111</link>
        <description>Lorem ipsum</description>
        <item>
            <title>Part 24: The Omega</title>
            <link>/episode/00024</link>
            <guid isPermalink="false">00024</guid>
            <pubDate>Fri, 23 Sep 2022 03:00:00 +0000</pubDate>
        </item>
        <item>
            <title>Part 23: The Alpha</title>
            <link>/episode/00023</link>
            <guid isPermalink="false">00023</guid>
            <pubDate>Fri, 16 Sep 2022 03:00:00 +0000</pubDate>
        </item>
    </channel>
</rss>
"###;

/// One full cycle: fetch and parse a non-ascending RSS source, persist
/// the chapters, then run one announcement for a destination with no
/// prior announcements. Both chapters go out oldest first and the
/// watermark moves to the announcement time.
#[test]
fn fetch_then_announce_delivers_in_order() {
    let target = Target {
        name: String::from("Test Manga"),
        source: String::from("https://comic-rss.com/test.rss"),
        ascending_source: false,
        mode: ParseMode::Rss,
        base_url: Some(String::from("https://comic-rss.com")),
        request_headers: None,
        delay: None,
        keys: None,
        tags: None,
    };

    let chapters = parse_rss(&target, FEED).unwrap();
    assert_eq!(chapters.len(), 2);

    let mut store = Store::new();
    // The destination is registered before any chapter exists: its
    // watermark starts at the registration time.
    store.set_feed_channel("guild", "feed-channel", 0).unwrap();
    store.save_chapters(&chapters, 10).unwrap();

    let now: i64 = 2_000_000_000_000;
    let due = begin_announce(&mut store, "guild", now).unwrap().unwrap();
    assert_eq!(due.len(), 2);
    assert_eq!(due[0].number, "00023");
    assert_eq!(due[1].number, "00024");

    // Deliver both, then close the run.
    let sent = due.len();
    finish_announce(&mut store, "guild", now, sent > 0).unwrap();
    assert_eq!(store.get_last_announced_time("guild").unwrap(), now);
    assert_eq!(store.get_announcing_server_flag("guild").unwrap(), false);
}
