use mangafeed::announcer::{begin_announce, finish_announce};
use mangafeed::store::Store;
use mangafeed::structs::Chapter;

fn s(text: &str) -> String {
    String::from(text)
}

fn chapter(manga: &str, number: &str, title: &str, date: i64) -> Chapter {
    Chapter {
        manga: s(manga),
        number: s(number),
        title: s(title),
        date,
        url: s("https://example.com/c"),
        logged_at: None,
        announced_at: date,
    }
}

#[test]
fn save_twice_keeps_one_row() {
    let mut store = Store::new();
    let batch = vec![chapter("M", "7", "Seven", 1000)];
    store.save_chapters(&batch, 50).unwrap();
    store.save_chapters(&batch, 60).unwrap();
    assert_eq!(store.chapters.len(), 1);
    assert_eq!(store.chapters[0].logged_at, Some(50));
}

#[test]
fn save_deduplicates_within_one_batch() {
    let mut store = Store::new();
    let batch = vec![
        chapter("M", "7", "Seven", 1000),
        chapter("M", "7", "Seven", 2000),
        chapter("M", "8", "Eight", 3000),
    ];
    store.save_chapters(&batch, 50).unwrap();
    assert_eq!(store.chapters.len(), 2);
}

#[test]
fn unannounced_selects_window_and_sorts_by_date() {
    let mut store = Store::new();
    store.set_feed_channel("guild", "channel", 0).unwrap();
    store.set_last_announced_time("guild", 100).unwrap();
    let batch = vec![
        chapter("M", "1", "too old", 90),
        chapter("M", "2", "late in window", 500),
        chapter("M", "3", "early in window", 200),
        chapter("M", "4", "future", 9000),
    ];
    store.save_chapters(&batch, 50).unwrap();

    let due = store.get_unnanounced_chapters("guild", 1000).unwrap();
    assert_eq!(due.len(), 2);
    assert_eq!(due[0].number, "3");
    assert_eq!(due[1].number, "2");
}

#[test]
fn unannounced_needs_a_configured_destination() {
    let store = Store::new();
    assert!(store.get_unnanounced_chapters("guild", 1000).is_err());
}

#[test]
fn feed_channel_roundtrip() {
    let mut store = Store::new();
    assert!(store.get_feed_channel("guild").is_err());
    store.set_feed_channel("guild", "channel-1", 42).unwrap();
    assert_eq!(store.get_feed_channel("guild").unwrap(), "channel-1");
    assert_eq!(store.get_last_announced_time("guild").unwrap(), 42);
    store.set_feed_channel("guild", "channel-2", 99).unwrap();
    assert_eq!(store.get_feed_channel("guild").unwrap(), "channel-2");
    // Re-configuring the channel never resets the watermark.
    assert_eq!(store.get_last_announced_time("guild").unwrap(), 42);
    let server = store.get_server("guild").unwrap();
    assert_eq!(server.identifier, "guild");
    assert_eq!(server.feed_channel_identifier, "channel-2");
}

#[test]
fn get_servers_lists_configured_destinations() {
    let mut store = Store::new();
    store.set_feed_channel("a", "ch-a", 0).unwrap();
    store.set_feed_channel("b", "ch-b", 0).unwrap();
    let servers = store.get_servers().unwrap();
    assert_eq!(servers.len(), 2);
    assert_eq!(servers[0].identifier, "a");
    assert_eq!(servers[1].identifier, "b");
}

#[test]
fn announce_run_on_locked_destination_is_noop() {
    let mut store = Store::new();
    store.set_feed_channel("guild", "channel", 0).unwrap();
    store.set_last_announced_time("guild", 100).unwrap();
    store.save_chapters(&vec![chapter("M", "1", "One", 200)], 50).unwrap();
    store.set_announcing_server_flag("guild", true).unwrap();

    let run = begin_announce(&mut store, "guild", 1000).unwrap();
    assert!(run.is_none());
    // Watermark and flag are unchanged.
    assert_eq!(store.get_last_announced_time("guild").unwrap(), 100);
    assert_eq!(store.get_announcing_server_flag("guild").unwrap(), true);
}

#[test]
fn announce_run_sends_window_and_advances_watermark() {
    let mut store = Store::new();
    store.set_feed_channel("guild", "channel", 0).unwrap();
    store.set_last_announced_time("guild", 100).unwrap();
    let batch = vec![
        chapter("M", "1", "old", 90),
        chapter("M", "2", "newer", 500),
        chapter("M", "3", "new", 200),
        chapter("M", "4", "future", 9000),
    ];
    store.save_chapters(&batch, 50).unwrap();

    let due = begin_announce(&mut store, "guild", 1000).unwrap().unwrap();
    assert_eq!(due.len(), 2);
    assert_eq!(due[0].number, "3");
    assert_eq!(due[1].number, "2");
    // While the run is open the destination is locked.
    assert_eq!(store.get_announcing_server_flag("guild").unwrap(), true);

    finish_announce(&mut store, "guild", 1000, true).unwrap();
    assert_eq!(store.get_last_announced_time("guild").unwrap(), 1000);
    assert_eq!(store.get_announcing_server_flag("guild").unwrap(), false);

    // Nothing further is due before new chapters arrive.
    let due = begin_announce(&mut store, "guild", 2000).unwrap().unwrap();
    assert_eq!(due.len(), 0);
    finish_announce(&mut store, "guild", 2000, false).unwrap();
    // An empty run does not advance the watermark.
    assert_eq!(store.get_last_announced_time("guild").unwrap(), 1000);
    assert_eq!(store.get_announcing_server_flag("guild").unwrap(), false);
}

#[test]
fn second_announce_run_waits_for_the_first() {
    let mut store = Store::new();
    store.set_feed_channel("guild", "channel", 0).unwrap();
    store.save_chapters(&vec![chapter("M", "1", "One", 200)], 50).unwrap();

    let first = begin_announce(&mut store, "guild", 1000).unwrap();
    assert!(first.is_some());
    // The open run holds the destination's flag: a second run started
    // before the first closes is a no-op.
    let second = begin_announce(&mut store, "guild", 1000).unwrap();
    assert!(second.is_none());
    finish_announce(&mut store, "guild", 1000, true).unwrap();
    // Once closed, a new run opens again.
    let third = begin_announce(&mut store, "guild", 2000).unwrap();
    assert!(third.is_some());
}

#[test]
fn announce_run_without_sends_keeps_watermark_and_clears_flag() {
    let mut store = Store::new();
    store.set_feed_channel("guild", "channel", 0).unwrap();
    store.set_last_announced_time("guild", 100).unwrap();
    store.save_chapters(&vec![chapter("M", "1", "One", 200)], 50).unwrap();

    let due = begin_announce(&mut store, "guild", 1000).unwrap().unwrap();
    assert_eq!(due.len(), 1);
    // Every send failed: the flag still clears, the watermark stays, and
    // the chapter is redelivered on the next run.
    finish_announce(&mut store, "guild", 1000, false).unwrap();
    assert_eq!(store.get_last_announced_time("guild").unwrap(), 100);
    assert_eq!(store.get_announcing_server_flag("guild").unwrap(), false);
    let again = begin_announce(&mut store, "guild", 2000).unwrap().unwrap();
    assert_eq!(again.len(), 1);
}
