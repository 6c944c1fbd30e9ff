use pleroma_rss::errors::Error;
use pleroma_rss::feed::{Feed, RawItem};

fn item(title: &str, link: &str, description: &str, date: Option<&str>) -> RawItem {
    RawItem {
        title: Some(title.to_string()),
        link: Some(link.to_string()),
        description: Some(description.to_string()),
        pub_date: date.map(|d| d.to_string()),
        media_url: None,
    }
}

// Seconds since the epoch for the three dates used below.
const JAN1: u64 = 1704067200; // Mon, 01 Jan 2024 00:00:00 +0000
const JAN2: u64 = 1704153600; // Tue, 02 Jan 2024 00:00:00 +0000
const JAN3: u64 = 1704240000; // Wed, 03 Jan 2024 00:00:00 +0000

fn three_items_newest_first() -> Vec<RawItem> {
    vec![
        item("third", "https://ex.com/3", "d3", Some("Wed, 03 Jan 2024 00:00:00 +0000")),
        item("second", "https://ex.com/2", "d2", Some("Tue, 02 Jan 2024 00:00:00 +0000")),
        item("first", "https://ex.com/1", "d1", Some("Mon, 01 Jan 2024 00:00:00 +0000")),
    ]
}

#[test]
fn first_check_emits_all_in_ascending_order() {
    let mut feed = Feed { url: "https://ex.com/feed".to_string(), last_post: None };
    let contents = feed.check_items(three_items_newest_first()).unwrap();
    assert_eq!(contents.len(), 3);
    assert_eq!(contents[0].title, "first");
    assert_eq!(contents[1].title, "second");
    assert_eq!(contents[2].title, "third");
    assert_eq!(feed.last_post, Some(JAN3));
}

#[test]
fn second_check_emits_nothing_and_keeps_watermark() {
    let mut feed = Feed { url: "https://ex.com/feed".to_string(), last_post: None };
    feed.check_items(three_items_newest_first()).unwrap();
    let again = feed.check_items(three_items_newest_first()).unwrap();
    assert!(again.is_empty());
    assert_eq!(feed.last_post, Some(JAN3));
}

#[test]
fn watermark_boundary_is_strict() {
    // Watermark at the middle item's date: the item dated exactly at the
    // watermark is excluded, the later one included, the earlier one excluded.
    let mut feed = Feed { url: "https://ex.com/feed".to_string(), last_post: Some(JAN2) };
    let contents = feed.check_items(three_items_newest_first()).unwrap();
    assert_eq!(contents.len(), 1);
    assert_eq!(contents[0].title, "third");
    assert_eq!(feed.last_post, Some(JAN3));
}

#[test]
fn watermark_below_all_emits_all() {
    let mut feed = Feed { url: "https://ex.com/feed".to_string(), last_post: Some(JAN1 - 1) };
    let contents = feed.check_items(three_items_newest_first()).unwrap();
    assert_eq!(contents.len(), 3);
    assert_eq!(feed.last_post, Some(JAN3));
}

#[test]
fn percent_encoded_link_is_decoded() {
    let mut feed = Feed { url: "https://ex.com/feed".to_string(), last_post: None };
    let contents = feed
        .check_items(vec![item(
            "t",
            "https://ex.com/a%20b",
            "d",
            Some("Mon, 01 Jan 2024 00:00:00 +0000"),
        )])
        .unwrap();
    assert_eq!(contents[0].link, "https://ex.com/a b");
}

#[test]
fn missing_date_fails_whole_check_without_moving_watermark() {
    let mut feed = Feed { url: "https://ex.com/feed".to_string(), last_post: None };
    // The dated item is newer than anything seen, yet the undated one below
    // it aborts the check before the watermark moves.
    let items = vec![
        item("good", "https://ex.com/1", "d", Some("Mon, 01 Jan 2024 00:00:00 +0000")),
        item("bad", "https://ex.com/2", "d", None),
    ];
    let err = feed.check_items(items).unwrap_err();
    assert!(matches!(err, Error::NoPublishDate(u) if u == "https://ex.com/feed"));
    assert_eq!(feed.last_post, None);
}

#[test]
fn unparsable_date_is_reported_apart() {
    let mut feed = Feed { url: "https://ex.com/feed".to_string(), last_post: None };
    let err = feed
        .check_items(vec![item("t", "https://ex.com/1", "d", Some("not a date"))])
        .unwrap_err();
    assert!(matches!(err, Error::InvalidPublishDate(u) if u == "https://ex.com/feed"));
}

#[test]
fn stale_items_are_still_date_validated() {
    // The malformed date sits on an item older than the watermark; the check
    // still fails (fail-closed, not best-effort).
    let mut feed = Feed { url: "https://ex.com/feed".to_string(), last_post: Some(JAN3) };
    let items = vec![
        item("new", "https://ex.com/1", "d", Some("Wed, 03 Jan 2024 00:00:00 +0000")),
        item("stale", "https://ex.com/2", "d", Some("garbage")),
    ];
    let err = feed.check_items(items).unwrap_err();
    assert!(matches!(err, Error::InvalidPublishDate(_)));
    assert_eq!(feed.last_post, Some(JAN3));
}

#[test]
fn missing_title_link_description_each_named() {
    let date = Some("Mon, 01 Jan 2024 00:00:00 +0000");
    let mut feed = Feed { url: "https://ex.com/feed".to_string(), last_post: None };
    let mut no_title = item("x", "https://ex.com/1", "d", date);
    no_title.title = None;
    let err = feed.check_items(vec![no_title]).unwrap_err();
    assert!(matches!(err, Error::NoTitle(u) if u == "https://ex.com/feed"));

    let mut feed = Feed { url: "https://ex.com/feed".to_string(), last_post: None };
    let mut no_link = item("t", "x", "d", date);
    no_link.link = None;
    let err = feed.check_items(vec![no_link]).unwrap_err();
    assert!(matches!(err, Error::NoLink(u) if u == "https://ex.com/feed"));

    let mut feed = Feed { url: "https://ex.com/feed".to_string(), last_post: None };
    let mut no_description = item("t", "https://ex.com/1", "x", date);
    no_description.description = None;
    let err = feed.check_items(vec![no_description]).unwrap_err();
    assert!(matches!(err, Error::NoDescription(u) if u == "https://ex.com/feed"));
}

#[test]
fn watermark_moves_even_when_a_field_is_missing() {
    // Date validation and watermark advancement happen before field
    // validation: the watermark reflects the new items although conversion
    // fails on the first of them.
    let mut feed = Feed { url: "https://ex.com/feed".to_string(), last_post: None };
    let mut bad = item("x", "https://ex.com/1", "d", Some("Tue, 02 Jan 2024 00:00:00 +0000"));
    bad.title = None;
    let err = feed.check_items(vec![bad]).unwrap_err();
    assert!(matches!(err, Error::NoTitle(_)));
    assert_eq!(feed.last_post, Some(JAN2));
}

#[test]
fn media_url_is_passed_through() {
    let mut feed = Feed { url: "https://ex.com/feed".to_string(), last_post: None };
    let mut with_media = item("t", "https://ex.com/1", "d", Some("Mon, 01 Jan 2024 00:00:00 +0000"));
    with_media.media_url = Some("https://ex.com/cover.png".to_string());
    let contents = feed.check_items(vec![with_media]).unwrap();
    assert_eq!(contents[0].image_url.as_deref(), Some("https://ex.com/cover.png"));
}

#[test]
fn html_in_description_is_stripped_during_check() {
    let mut feed = Feed { url: "https://ex.com/feed".to_string(), last_post: None };
    let contents = feed
        .check_items(vec![item(
            "t",
            "https://ex.com/1",
            "<p>Hello<br /> there</p>",
            Some("Mon, 01 Jan 2024 00:00:00 +0000"),
        )])
        .unwrap();
    assert_eq!(contents[0].description, "Hello there");
}

#[test]
fn fresh_content_carries_a_uuid() {
    let mut feed = Feed { url: "https://ex.com/feed".to_string(), last_post: None };
    let contents = feed
        .check_items(vec![item("t", "https://ex.com/1", "d", Some("Mon, 01 Jan 2024 00:00:00 +0000"))])
        .unwrap();
    assert_eq!(contents[0].uuid.len(), 36);
}

#[test]
fn check_body_parses_a_real_feed() {
    let body = "<?xml version=\"1.0\" encoding=\"UTF-8\"?>\
        <rss version=\"2.0\" xmlns:media=\"http://search.yahoo.com/mrss/\">\
        <channel><title>c</title><link>https://ex.com</link><description>d</description>\
        <item><title>hello</title><link>https://ex.com/a%20b</link>\
        <description>&lt;b&gt;text&lt;/b&gt; body</description>\
        <pubDate>Mon, 01 Jan 2024 00:00:00 +0000</pubDate>\
        <media:content url=\"https://ex.com/img.png\"/>\
        </item></channel></rss>";
    let mut feed = Feed { url: "https://ex.com/feed".to_string(), last_post: None };
    let contents = feed.check_body(body).unwrap();
    assert_eq!(contents.len(), 1);
    assert_eq!(contents[0].title, "hello");
    assert_eq!(contents[0].link, "https://ex.com/a b");
    assert_eq!(contents[0].description, "text body");
    assert_eq!(contents[0].image_url.as_deref(), Some("https://ex.com/img.png"));
    assert_eq!(feed.last_post, Some(JAN1));
}

#[test]
fn check_body_reports_a_parse_failure() {
    let mut feed = Feed { url: "https://ex.com/feed".to_string(), last_post: Some(JAN1) };
    let err = feed.check_body("this is no feed at all").unwrap_err();
    assert!(matches!(err, Error::Rss(_)));
    assert_eq!(feed.last_post, Some(JAN1));
}

#[test]
fn feed_new_sets_watermark_only_in_only_new_mode() {
    let all_items = Feed::new("https://ex.com/feed".to_string(), false);
    assert_eq!(all_items.last_post, None);
    assert_eq!(all_items.url, "https://ex.com/feed");
    let only_new = Feed::new("https://ex.com/feed".to_string(), true);
    assert!(only_new.last_post.is_some());
}
