use pleroma_rss::bot::{Bot, Step};
use pleroma_rss::config::{normalized_base_url, parse_feeds, Config};
use pleroma_rss::content::Content;
use pleroma_rss::errors::Error;

fn config(dry_run: bool) -> Config {
    Config {
        bot_token: "SECRET-REDACTED".to_string(),
        base_url: "https://pleroma.example".to_string(),
        items_sleep: 2,
        watting_new: 30,
        feeds: Vec::new(),
        only_new: false,
        dry_run,
        preview_image_template: None,
        default_preview_image: None,
    }
}

fn content(title: &str) -> Content {
    Content::new(
        title.to_string(),
        "https://ex.com/x".to_string(),
        "d".to_string(),
        None,
    )
}

#[test]
fn dry_run_round_prints_once_and_publishes_nothing() {
    // Two feeds: the first yields one new item, the second none.  In
    // dry-run mode the round shows exactly one item, publishes nothing,
    // and ends with the inter-round delay.
    let lines = vec![
        "https://example.com/feed".to_string(),
        "https://example.org/feed".to_string(),
    ];
    let feeds = parse_feeds(&lines, false).unwrap();
    assert_eq!(feeds.len(), 2);

    let mut cfg = config(true);
    cfg.feeds = feeds;
    let bot = Bot::new(cfg).unwrap();
    let steps = bot.plan_round(vec![Ok(vec![content("only one")]), Ok(vec![])]);
    assert_eq!(steps.len(), 2);
    assert!(matches!(&steps[0], Step::Print(c) if c.title == "only one"));
    assert!(matches!(steps[1], Step::Pause(30)));
    assert!(!steps.iter().any(|s| matches!(s, Step::Publish(_))));
}

#[test]
fn publishing_round_paces_between_items() {
    let bot = Bot::new(config(false)).unwrap();
    let steps = bot.plan_round(vec![Ok(vec![content("a"), content("b")])]);
    assert_eq!(steps.len(), 5);
    assert!(matches!(&steps[0], Step::Publish(c) if c.title == "a"));
    assert!(matches!(steps[1], Step::Pause(2)));
    assert!(matches!(&steps[2], Step::Publish(c) if c.title == "b"));
    assert!(matches!(steps[3], Step::Pause(2)));
    assert!(matches!(steps[4], Step::Pause(30)));
}

#[test]
fn recoverable_error_ends_the_round_and_the_run_goes_on() {
    let bot = Bot::new(config(false)).unwrap();
    let steps = bot.plan_round(vec![
        Err(Error::Request("connection refused".to_string())),
        Ok(vec![content("never reached")]),
    ]);
    assert_eq!(steps.len(), 2);
    assert!(matches!(&steps[0], Step::Warn(Error::Request(_))));
    assert!(matches!(steps[1], Step::Pause(30)));
}

#[test]
fn fatal_error_stops_the_run() {
    let bot = Bot::new(config(false)).unwrap();
    let steps = bot.plan_round(vec![Err(Error::NoTitle("https://ex.com/feed".to_string()))]);
    assert_eq!(steps.len(), 1);
    assert!(matches!(&steps[0], Step::Fail(Error::NoTitle(_))));
}

#[test]
fn error_classes_recoverable_or_fatal() {
    assert!(Error::Request("x".to_string()).is_recoverable());
    assert!(Error::Megalodon("x".to_string()).is_recoverable());
    assert!(!Error::NoTitle("x".to_string()).is_recoverable());
    assert!(!Error::ImageTimeout("x".to_string()).is_recoverable());
    assert!(!Error::Rss("x".to_string()).is_recoverable());
    assert!(!Error::Io("x".to_string()).is_recoverable());
}

#[test]
fn feed_lines_are_parsed_and_normalized() {
    let lines = vec![
        "HTTPS://EXAMPLE.COM/Feed".to_string(),
        "".to_string(),
        "https://example.org/feed".to_string(),
    ];
    let feeds = parse_feeds(&lines, false).unwrap();
    assert_eq!(feeds.len(), 2);
    // The URL parser normalizes scheme and host; the path keeps its case.
    assert_eq!(feeds[0].url, "https://example.com/Feed");
    assert_eq!(feeds[1].url, "https://example.org/feed");
    assert!(feeds.iter().all(|f| f.last_post.is_none()));
}

#[test]
fn only_new_mode_marks_every_feed() {
    let lines = vec!["https://example.com/feed".to_string()];
    let feeds = parse_feeds(&lines, true).unwrap();
    assert!(feeds[0].last_post.is_some());
}

#[test]
fn a_bad_line_fails_startup() {
    let lines = vec![
        "https://example.com/feed".to_string(),
        "not a url".to_string(),
    ];
    let err = parse_feeds(&lines, false).unwrap_err();
    assert!(matches!(err, Error::InvalidUrl(l) if l == "not a url"));
}

#[test]
fn base_url_loses_its_trailing_slash() {
    assert_eq!(normalized_base_url("https://pleroma.example/"), "https://pleroma.example");
    assert_eq!(normalized_base_url("https://pleroma.example"), "https://pleroma.example");
}
