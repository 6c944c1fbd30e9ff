use pleroma_rss::cli::{get_flag, help_message, str_eq, version_message};
use pleroma_rss::errors::Error;

fn args(list: &[&str]) -> Vec<String> {
    list.iter().map(|s| s.to_string()).collect()
}

#[test]
fn a_present_flag_yields_the_next_argument() {
    let a = args(&["--base-url", "https://ex.com", "--dry-run"]);
    assert_eq!(get_flag("--base-url", &a).unwrap(), "https://ex.com");
}

#[test]
fn the_first_occurrence_wins() {
    let a = args(&["-s", "1", "-s", "2"]);
    assert_eq!(get_flag("-s", &a).unwrap(), "1");
}

#[test]
fn a_missing_flag_is_reported() {
    let a = args(&["--base-url", "https://ex.com"]);
    let err = get_flag("--access-token", &a).unwrap_err();
    assert!(matches!(err, Error::MissingArgument(f) if f == "--access-token"));
}

#[test]
fn a_flag_without_a_value_is_reported_apart() {
    let a = args(&["--base-url"]);
    let err = get_flag("--base-url", &a).unwrap_err();
    assert!(matches!(err, Error::UncompletedArgument(f) if f == "--base-url"));
}

#[test]
fn str_eq_compares_characters() {
    assert!(str_eq("abc", "abc"));
    assert!(!str_eq("abc", "abd"));
    assert!(!str_eq("abc", "ab"));
    assert!(str_eq("", ""));
}

#[test]
fn messages_are_nonempty() {
    assert_eq!(version_message(), "pleroma-rss v0.1.0");
    assert!(help_message().contains("USAGE"));
    assert!(help_message().contains("--feed-file"));
}
