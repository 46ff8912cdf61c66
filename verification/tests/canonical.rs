use rsspal::discord::has_prefix;
use rsspal::discord::publish_channel_name;
use rsspal::discord::read_channel_name;
use rsspal::discord::str_eq;
use rsspal::discord::title_to_channel_name;
use rsspal::discord::truncate;
use rsspal::discord::unread_channel_name;

#[test]
fn canonical_lowercases_and_dashes() {
    assert_eq!(title_to_channel_name("Hello World"), "hello-world");
    assert_eq!(title_to_channel_name("Tech News"), "tech-news");
}

#[test]
fn canonical_collapses_whitespace_runs() {
    assert_eq!(title_to_channel_name("a  \t b\n\nc"), "a-b-c");
}

#[test]
fn canonical_strips_special_characters() {
    // The runs of whitespace around the ampersand each leave one dash.
    assert_eq!(title_to_channel_name("C++ & Rust!"), "c--rust");
    assert_eq!(title_to_channel_name("under_score-kept.123"), "under_score-kept123");
}

#[test]
fn canonical_is_idempotent() {
    let inputs = ["Hello World", "C++ & Rust!", "  spaced   out  ", "MiXeD CaSe 42"];
    for s in inputs {
        let once = title_to_channel_name(s);
        let twice = title_to_channel_name(&once);
        assert_eq!(once, twice);
    }
}

#[test]
fn canonical_truncates_to_95() {
    let long = "a".repeat(300);
    let name = title_to_channel_name(&long);
    assert_eq!(name.chars().count(), 95);
}

#[test]
fn canonical_output_matches_charset() {
    let name = title_to_channel_name("Some Title: with éàccents & Symbols (2024)!");
    assert!(name.chars().all(|c| c.is_ascii_lowercase() || c.is_ascii_digit() || c == '_' || c == '-'));
    assert!(name.len() <= 95);
}

#[test]
fn truncate_counts_characters() {
    assert_eq!(truncate("hello", 10), "hello");
    assert_eq!(truncate("hello", 3), "hel");
    assert_eq!(truncate("", 3), "");
}

#[test]
fn read_channel_name_prefixes() {
    assert_eq!(read_channel_name("tech-news"), "read-tech-news");
}

#[test]
fn unread_channel_name_strips_prefix() {
    assert_eq!(unread_channel_name("read-tech-news"), "tech-news");
    assert_eq!(unread_channel_name("tech-news"), "tech-news");
}

#[test]
fn publish_channel_names() {
    assert_eq!(publish_channel_name("Tech News", false), "tech-news");
    assert_eq!(publish_channel_name("Tech News", true), "read-tech-news");
}

#[test]
fn prefix_and_equality_helpers() {
    assert!(has_prefix("read-x", "read-"));
    assert!(!has_prefix("rea", "read-"));
    assert!(str_eq("abc", "abc"));
    assert!(!str_eq("abc", "abd"));
}
