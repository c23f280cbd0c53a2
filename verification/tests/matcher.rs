//! Process-id tag parsing and sink-input matching on concrete items.

use active_volume::sinkinput::{find_sink_inputs, item_matches, parse_pid_tag, SinkInputItem};

fn item(index: u32, prop: Option<&str>, mute: bool, volumes: Vec<u32>) -> SinkInputItem {
    SinkInputItem { index, pid_prop: prop.map(|s| s.to_string()), mute, volumes }
}

#[test]
fn parse_accepts_plain_decimal() {
    assert_eq!(parse_pid_tag("0"), Some(0));
    assert_eq!(parse_pid_tag("100"), Some(100));
    assert_eq!(parse_pid_tag("007"), Some(7));
    assert_eq!(parse_pid_tag("4294967295"), Some(u32::MAX));
}

#[test]
fn parse_accepts_a_leading_plus() {
    assert_eq!(parse_pid_tag("+42"), Some(42));
    assert_eq!(parse_pid_tag("+0"), Some(0));
}

#[test]
fn parse_rejects_malformed_text() {
    assert_eq!(parse_pid_tag(""), None);
    assert_eq!(parse_pid_tag("+"), None);
    assert_eq!(parse_pid_tag("-1"), None);
    assert_eq!(parse_pid_tag("abc"), None);
    assert_eq!(parse_pid_tag("12a"), None);
    assert_eq!(parse_pid_tag("1 "), None);
    assert_eq!(parse_pid_tag(" 1"), None);
    assert_eq!(parse_pid_tag("1.5"), None);
    assert_eq!(parse_pid_tag("++1"), None);
}

#[test]
fn parse_rejects_values_beyond_u32() {
    assert_eq!(parse_pid_tag("4294967296"), None);
    assert_eq!(parse_pid_tag("99999999999999999999"), None);
}

#[test]
fn parse_agrees_with_std_on_samples() {
    for s in ["0", "100", "007", "+42", "", "+", "-1", "abc", "4294967295", "4294967296", "  9"] {
        assert_eq!(parse_pid_tag(s), s.parse::<u32>().ok(), "on {s:?}");
    }
}

#[test]
fn matching_needs_an_equal_parsed_tag() {
    assert!(item_matches(&item(1, Some("100"), false, vec![]), 100));
    assert!(item_matches(&item(1, Some("+100"), false, vec![]), 100));
    assert!(!item_matches(&item(1, Some("200"), false, vec![]), 100));
    assert!(!item_matches(&item(1, Some("abc"), false, vec![]), 100));
    assert!(!item_matches(&item(1, None, false, vec![]), 100));
}

#[test]
fn enumeration_keeps_only_matching_items_in_order() {
    let items = vec![
        item(1, Some("100"), false, vec![100, 200]),
        item(2, Some("200"), false, vec![300]),
        item(3, None, true, vec![400]),
        item(4, Some("pulse"), false, vec![500]),
        item(5, Some("+100"), true, vec![600]),
        item(6, Some(""), false, vec![700]),
    ];
    let found = find_sink_inputs(items, 100);
    assert_eq!(found.len(), 2);
    assert_eq!(found[0].index, 1);
    assert_eq!(found[0].pid_tag, Some(100));
    assert_eq!(found[0].mute, false);
    assert_eq!(found[0].volumes, vec![100, 200]);
    assert_eq!(found[1].index, 5);
    assert_eq!(found[1].pid_tag, Some(100));
    assert_eq!(found[1].mute, true);
    assert_eq!(found[1].volumes, vec![600]);
}

#[test]
fn enumeration_with_no_match_is_empty() {
    let items = vec![item(1, Some("1"), false, vec![]), item(2, None, false, vec![])];
    assert!(find_sink_inputs(items, 100).is_empty());
}
