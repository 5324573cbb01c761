use nostr_mcp::notes::{
    build_article_tags, direct_replies, collect_tag_values, count_tag_pairs, count_tags_with_key,
    extract_bolt11_amount, find_root_marker, find_tag_value, format_display_card_footer,
    format_display_card_header, format_timestamp_at, parse_u64, parse_zap_request_description,
    prefer_pubkey_target, sort_and_truncate, u64_to_string, AuthorInfo, NoteInfo,
};

fn author(npub: &str, name: Option<&str>, display_name: Option<&str>, nip05: Option<&str>) -> AuthorInfo {
    AuthorInfo {
        pubkey: "aa".to_string(),
        npub: npub.to_string(),
        name: name.map(|s| s.to_string()),
        display_name: display_name.map(|s| s.to_string()),
        picture: None,
        nip05: nip05.map(|s| s.to_string()),
    }
}

fn note(id: &str, created_at: u64) -> NoteInfo {
    NoteInfo {
        id: id.to_string(),
        nevent: String::new(),
        author: author("npub1short", None, None, None),
        content: String::new(),
        created_at,
        reactions: None,
        replies: None,
    }
}

#[test]
fn test_u64_to_string() {
    assert_eq!(u64_to_string(0), "0");
    assert_eq!(u64_to_string(7), "7");
    assert_eq!(u64_to_string(1234567890), "1234567890");
    assert_eq!(u64_to_string(u64::MAX), "18446744073709551615");
}

#[test]
fn test_short_npub() {
    let a = author("npub1qqqqqqqqqqqqqqqqqqqqtail", None, None, None);
    assert_eq!(a.short_npub(), "npub1qqqqqqq...tail");
    let b = author("npub1short", None, None, None);
    assert_eq!(b.short_npub(), "npub1short");
}

#[test]
fn test_display_fallbacks() {
    let a = author("npub1short", Some("name"), Some("Display"), None);
    assert_eq!(a.display(), "Display");
    let b = author("npub1short", Some("name"), None, None);
    assert_eq!(b.display(), "name");
    let c = author("npub1short", None, None, None);
    assert_eq!(c.display(), "npub1short");
}

#[test]
fn test_format_display_card_header() {
    let a = author("npub1short", None, Some("Alice"), Some("alice@example.com"));
    assert_eq!(format_display_card_header(&a), "Alice (@alice@example.com)");
    let b = author("npub1short", None, Some("Bob"), None);
    assert_eq!(format_display_card_header(&b), "Bob (npub1short)");
}

#[test]
fn test_format_display_card_footer() {
    let s = format_display_card_footer(Some(3), Some(1), "now");
    assert_eq!(
        s,
        "3 \u{30ea}\u{30a2}\u{30af}\u{30b7}\u{30e7}\u{30f3} \u{b7} 1 \u{30ea}\u{30d7}\u{30e9}\u{30a4} \u{b7} now"
    );
    let s = format_display_card_footer(Some(0), None, "now");
    assert_eq!(s, "now");
}

#[test]
fn test_format_timestamp_at() {
    assert_eq!(format_timestamp_at(1000, 1030), "\u{305f}\u{3063}\u{305f}\u{4eca}");
    assert_eq!(format_timestamp_at(1000, 1000 + 120), "2\u{5206}\u{524d}");
    assert_eq!(format_timestamp_at(1000, 1000 + 7200), "2\u{6642}\u{9593}\u{524d}");
    assert_eq!(format_timestamp_at(1000, 1000 + 3 * 86400), "3\u{65e5}\u{524d}");
    // a week or more ago: the plain calendar date
    assert_eq!(format_timestamp_at(0, 999999999999), "1970-01-01");
}

#[test]
fn test_sort_and_truncate() {
    let mut notes = vec![note("a", 5), note("b", 9), note("c", 1), note("d", 7)];
    sort_and_truncate(&mut notes, 3);
    let ids: Vec<&str> = notes.iter().map(|n| n.id.as_str()).collect();
    assert_eq!(ids, vec!["b", "d", "a"]);
    let mut short = vec![note("x", 2)];
    sort_and_truncate(&mut short, 10);
    assert_eq!(short.len(), 1);
}

#[test]
fn test_find_tag_value() {
    let tags = vec![
        vec!["title".to_string(), "Hello".to_string()],
        vec!["e".to_string(), "eid1".to_string()],
        vec!["e".to_string(), "eid2".to_string()],
        vec!["short".to_string()],
    ];
    assert_eq!(find_tag_value(&tags, "title").unwrap(), "Hello");
    assert_eq!(find_tag_value(&tags, "e").unwrap(), "eid1");
    assert!(find_tag_value(&tags, "p").is_none());
    assert!(find_tag_value(&tags, "short").is_none());
}

#[test]
fn test_count_tags_with_key() {
    let tags = vec![
        vec!["p".to_string(), "k1".to_string()],
        vec!["e".to_string(), "x".to_string()],
        vec!["p".to_string(), "k2".to_string()],
        vec!["p".to_string()],
    ];
    assert_eq!(count_tags_with_key(&tags, "p"), 2);
    assert_eq!(count_tags_with_key(&tags, "e"), 1);
    assert_eq!(count_tags_with_key(&tags, "t"), 0);
}

#[test]
fn test_find_root_marker() {
    let tags = vec![
        vec!["e".to_string(), "reply-id".to_string(), String::new(), "reply".to_string()],
        vec!["e".to_string(), "root-id".to_string(), String::new(), "root".to_string()],
    ];
    assert_eq!(find_root_marker(&tags).unwrap(), "root-id");
    let none = vec![vec!["e".to_string(), "id".to_string()]];
    assert!(find_root_marker(&none).is_none());
}

#[test]
fn test_extract_bolt11_amount() {
    assert_eq!(extract_bolt11_amount("lnbc1m1qqqq"), 100_000);
    assert_eq!(extract_bolt11_amount("LNBC10U1qqqq"), 1_000);
    assert_eq!(extract_bolt11_amount("lnbc25n1qqqq"), 2);
    assert_eq!(extract_bolt11_amount("lnbc50000p1qqqq"), 5);
    assert_eq!(extract_bolt11_amount("lnbc2"), 200_000_000);
    assert_eq!(extract_bolt11_amount("lnbcxyz"), 0);
    assert_eq!(extract_bolt11_amount("something else"), 0);
}

#[test]
fn test_parse_zap_request_description() {
    let desc = "{\"pubkey\":\"abcd\",\"content\":\"great note\"}";
    let (pk, comment) = parse_zap_request_description(desc);
    assert_eq!(pk.unwrap(), "abcd");
    assert_eq!(comment.unwrap(), "great note");

    let empty_comment = "{\"pubkey\":\"abcd\",\"content\":\"\"}";
    let (pk, comment) = parse_zap_request_description(empty_comment);
    assert_eq!(pk.unwrap(), "abcd");
    assert!(comment.is_none());

    let broken = "not json";
    let (pk, comment) = parse_zap_request_description(broken);
    assert!(pk.is_none());
    assert!(comment.is_none());
}

#[test]
fn test_format_timestamp_boundaries() {
    assert_eq!(format_timestamp_at(1000, 1059), "\u{305f}\u{3063}\u{305f}\u{4eca}");
    assert_eq!(format_timestamp_at(1000, 1060), "1\u{5206}\u{524d}");
    assert_eq!(format_timestamp_at(1000, 1000 + 3599), "59\u{5206}\u{524d}");
    assert_eq!(format_timestamp_at(1000, 1000 + 3600), "1\u{6642}\u{9593}\u{524d}");
    // the clock running behind the note counts as "just now"
    assert_eq!(format_timestamp_at(2000, 1000), "\u{305f}\u{3063}\u{305f}\u{4eca}");
}

#[test]
fn test_parse_u64() {
    assert_eq!(parse_u64("0"), Some(0));
    assert_eq!(parse_u64("1700000000"), Some(1_700_000_000));
    assert_eq!(parse_u64("18446744073709551615"), Some(u64::MAX));
    assert_eq!(parse_u64("18446744073709551616"), None);
    assert_eq!(parse_u64(""), None);
    assert_eq!(parse_u64("12a"), None);
    assert_eq!(parse_u64("-5"), None);
}

#[test]
fn test_collect_tag_values() {
    let tags = vec![
        vec!["p".to_string(), "k1".to_string()],
        vec!["e".to_string(), "x".to_string()],
        vec!["p".to_string(), "k2".to_string()],
    ];
    assert_eq!(collect_tag_values(&tags, "p"), vec!["k1".to_string(), "k2".to_string()]);
    assert!(collect_tag_values(&tags, "t").is_empty());
}

#[test]
fn test_count_tag_pairs() {
    let tags = vec![
        vec!["e".to_string(), "id1".to_string()],
        vec!["e".to_string(), "id2".to_string()],
        vec!["e".to_string(), "id1".to_string()],
        vec!["p".to_string(), "id1".to_string()],
    ];
    assert_eq!(count_tag_pairs(&tags, "e", "id1"), 2);
    assert_eq!(count_tag_pairs(&tags, "e", "id3"), 0);
    assert_eq!(count_tag_pairs(&tags, "p", "id1"), 1);
}

#[test]
fn test_prefer_pubkey_target() {
    assert!(prefer_pubkey_target("npub1xyz"));
    // sixty-four hex digits read as a public key first
    let hex64 = "79be667ef9dcbbac55a06295ce870b07029bfcdb2dce28d959f2815b16f81798";
    assert_eq!(hex64.len(), 64);
    assert!(prefer_pubkey_target(hex64));
    assert!(!prefer_pubkey_target("note1abc"));
    assert!(!prefer_pubkey_target("nevent1abc"));
    assert!(!prefer_pubkey_target("zz"));
}

#[test]
fn test_build_article_tags() {
    let hashtags = vec!["rust".to_string(), "nostr".to_string()];
    let tags = build_article_tags(
        "My Title",
        Some("a summary"),
        None,
        &hashtags,
        "my-title",
    );
    assert_eq!(
        tags,
        vec![
            vec!["d".to_string(), "my-title".to_string()],
            vec!["title".to_string(), "My Title".to_string()],
            vec!["summary".to_string(), "a summary".to_string()],
            vec!["t".to_string(), "rust".to_string()],
            vec!["t".to_string(), "nostr".to_string()],
        ]
    );
    let bare = build_article_tags("T", None, None, &Vec::new(), "t");
    assert_eq!(bare.len(), 2);
}

#[test]
fn test_direct_replies() {
    let tagsets = vec![
        vec![vec!["e".to_string(), "root".to_string()]],
        vec![vec!["e".to_string(), "other".to_string()]],
        vec![
            vec!["p".to_string(), "someone".to_string()],
            vec!["e".to_string(), "root".to_string()],
        ],
        vec![],
    ];
    assert_eq!(direct_replies(&tagsets, "root"), vec![0, 2]);
    assert!(direct_replies(&tagsets, "nothing").is_empty());
}
