use nostr_mcp::mcp_apps::{tool_ui_resource, ui_resource_name};
use nostr_mcp::notes::slug_from_title;

#[test]
fn test_tool_ui_resource_mapping() {
    assert_eq!(tool_ui_resource("get_nostr_timeline"), Some("note-card"));
    assert_eq!(tool_ui_resource("get_nostr_profile"), Some("profile-card"));
    assert_eq!(tool_ui_resource("nostr_connect"), Some("connect-qr"));
    assert_eq!(tool_ui_resource("post_nostr_note"), None);
}

#[test]
fn test_ui_resource_name() {
    assert_eq!(ui_resource_name("ui://nostr-mcp/note-card").unwrap(), "note-card");
    assert_eq!(ui_resource_name("ui://nostr-mcp/").unwrap(), "");
    assert!(ui_resource_name("https://example.com").is_none());
    assert!(ui_resource_name("").is_none());
}

#[test]
fn test_slug_from_title() {
    assert_eq!(slug_from_title("Hello World"), "hello-world");
    assert_eq!(slug_from_title("  Spaces  "), "--spaces--".trim_matches('-'));
    assert_eq!(slug_from_title("MiXeD Case-Title"), "mixed-case-title");
    assert_eq!(slug_from_title("---"), "");
}
