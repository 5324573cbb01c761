use nostr_mcp::ui_templates::{get_template, get_template_description, get_template_display_name};

const TEMPLATE_NAMES: &[&str] = &[
    "note-card",
    "article-card",
    "profile-card",
    "zap-button",
    "connect-qr",
];

#[test]
fn test_all_templates_exist() {
    for name in TEMPLATE_NAMES {
        assert!(
            get_template(name).is_some(),
            "Template '{}' should exist",
            name
        );
    }
}

#[test]
fn test_common_css_injected() {
    for name in TEMPLATE_NAMES {
        let html = get_template(name).unwrap();
        assert!(
            !html.contains("{{COMMON_CSS}}"),
            "Template '{}' should have CSS injected",
            name
        );
        assert!(
            html.contains("box-sizing"),
            "Template '{}' should contain common CSS",
            name
        );
    }
}

#[test]
fn test_unknown_template_returns_none() {
    assert!(get_template("nonexistent").is_none());
}

#[test]
fn test_templates_are_valid_html() {
    for name in TEMPLATE_NAMES {
        let html = get_template(name).unwrap();
        assert!(
            html.contains("<!DOCTYPE html>"),
            "Template '{}' should be valid HTML5",
            name
        );
        assert!(
            html.contains("</html>"),
            "Template '{}' should have closing html tag",
            name
        );
    }
}

#[test]
fn test_template_names_and_descriptions() {
    assert_eq!(get_template_display_name("note-card"), "Nostr Note Card");
    assert_eq!(get_template_display_name("connect-qr"), "Nostr Connect QR");
    assert_eq!(get_template_display_name("unknown"), "");
    assert!(!get_template_description("zap-button").is_empty());
    assert_eq!(get_template_description("unknown"), "");
}
