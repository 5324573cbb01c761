//! The UI-resource side of the tool surface: which template a tool's
//! result is rendered with, and the `ui://` naming scheme.

use vstd::prelude::*;
use crate::textutil::{chars_of, str_eq, string_from_range};

verus! {

/// The template a tool's result is shown with, if it has one.
pub open spec fn spec_tool_ui_resource(tool: Seq<char>) -> Option<Seq<char>> {
    if tool == "get_nostr_timeline"@ || tool == "search_nostr_notes"@ || tool
        == "get_nostr_thread"@ {
        Some("note-card"@)
    } else if tool == "get_nostr_articles"@ || tool == "get_nostr_drafts"@ {
        Some("article-card"@)
    } else if tool == "get_nostr_profile"@ {
        Some("profile-card"@)
    } else if tool == "send_zap"@ || tool == "get_zap_receipts"@ {
        Some("zap-button"@)
    } else if tool == "nostr_connect"@ || tool == "nostr_connect_status"@ {
        Some("connect-qr"@)
    } else {
        None
    }
}

/// The template a tool's result is shown with; `None` for a tool without
/// a card.
pub fn tool_ui_resource(tool_name: &str) -> (r: Option<&'static str>)
    ensures
        match r {
            Some(n) => spec_tool_ui_resource(tool_name@) == Some(n@),
            None => spec_tool_ui_resource(tool_name@) is None,
        },
{
    if str_eq(tool_name, "get_nostr_timeline") || str_eq(tool_name, "search_nostr_notes")
        || str_eq(tool_name, "get_nostr_thread") {
        Some("note-card")
    } else if str_eq(tool_name, "get_nostr_articles") || str_eq(tool_name, "get_nostr_drafts") {
        Some("article-card")
    } else if str_eq(tool_name, "get_nostr_profile") {
        Some("profile-card")
    } else if str_eq(tool_name, "send_zap") || str_eq(tool_name, "get_zap_receipts") {
        Some("zap-button")
    } else if str_eq(tool_name, "nostr_connect") || str_eq(tool_name, "nostr_connect_status") {
        Some("connect-qr")
    } else {
        None
    }
}

/// The scheme and host every UI resource URI carries in front.
pub open spec fn ui_prefix() -> Seq<char> {
    "ui://nostr-mcp/"@
}

/// The template name a `ui://` URI refers to: what follows the prefix.
pub open spec fn spec_ui_resource_name(uri: Seq<char>) -> Option<Seq<char>> {
    if uri.len() >= ui_prefix().len() && uri.subrange(0, ui_prefix().len() as int)
        == ui_prefix() {
        Some(uri.subrange(ui_prefix().len() as int, uri.len() as int))
    } else {
        None
    }
}

/// Splits the template name out of a `ui://` resource URI.
pub fn ui_resource_name(uri: &str) -> (r: Option<String>)
    ensures
        match r {
            Some(n) => spec_ui_resource_name(uri@) == Some(n@),
            None => spec_ui_resource_name(uri@) is None,
        },
{
    let cs = chars_of(uri);
    let pc = chars_of("ui://nostr-mcp/");
    if cs.len() < pc.len() {
        proof {
            assert(spec_ui_resource_name(uri@) is None);
        }
        return None;
    }
    let mut k: usize = 0;
    while k < pc.len()
        invariant
            cs@ == uri@,
            pc@ == ui_prefix(),
            pc@.len() <= cs@.len(),
            k <= pc@.len(),
            forall|m: int| 0 <= m < k ==> cs@[m] == pc@[m],
        decreases pc@.len() - k,
    {
        if cs[k] != pc[k] {
            proof {
                assert(uri@.subrange(0, ui_prefix().len() as int)[k as int] != ui_prefix()[
                    k as int
                ]);
            }
            return None;
        }
        k = k + 1;
    }
    proof {
        assert(uri@.subrange(0, ui_prefix().len() as int) =~= ui_prefix());
    }
    Some(string_from_range(&cs, k, cs.len()))
}

} // verus!
