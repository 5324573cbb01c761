//! HTML templates for the tool-result UI cards, embedded as string
//! literals. `get_template` assembles the named card from its parts, with
//! the shared style sheet injected between head and body.

use vstd::prelude::*;
use crate::textutil::str_eq;

verus! {

/// The shared style sheet injected into every template.
pub open spec fn css_view() -> Seq<char> {
    "*{box-sizing:border-box;margin:0;padding:0}body{font-family:sans-serif;background:var(--bg,#fff);color:var(--fg,#15171a);padding:12px}.card{border:1px solid #d7dbe0;border-radius:10px;padding:14px;max-width:560px}.card h2{font-size:1.05em;margin-bottom:6px}.muted{color:#6b7280;font-size:0.85em}"@
}

/// The part of every template that stands before the style sheet.
pub open spec fn head_view() -> Seq<char> {
    "<!DOCTYPE html>\n<html>\n<head>\n<meta charset=\"utf-8\">\n<style>\n"@
}

/// The part of the note card that stands after the style sheet.
pub open spec fn note_tail_view() -> Seq<char> {
    "</style>\n</head>\n<body>\n<div class=\"card\" id=\"note-card\">\n<h2 id=\"author\"></h2>\n<p id=\"content\"></p>\n<p class=\"muted\" id=\"footer\"></p>\n</div>\n</body>\n</html>\n"@
}

/// The part of the article card that stands after the style sheet.
pub open spec fn article_tail_view() -> Seq<char> {
    "</style>\n</head>\n<body>\n<div class=\"card\" id=\"article-card\">\n<h2 id=\"title\"></h2>\n<p class=\"muted\" id=\"summary\"></p>\n<p id=\"content\"></p>\n</div>\n</body>\n</html>\n"@
}

/// The part of the profile card that stands after the style sheet.
pub open spec fn profile_tail_view() -> Seq<char> {
    "</style>\n</head>\n<body>\n<div class=\"card\" id=\"profile-card\">\n<h2 id=\"name\"></h2>\n<p class=\"muted\" id=\"nip05\"></p>\n<p id=\"bio\"></p>\n</div>\n</body>\n</html>\n"@
}

/// The part of the zap button that stands after the style sheet.
pub open spec fn zap_tail_view() -> Seq<char> {
    "</style>\n</head>\n<body>\n<div class=\"card\" id=\"zap-button\">\n<h2>Zap</h2>\n<p class=\"muted\" id=\"amount\"></p>\n</div>\n</body>\n</html>\n"@
}

/// The part of the pairing screen that stands after the style sheet.
pub open spec fn connect_tail_view() -> Seq<char> {
    "</style>\n</head>\n<body>\n<div class=\"card\" id=\"connect-qr\">\n<h2>Connect a signer</h2>\n<img id=\"qr\" alt=\"pairing code\">\n<p class=\"muted\" id=\"uri\"></p>\n</div>\n</body>\n</html>\n"@
}

/// Whether `name` names a template.
pub open spec fn known_template(name: Seq<char>) -> bool {
    ||| name == "note-card"@
    ||| name == "article-card"@
    ||| name == "profile-card"@
    ||| name == "zap-button"@
    ||| name == "connect-qr"@
}

/// The tail of the named template.
pub open spec fn tail_view(name: Seq<char>) -> Seq<char> {
    if name == "note-card"@ {
        note_tail_view()
    } else if name == "article-card"@ {
        article_tail_view()
    } else if name == "profile-card"@ {
        profile_tail_view()
    } else if name == "zap-button"@ {
        zap_tail_view()
    } else {
        connect_tail_view()
    }
}

/// The processed template: head, shared style sheet, tail.
pub open spec fn spec_template(name: Seq<char>) -> Seq<char> {
    head_view() + css_view() + tail_view(name)
}

/// Builds one processed template from its tail.
fn build_template(tail: &str) -> (r: String)
    ensures
        r@ == head_view() + css_view() + tail@,
{
    let h = String::from_str(
        "<!DOCTYPE html>\n<html>\n<head>\n<meta charset=\"utf-8\">\n<style>\n",
    );
    let hc = h.concat(
        "*{box-sizing:border-box;margin:0;padding:0}body{font-family:sans-serif;background:var(--bg,#fff);color:var(--fg,#15171a);padding:12px}.card{border:1px solid #d7dbe0;border-radius:10px;padding:14px;max-width:560px}.card h2{font-size:1.05em;margin-bottom:6px}.muted{color:#6b7280;font-size:0.85em}",
    );
    hc.concat(tail)
}

/// The processed HTML for the named template, with the shared style sheet
/// injected; `None` for an unknown name.
pub fn get_template(name: &str) -> (r: Option<String>)
    ensures
        r is Some <==> known_template(name@),
        r is Some ==> r->Some_0@ == spec_template(name@),
{
    if str_eq(name, "note-card") {
        Some(
            build_template(
                "</style>\n</head>\n<body>\n<div class=\"card\" id=\"note-card\">\n<h2 id=\"author\"></h2>\n<p id=\"content\"></p>\n<p class=\"muted\" id=\"footer\"></p>\n</div>\n</body>\n</html>\n",
            ),
        )
    } else if str_eq(name, "article-card") {
        Some(
            build_template(
                "</style>\n</head>\n<body>\n<div class=\"card\" id=\"article-card\">\n<h2 id=\"title\"></h2>\n<p class=\"muted\" id=\"summary\"></p>\n<p id=\"content\"></p>\n</div>\n</body>\n</html>\n",
            ),
        )
    } else if str_eq(name, "profile-card") {
        Some(
            build_template(
                "</style>\n</head>\n<body>\n<div class=\"card\" id=\"profile-card\">\n<h2 id=\"name\"></h2>\n<p class=\"muted\" id=\"nip05\"></p>\n<p id=\"bio\"></p>\n</div>\n</body>\n</html>\n",
            ),
        )
    } else if str_eq(name, "zap-button") {
        Some(
            build_template(
                "</style>\n</head>\n<body>\n<div class=\"card\" id=\"zap-button\">\n<h2>Zap</h2>\n<p class=\"muted\" id=\"amount\"></p>\n</div>\n</body>\n</html>\n",
            ),
        )
    } else if str_eq(name, "connect-qr") {
        Some(
            build_template(
                "</style>\n</head>\n<body>\n<div class=\"card\" id=\"connect-qr\">\n<h2>Connect a signer</h2>\n<img id=\"qr\" alt=\"pairing code\">\n<p class=\"muted\" id=\"uri\"></p>\n</div>\n</body>\n</html>\n",
            ),
        )
    } else {
        None
    }
}

/// A short description of the named template; empty for an unknown name.
pub open spec fn spec_description(name: Seq<char>) -> Seq<char> {
    if name == "note-card"@ {
        "Rich preview card for a Nostr note"@
    } else if name == "article-card"@ {
        "Preview card for a Nostr long-form article"@
    } else if name == "profile-card"@ {
        "Nostr user profile card"@
    } else if name == "zap-button"@ {
        "Lightning zap sending UI"@
    } else if name == "connect-qr"@ {
        "NIP-46 Nostr Connect pairing screen"@
    } else {
        ""@
    }
}

/// A short description of the named template.
pub fn get_template_description(name: &str) -> (r: &'static str)
    ensures
        r@ == spec_description(name@),
{
    if str_eq(name, "note-card") {
        "Rich preview card for a Nostr note"
    } else if str_eq(name, "article-card") {
        "Preview card for a Nostr long-form article"
    } else if str_eq(name, "profile-card") {
        "Nostr user profile card"
    } else if str_eq(name, "zap-button") {
        "Lightning zap sending UI"
    } else if str_eq(name, "connect-qr") {
        "NIP-46 Nostr Connect pairing screen"
    } else {
        ""
    }
}

/// The display name of the named template; empty for an unknown name.
pub open spec fn spec_display_name(name: Seq<char>) -> Seq<char> {
    if name == "note-card"@ {
        "Nostr Note Card"@
    } else if name == "article-card"@ {
        "Nostr Article Preview"@
    } else if name == "profile-card"@ {
        "Nostr Profile Card"@
    } else if name == "zap-button"@ {
        "Nostr Zap Button"@
    } else if name == "connect-qr"@ {
        "Nostr Connect QR"@
    } else {
        ""@
    }
}

/// The display name of the named template.
pub fn get_template_display_name(name: &str) -> (r: &'static str)
    ensures
        r@ == spec_display_name(name@),
{
    if str_eq(name, "note-card") {
        "Nostr Note Card"
    } else if str_eq(name, "article-card") {
        "Nostr Article Preview"
    } else if str_eq(name, "profile-card") {
        "Nostr Profile Card"
    } else if str_eq(name, "zap-button") {
        "Nostr Zap Button"
    } else if str_eq(name, "connect-qr") {
        "Nostr Connect QR"
    } else {
        ""
    }
}

} // verus!
