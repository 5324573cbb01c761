//! The pure kernels of the note and event handlers: author display names,
//! sorting and truncating result lists, event-tag lookup, bolt11 amounts
//! and zap-receipt fields, and the display formatting of notes.
//!
//! The handlers that fetch events from relays live in the surrounding
//! application; everything they compute in between is here.

use vstd::prelude::*;
use vstd::seq_lib::group_seq_properties;
use vstd::multiset::Multiset;
use crate::textutil::{chars_of, push_char, lower_char, ascii_lower, lower_seq};
use crate::encoding::hex_digit;

verus! {

/// An author, as shown beside a note.
#[derive(Debug, Clone)]
pub struct AuthorInfo {
    /// The public key, hex-encoded.
    pub pubkey: String,
    /// The public key in npub form.
    pub npub: String,
    /// The profile's user name, if known.
    pub name: Option<String>,
    /// The profile's display name, if known.
    pub display_name: Option<String>,
    /// The profile picture URL, if known.
    pub picture: Option<String>,
    /// The NIP-05 identifier, if known.
    pub nip05: Option<String>,
}

/// A note, ready for display.
#[derive(Debug, Clone)]
pub struct NoteInfo {
    /// The event id, hex-encoded.
    pub id: String,
    /// The event id in nevent form.
    pub nevent: String,
    /// The author.
    pub author: AuthorInfo,
    /// The note text.
    pub content: String,
    /// The creation time, as a Unix timestamp.
    pub created_at: u64,
    /// How many reactions the note drew, when counted.
    pub reactions: Option<u64>,
    /// How many replies the note drew, when counted.
    pub replies: Option<u64>,
}

/// The decimal representation of a number, most significant digit first.
pub open spec fn dec_rep(n: nat) -> Seq<char>
    decreases n,
{
    if n < 10 {
        seq![hex_digit(n as int)]
    } else {
        dec_rep(n / 10).push(hex_digit((n % 10) as int))
    }
}

/// Writes a number in decimal.
pub fn u64_to_string(n: u64) -> (r: String)
    ensures
        r@ == dec_rep(n as nat),
    decreases n,
{
    if n < 10 {
        let mut s = String::new();
        push_char(&mut s, crate::encoding::hex_digit_char(n as u8));
        proof {
            assert(s@ =~= dec_rep(n as nat));
        }
        s
    } else {
        let mut s = u64_to_string(n / 10);
        push_char(&mut s, crate::encoding::hex_digit_char((n % 10) as u8));
        s
    }
}

/// The shortened npub: the first twelve characters, an ellipsis, and the
/// last four — or the whole npub when it is not longer than sixteen
/// characters.
pub open spec fn spec_short_npub(s: Seq<char>) -> Seq<char> {
    if s.len() > 16 {
        s.subrange(0, 12) + "..."@ + s.subrange(s.len() - 4, s.len() as int)
    } else {
        s
    }
}

/// The display name an author is shown under: the display name, else the
/// user name, else the shortened npub.
pub open spec fn spec_display(a: AuthorInfo) -> Seq<char> {
    match a.display_name {
        Some(d) => d@,
        None => match a.name {
            Some(n) => n@,
            None => spec_short_npub(a.npub@),
        },
    }
}

impl AuthorInfo {
    /// The shortened npub.
    pub fn short_npub(&self) -> (r: String)
        ensures
            r@ == spec_short_npub(self.npub@),
    {
        let cs = chars_of(self.npub.as_str());
        if cs.len() > 16 {
            let mut out = String::new();
            let mut i: usize = 0;
            while i < 12
                invariant
                    cs@ == self.npub@,
                    cs@.len() > 16,
                    i <= 12,
                    out@ == self.npub@.subrange(0, i as int),
                decreases 12 - i,
            {
                push_char(&mut out, cs[i]);
                proof {
                    assert(out@ =~= self.npub@.subrange(0, i + 1));
                }
                i = i + 1;
            }
            out.append("...");
            let mut k: usize = cs.len() - 4;
            while k < cs.len()
                invariant
                    cs@ == self.npub@,
                    cs@.len() > 16,
                    cs@.len() - 4 <= k <= cs@.len(),
                    out@ == self.npub@.subrange(0, 12) + "..."@ + self.npub@.subrange(
                        self.npub@.len() - 4,
                        k as int,
                    ),
                decreases cs@.len() - k,
            {
                push_char(&mut out, cs[k]);
                proof {
                    assert(out@ =~= self.npub@.subrange(0, 12) + "..."@ + self.npub@.subrange(
                        self.npub@.len() - 4,
                        k + 1,
                    ));
                }
                k = k + 1;
            }
            out
        } else {
            self.npub.clone()
        }
    }

    /// The display name this author is shown under.
    pub fn display(&self) -> (r: String)
        ensures
            r@ == spec_display(*self),
    {
        match &self.display_name {
            Some(d) => d.clone(),
            None => match &self.name {
                Some(n) => n.clone(),
                None => self.short_npub(),
            },
        }
    }
}

/// Descending by creation time.
pub open spec fn sorted_desc(s: Seq<NoteInfo>) -> bool {
    forall|k: int| 0 <= k < s.len() - 1 ==> #[trigger] s[k].created_at >= s[k + 1].created_at
}

/// Sorts notes newest first and keeps at most `limit` of them: the result
/// is the front of a descending reordering of the input.
pub fn sort_and_truncate(notes: &mut Vec<NoteInfo>, limit: usize)
    ensures
        sorted_desc(final(notes)@),
        final(notes)@.len() == if limit < old(notes)@.len() {
            limit as int
        } else {
            old(notes)@.len() as int
        },
        exists|s: Seq<NoteInfo>|
            {
                &&& #[trigger] s.to_multiset() == old(notes)@.to_multiset()
                &&& sorted_desc(s)
                &&& final(notes)@ == s.take(
                    if limit < old(notes)@.len() {
                        limit as int
                    } else {
                        old(notes)@.len() as int
                    },
                )
            },
{
    broadcast use group_seq_properties;
    broadcast use vstd::seq_lib::group_to_multiset_ensures;
    broadcast use vstd::multiset::group_multiset_axioms;

    let ghost orig = notes@;
    let mut out: Vec<NoteInfo> = Vec::new();
    // selection sort: repeatedly move the newest remaining note over
    while notes.len() > 0
        invariant
            out@.to_multiset().add(notes@.to_multiset()) == orig.to_multiset(),
            sorted_desc(out@),
            forall|a: int, b: int|
                0 <= a < out@.len() && 0 <= b < notes@.len() ==> #[trigger] out@[a].created_at
                    >= #[trigger] notes@[b].created_at,
        decreases notes@.len(),
    {
        // find the index of the newest remaining note
        let mut best: usize = 0;
        let mut i: usize = 1;
        while i < notes.len()
            invariant
                notes@.len() > 0,
                best < i <= notes@.len(),
                forall|j: int|
                    0 <= j < i ==> notes@[best as int].created_at >= #[trigger] notes@[j].created_at,
            decreases notes@.len() - i,
        {
            if notes[i].created_at > notes[best].created_at {
                best = i;
            }
            i = i + 1;
        }
        let ghost before = notes@;
        let picked = notes.remove(best);
        let ghost mid = out@;
        out.push(picked);
        proof {
            vstd::seq_lib::to_multiset_remove::<NoteInfo>(before, best as int);
            vstd::seq_lib::to_multiset_build::<NoteInfo>(mid, picked);
            assert(before.contains(picked));
            vstd::seq_lib::to_multiset_contains::<NoteInfo>(before, picked);
            assert(before.to_multiset().count(picked) > 0);
            assert(out@.to_multiset().add(notes@.to_multiset()) =~= orig.to_multiset());
            assert forall|b: int| 0 <= b < notes@.len() implies picked.created_at >= #[trigger] notes@[b].created_at by {
                if b < best {
                    assert(notes@[b] == before[b]);
                } else {
                    assert(notes@[b] == before[b + 1]);
                }
            }
        }
    }
    proof {
        assert(notes@.to_multiset() =~= Multiset::empty());
        assert(out@.to_multiset() =~= orig.to_multiset());
    }
    // keep the front
    let ghost sorted_full = out@;
    let ghost keep: int = if limit < out@.len() {
        limit as int
    } else {
        out@.len() as int
    };
    out.truncate(limit);
    proof {
        assert(out@ =~= sorted_full.take(keep));
    }
    *notes = out;
    proof {
        assert(sorted_full.to_multiset() == orig.to_multiset());
        vstd::seq_lib::to_multiset_len::<NoteInfo>(sorted_full);
        vstd::seq_lib::to_multiset_len::<NoteInfo>(orig);
        assert(sorted_full.len() == orig.len());
        assert(sorted_desc(notes@));
        let cut = if limit < orig.len() {
            limit as int
        } else {
            orig.len() as int
        };
        assert(keep == cut);
        assert(exists|s: Seq<NoteInfo>|
            {
                &&& #[trigger] s.to_multiset() == orig.to_multiset()
                &&& sorted_desc(s)
                &&& notes@ == s.take(cut)
            }) by {
            assert(sorted_full.to_multiset() == orig.to_multiset() && sorted_desc(sorted_full)
                && notes@ == sorted_full.take(cut));
        }
    }
}

/// The value of the first tag whose key matches, scanning from `i`: a tag
/// is a list of strings, its key the first and its value the second.
pub open spec fn tag_value_from(ts: Seq<Seq<Seq<char>>>, key: Seq<char>, i: int) -> Option<
    Seq<char>,
>
    decreases ts.len() - i,
{
    if 0 <= i < ts.len() {
        if ts[i].len() >= 2 && ts[i][0] == key {
            Some(ts[i][1])
        } else {
            tag_value_from(ts, key, i + 1)
        }
    } else {
        None
    }
}

/// The value of the first tag with the given key, as a note event
/// carries it: `["title", "..."]`, `["e", "<id>"]` and the like.
pub fn find_tag_value(tags: &Vec<Vec<String>>, key: &str) -> (r: Option<String>)
    ensures
        match r {
            Some(v) => tag_value_from(tags.deep_view(), key@, 0) == Some(v@),
            None => tag_value_from(tags.deep_view(), key@, 0) is None,
        },
{
    let ghost ts = tags.deep_view();
    let mut i: usize = 0;
    while i < tags.len()
        invariant
            ts == tags.deep_view(),
            i <= ts.len(),
            tag_value_from(ts, key@, 0) == tag_value_from(ts, key@, i as int),
        decreases ts.len() - i,
    {
        proof {
            assert(ts[i as int] == tags@[i as int].deep_view());
        }
        if tags[i].len() >= 2 && crate::textutil::str_eq(tags[i][0].as_str(), key) {
            proof {
                assert(ts[i as int][0] == tags@[i as int]@[0]@);
                assert(ts[i as int][1] == tags@[i as int]@[1]@);
            }
            return Some(tags[i][1].clone());
        }
        proof {
            if ts[i as int].len() >= 2 {
                assert(ts[i as int][0] == tags@[i as int]@[0]@);
            }
        }
        i = i + 1;
    }
    None
}

/// How many tags from `i` on carry the given key.
pub open spec fn tag_count_from(ts: Seq<Seq<Seq<char>>>, key: Seq<char>, i: int) -> int
    decreases ts.len() - i,
{
    if 0 <= i < ts.len() {
        (if ts[i].len() >= 2 && ts[i][0] == key {
            1int
        } else {
            0int
        }) + tag_count_from(ts, key, i + 1)
    } else {
        0
    }
}

/// Counts the tags with the given key — the following count of a contact
/// list is the number of its `p` tags.
pub fn count_tags_with_key(tags: &Vec<Vec<String>>, key: &str) -> (r: usize)
    ensures
        r == tag_count_from(tags.deep_view(), key@, 0),
{
    let ghost ts = tags.deep_view();
    let mut n: usize = 0;
    let mut i: usize = 0;
    while i < tags.len()
        invariant
            ts == tags.deep_view(),
            i <= ts.len(),
            n <= i,
            n + tag_count_from(ts, key@, i as int) == tag_count_from(ts, key@, 0),
        decreases ts.len() - i,
    {
        proof {
            assert(ts[i as int] == tags@[i as int].deep_view());
            if ts[i as int].len() >= 2 {
                assert(ts[i as int][0] == tags@[i as int]@[0]@);
            }
        }
        if tags[i].len() >= 2 && crate::textutil::str_eq(tags[i][0].as_str(), key) {
            n = n + 1;
        }
        i = i + 1;
    }
    n
}

/// The root an `e` tag with a `root` marker points to, scanning from `i`:
/// NIP-10 reply threading.
pub open spec fn root_marker_from(ts: Seq<Seq<Seq<char>>>, i: int) -> Option<Seq<char>>
    decreases ts.len() - i,
{
    if 0 <= i < ts.len() {
        if ts[i].len() >= 4 && ts[i][0] == "e"@ && ts[i][3] == "root"@ {
            Some(ts[i][1])
        } else {
            root_marker_from(ts, i + 1)
        }
    } else {
        None
    }
}

/// The event id the first `e` tag marked `root` points to, if any: where a
/// reply should anchor its thread.
pub fn find_root_marker(tags: &Vec<Vec<String>>) -> (r: Option<String>)
    ensures
        match r {
            Some(v) => root_marker_from(tags.deep_view(), 0) == Some(v@),
            None => root_marker_from(tags.deep_view(), 0) is None,
        },
{
    let ghost ts = tags.deep_view();
    let mut i: usize = 0;
    while i < tags.len()
        invariant
            ts == tags.deep_view(),
            i <= ts.len(),
            root_marker_from(ts, 0) == root_marker_from(ts, i as int),
        decreases ts.len() - i,
    {
        proof {
            assert(ts[i as int] == tags@[i as int].deep_view());
            if ts[i as int].len() >= 4 {
                assert(ts[i as int][0] == tags@[i as int]@[0]@);
                assert(ts[i as int][3] == tags@[i as int]@[3]@);
            }
        }
        if tags[i].len() >= 4 && crate::textutil::str_eq(tags[i][0].as_str(), "e")
            && crate::textutil::str_eq(tags[i][3].as_str(), "root") {
            proof {
                assert(ts[i as int][1] == tags@[i as int]@[1]@);
            }
            return Some(tags[i][1].clone());
        }
        i = i + 1;
    }
    None
}

/// An ASCII decimal digit.
pub open spec fn is_digit(c: char) -> bool {
    '0' <= c && c <= '9'
}

/// The first position at or after `j` that is not a digit.
pub open spec fn digits_end(s: Seq<char>, j: int) -> int
    decreases s.len() - j,
{
    if j < s.len() && is_digit(s[j]) {
        digits_end(s, j + 1)
    } else {
        j
    }
}

/// The numeric value of the digits `s[j..e]`.
pub open spec fn dec_value(s: Seq<char>, j: int, e: int) -> int
    decreases e - j,
{
    if j < e {
        dec_value(s, j, e - 1) * 10 + (s[e - 1] as int - '0' as int)
    } else {
        0
    }
}

/// The amount in sats named by a bolt11 invoice: `lnbc`, a number, and a
/// unit multiplier (`m`illi, `u` micro, `n`ano, `p`ico, else whole BTC).
/// Zero for anything unreadable or any amount beyond the integer range.
pub open spec fn spec_bolt11_amount(s: Seq<char>) -> int {
    let l = lower_seq(s);
    if l.len() >= 4 && l[0] == 'l' && l[1] == 'n' && l[2] == 'b' && l[3] == 'c' {
        let e = digits_end(l, 4);
        if e == 4 {
            0
        } else {
            let v = dec_value(l, 4, e);
            if v > u64::MAX {
                0
            } else if e < l.len() && l[e] == 'm' {
                if v * 100000 <= u64::MAX {
                    v * 100000
                } else {
                    0
                }
            } else if e < l.len() && l[e] == 'u' {
                if v * 100 <= u64::MAX {
                    v * 100
                } else {
                    0
                }
            } else if e < l.len() && l[e] == 'n' {
                v / 10
            } else if e < l.len() && l[e] == 'p' {
                v / 10000
            } else {
                if v * 100000000 <= u64::MAX {
                    v * 100000000
                } else {
                    0
                }
            }
        }
    } else {
        0
    }
}

/// Reads the amount in sats out of a bolt11 invoice.
pub fn extract_bolt11_amount(bolt11: &str) -> (r: u64)
    ensures
        r == spec_bolt11_amount(bolt11@),
{
    let cs = chars_of(bolt11);
    let ghost l = lower_seq(bolt11@);
    // lower-case a copy
    let mut low: Vec<char> = Vec::new();
    let mut i: usize = 0;
    while i < cs.len()
        invariant
            cs@ == bolt11@,
            l == lower_seq(bolt11@),
            i <= cs@.len(),
            low@ == l.take(i as int),
        decreases cs@.len() - i,
    {
        low.push(lower_char(cs[i]));
        proof {
            assert(lower_seq(bolt11@)[i as int] == ascii_lower(bolt11@[i as int]));
            assert(low@ =~= l.take(i + 1));
        }
        i = i + 1;
    }
    proof {
        assert(low@ =~= l);
    }
    if !(low.len() >= 4 && low[0] == 'l' && low[1] == 'n' && low[2] == 'b' && low[3] == 'c') {
        return 0;
    }
    // scan the digits, watching for overflow
    let mut e: usize = 4;
    let mut acc: u64 = 0;
    let mut over: bool = false;
    while e < low.len() && low[e] >= '0' && low[e] <= '9'
        invariant
            low@ == l,
            4 <= e <= l.len(),
            digits_end(l, 4) == digits_end(l, e as int),
            !over ==> acc == dec_value(l, 4, e as int),
            over ==> dec_value(l, 4, e as int) > u64::MAX,
        decreases l.len() - e,
    {
        let d: u64 = char_digit(low[e]);
        proof {
            assert(d == l[e as int] as int - '0' as int);
            assert(dec_value(l, 4, e + 1) == dec_value(l, 4, e as int) * 10 + d);
        }
        if over {
            proof {
                assert(dec_value(l, 4, e as int) * 10 + d > u64::MAX) by (nonlinear_arith)
                    requires
                        dec_value(l, 4, e as int) > u64::MAX,
                        d >= 0,
                ;
            }
        } else {
            let step = acc.checked_mul(10);
            match step {
                Some(t) => {
                    match t.checked_add(d) {
                        Some(v) => {
                            acc = v;
                        },
                        None => {
                            over = true;
                        },
                    }
                },
                None => {
                    over = true;
                    proof {
                        assert(acc * 10 + d > u64::MAX);
                    }
                },
            }
        }
        e = e + 1;
    }
    proof {
        assert(digits_end(l, e as int) == e);
    }
    if e == 4 {
        return 0;
    }
    if over {
        return 0;
    }
    // apply the unit multiplier
    if e < low.len() && low[e] == 'm' {
        match acc.checked_mul(100000) {
            Some(v) => v,
            None => 0,
        }
    } else if e < low.len() && low[e] == 'u' {
        match acc.checked_mul(100) {
            Some(v) => v,
            None => 0,
        }
    } else if e < low.len() && low[e] == 'n' {
        acc / 10
    } else if e < low.len() && low[e] == 'p' {
        acc / 10000
    } else {
        match acc.checked_mul(100000000) {
            Some(v) => v,
            None => 0,
        }
    }
}

/// The numeric value of one ASCII digit.
fn char_digit(c: char) -> (r: u64)
    requires
        is_digit(c),
    ensures
        r == c as int - '0' as int,
        r < 10,
{
    if c == '0' {
        0
    } else if c == '1' {
        1
    } else if c == '2' {
        2
    } else if c == '3' {
        3
    } else if c == '4' {
        4
    } else if c == '5' {
        5
    } else if c == '6' {
        6
    } else if c == '7' {
        7
    } else if c == '8' {
        8
    } else {
        9
    }
}

/// What the JSON reader finds in a zap request description: the `pubkey`
/// and `content` string fields, if the text parses as an object carrying
/// them. A function of the text alone, so only named.
pub uninterp spec fn zap_desc_fields(s: Seq<char>) -> (Option<Seq<char>>, Option<Seq<char>>);

/// Relies on `serde_json::from_str::<serde_json::Value>` and the `Value`
/// accessors `get` and `as_str`: reads the `pubkey` and `content` string
/// fields of the description, a function of the text alone.
#[verifier::external_body]
fn zap_description_fields(desc: &str) -> (r: (Option<String>, Option<String>))
    ensures
        zap_desc_fields(desc@).0 == match r.0 {
            Some(p) => Some(p@),
            None => None::<Seq<char>>,
        },
        zap_desc_fields(desc@).1 == match r.1 {
            Some(c) => Some(c@),
            None => None::<Seq<char>>,
        },
{
    match serde_json::from_str::<serde_json::Value>(desc) {
        Ok(v) => (
            v.get("pubkey").and_then(|x| x.as_str()).map(String::from),
            v.get("content").and_then(|x| x.as_str()).map(String::from),
        ),
        Err(_) => (None, None),
    }
}

/// Reads the sender and comment out of a zap request description: the
/// `pubkey` field as it stands, and the `content` field unless it is
/// empty.
pub fn parse_zap_request_description(description: &str) -> (r: (Option<String>, Option<String>))
    ensures
        zap_desc_fields(description@).0 == match r.0 {
            Some(p) => Some(p@),
            None => None::<Seq<char>>,
        },
        match r.1 {
            Some(c) => zap_desc_fields(description@).1 == Some(c@) && c@.len() > 0,
            None => zap_desc_fields(description@).1 is None || zap_desc_fields(
                description@,
            ).1->Some_0.len() == 0,
        },
{
    let (pubkey, content) = zap_description_fields(description);
    let comment = match content {
        Some(c) => if c.as_str().is_empty() {
            None
        } else {
            Some(c)
        },
        None => None,
    };
    (pubkey, comment)
}


/// The header line of a note's display card: the display name, then the
/// NIP-05 identifier with an `@`, or the shortened npub.
pub open spec fn spec_card_header(a: AuthorInfo) -> Seq<char> {
    match a.nip05 {
        Some(n) => spec_display(a) + " (@"@ + n@ + ")"@,
        None => spec_display(a) + " ("@ + spec_short_npub(a.npub@) + ")"@,
    }
}

/// Writes the header line of a note's display card.
pub fn format_display_card_header(author: &AuthorInfo) -> (r: String)
    ensures
        r@ == spec_card_header(*author),
{
    let mut out = author.display();
    match &author.nip05 {
        Some(n) => {
            out.append(" (@");
            out.append(n.as_str());
            out.append(")");
        },
        None => {
            out.append(" (");
            let short = author.short_npub();
            out.append(short.as_str());
            out.append(")");
        },
    }
    proof {
        assert(out@ =~= spec_card_header(*author));
    }
    out
}

/// The footer line of a note's display card: the counted reactions and
/// replies, where they are positive, and the formatted time, joined by
/// dots.
pub open spec fn spec_card_footer(
    reactions: Option<u64>,
    replies: Option<u64>,
    formatted_time: Seq<char>,
) -> Seq<char> {
    let ra: Seq<char> = match reactions {
        Some(n) => if n > 0 {
            dec_rep(n as nat) + " \u{30ea}\u{30a2}\u{30af}\u{30b7}\u{30e7}\u{30f3}"@ + " \u{b7} "@
        } else {
            Seq::empty()
        },
        None => Seq::empty(),
    };
    let rp: Seq<char> = match replies {
        Some(n) => if n > 0 {
            dec_rep(n as nat) + " \u{30ea}\u{30d7}\u{30e9}\u{30a4}"@ + " \u{b7} "@
        } else {
            Seq::empty()
        },
        None => Seq::empty(),
    };
    ra + rp + formatted_time
}

/// Writes the footer line of a note's display card.
pub fn format_display_card_footer(
    reactions: Option<u64>,
    replies: Option<u64>,
    formatted_time: &str,
) -> (r: String)
    ensures
        r@ == spec_card_footer(reactions, replies, formatted_time@),
{
    let mut out = String::new();
    match reactions {
        Some(n) => if n > 0 {
            let num = u64_to_string(n);
            out.append(num.as_str());
            out.append(" \u{30ea}\u{30a2}\u{30af}\u{30b7}\u{30e7}\u{30f3}");
            out.append(" \u{b7} ");
        },
        None => {},
    }
    match replies {
        Some(n) => if n > 0 {
            let num = u64_to_string(n);
            out.append(num.as_str());
            out.append(" \u{30ea}\u{30d7}\u{30e9}\u{30a4}");
            out.append(" \u{b7} ");
        },
        None => {},
    }
    out.append(formatted_time);
    proof {
        assert(out@ =~= spec_card_footer(reactions, replies, formatted_time@));
    }
    out
}

/// What the calendar gives for a timestamp: its date written
/// `year-month-day`. The civil-calendar arithmetic is not written out; the
/// result is only named.
pub uninterp spec fn ymd_of(ts: int) -> Seq<char>;

/// Relies on `chrono::DateTime::from_timestamp` and `format("%Y-%m-%d")`:
/// the UTC date of a timestamp, a function of the timestamp alone; nothing
/// for a timestamp the calendar cannot hold. The calendar reaches the year
/// 262142, so every timestamp up to eight trillion seconds is in range.
#[verifier::external_body]
fn format_date_ymd(ts: u64) -> (r: Option<String>)
    ensures
        r matches Some(s) ==> s@ == ymd_of(ts as int),
        ts <= 8000000000000 ==> r is Some,
{
    let signed = i64::try_from(ts).ok()?;
    let dt = chrono::DateTime::from_timestamp(signed, 0)?;
    Some(dt.format("%Y-%m-%d").to_string())
}

/// Writes a timestamp as a relative time against `now`: moments, minutes,
/// hours or days ago, and the plain date beyond a week (or the raw number
/// where the calendar cannot hold it).
pub fn format_timestamp_at(timestamp: u64, now: u64) -> (r: String)
    ensures
        ({
            let diff = if now >= timestamp {
                now - timestamp
            } else {
                0int
            };
            &&& diff < 60 ==> r@ == "\u{305f}\u{3063}\u{305f}\u{4eca}"@
            &&& (60 <= diff < 3600) ==> r@ == dec_rep((diff / 60) as nat) + "\u{5206}\u{524d}"@
            &&& (3600 <= diff < 86400) ==> r@ == dec_rep((diff / 3600) as nat)
                + "\u{6642}\u{9593}\u{524d}"@
            &&& (86400 <= diff < 604800) ==> r@ == dec_rep((diff / 86400) as nat)
                + "\u{65e5}\u{524d}"@
            &&& (diff >= 604800 && timestamp <= 8000000000000) ==> r@ == ymd_of(
                timestamp as int,
            )
            &&& (diff >= 604800 && timestamp > 8000000000000) ==> (r@ == ymd_of(
                timestamp as int,
            ) || r@ == dec_rep(timestamp as nat))
        }),
{
    let diff: u64 = if now >= timestamp {
        now - timestamp
    } else {
        0
    };
    if diff < 60 {
        String::from_str("\u{305f}\u{3063}\u{305f}\u{4eca}")
    } else if diff < 3600 {
        let num = u64_to_string(diff / 60);
        num.concat("\u{5206}\u{524d}")
    } else if diff < 86400 {
        let num = u64_to_string(diff / 3600);
        num.concat("\u{6642}\u{9593}\u{524d}")
    } else if diff < 604800 {
        let num = u64_to_string(diff / 86400);
        num.concat("\u{65e5}\u{524d}")
    } else {
        match format_date_ymd(timestamp) {
            Some(s) => s,
            None => u64_to_string(timestamp),
        }
    }
}

/// What Unicode lower-casing returns for a character sequence. The full
/// case mapping is a table, so the result is only named.
pub uninterp spec fn lower_of(s: Seq<char>) -> Seq<char>;

/// Relies on `str::to_lowercase`: the Unicode lower-case mapping, a
/// function of the characters alone; an empty string stays empty.
#[verifier::external_body]
fn to_lowercase_str(s: &str) -> (r: String)
    ensures
        r@ == lower_of(s@),
        s@.len() == 0 ==> r@.len() == 0,
{
    s.to_lowercase()
}

/// Spaces become dashes; every other character stands.
pub open spec fn space_to_dash(s: Seq<char>) -> Seq<char> {
    s.map_values(
        |c: char|
            if c == ' ' {
                '-'
            } else {
                c
            },
    )
}

/// The first position at or after `i` that is not a dash.
pub open spec fn dash_start(s: Seq<char>, i: int) -> int
    decreases s.len() - i,
{
    if i < s.len() && s[i] == '-' {
        dash_start(s, i + 1)
    } else {
        i
    }
}

/// The position after the last non-dash at or after `a`, scanning back
/// from `j`.
pub open spec fn dash_end(s: Seq<char>, j: int, a: int) -> int
    decreases j - a,
{
    if j > a && s[j - 1] == '-' {
        dash_end(s, j - 1, a)
    } else {
        j
    }
}

/// The article identifier derived from a title: lower-cased, spaces turned
/// to dashes, dashes trimmed from both ends.
pub open spec fn spec_slug(title: Seq<char>) -> Seq<char> {
    let m = space_to_dash(lower_of(title));
    let a = dash_start(m, 0);
    let b = dash_end(m, m.len() as int, a);
    if 0 <= a <= b <= m.len() {
        m.subrange(a, b)
    } else {
        Seq::empty()
    }
}

/// `dash_start` stays within the text.
proof fn lemma_dash_start_le(s: Seq<char>, i: int)
    requires
        0 <= i <= s.len(),
    ensures
        i <= dash_start(s, i) <= s.len(),
    decreases s.len() - i,
{
    if i < s.len() && s[i] == '-' {
        lemma_dash_start_le(s, i + 1);
    }
}

/// `dash_end` stays between `a` and `j`.
proof fn lemma_dash_end_range(s: Seq<char>, j: int, a: int)
    requires
        0 <= a <= j,
    ensures
        a <= dash_end(s, j, a) <= j,
    decreases j - a,
{
    if j > a && s[j - 1] == '-' {
        lemma_dash_end_range(s, j - 1, a);
    }
}

/// Derives the identifier for an article from its title.
pub fn slug_from_title(title: &str) -> (r: String)
    ensures
        r@ == spec_slug(title@),
{
    let lowered = to_lowercase_str(title);
    let cs = chars_of(lowered.as_str());
    let ghost m = space_to_dash(lower_of(title@));
    let mut mapped: Vec<char> = Vec::new();
    let mut i: usize = 0;
    while i < cs.len()
        invariant
            cs@ == lower_of(title@),
            m == space_to_dash(lower_of(title@)),
            i <= cs@.len(),
            mapped@ == m.take(i as int),
        decreases cs@.len() - i,
    {
        let c = cs[i];
        let d: char = if c == ' ' {
            '-'
        } else {
            c
        };
        mapped.push(d);
        proof {
            assert(m[i as int] == (if cs@[i as int] == ' ' {
                '-'
            } else {
                cs@[i as int]
            }));
            assert(mapped@ =~= m.take(i + 1));
        }
        i = i + 1;
    }
    proof {
        assert(mapped@ =~= m);
        lemma_dash_start_le(m, 0);
    }
    let mut a: usize = 0;
    while a < mapped.len() && mapped[a] == '-'
        invariant
            mapped@ == m,
            a <= m.len(),
            dash_start(m, 0) == dash_start(m, a as int),
        decreases m.len() - a,
    {
        a = a + 1;
    }
    proof {
        assert(dash_start(m, a as int) == a);
        lemma_dash_end_range(m, m.len() as int, a as int);
    }
    let mut b: usize = mapped.len();
    while b > a && mapped[b - 1] == '-'
        invariant
            mapped@ == m,
            a <= b <= m.len(),
            dash_start(m, 0) == a,
            dash_end(m, m.len() as int, a as int) == dash_end(m, b as int, a as int),
        decreases b,
    {
        b = b - 1;
    }
    proof {
        assert(dash_end(m, b as int, a as int) == b);
    }
    crate::textutil::string_from_range(&mapped, a, b)
}


/// The plain-decimal reading of a string: every character a digit, at
/// least one, and the value within range.
pub open spec fn spec_parse_u64(s: Seq<char>) -> Option<u64> {
    if s.len() > 0 && digits_end(s, 0) == s.len() && dec_value(s, 0, s.len() as int)
        <= u64::MAX {
        Some(dec_value(s, 0, s.len() as int) as u64)
    } else {
        None
    }
}

/// Reads a plain decimal number, as a `published_at` tag value carries
/// one; `None` for anything else.
pub fn parse_u64(s: &str) -> (r: Option<u64>)
    ensures
        r == spec_parse_u64(s@),
{
    let cs = chars_of(s);
    if cs.len() == 0 {
        return None;
    }
    let mut i: usize = 0;
    let mut acc: u64 = 0;
    let mut over: bool = false;
    while i < cs.len()
        invariant
            cs@ == s@,
            i <= s@.len(),
            forall|j: int| 0 <= j < i ==> is_digit(s@[j]),
            !over ==> acc == dec_value(s@, 0, i as int),
            over ==> dec_value(s@, 0, i as int) > u64::MAX,
        decreases s@.len() - i,
    {
        let c = cs[i];
        if !('0' <= c && c <= '9') {
            proof {
                assert(digits_end(s@, i as int) == i);
                assert(digits_end(s@, 0) == i) by {
                    lemma_digits_end_stable(s@, 0, i as int);
                }
            }
            return None;
        }
        let d: u64 = char_digit(c);
        proof {
            assert(dec_value(s@, 0, i + 1) == dec_value(s@, 0, i as int) * 10 + d);
        }
        if over {
            proof {
                assert(dec_value(s@, 0, i as int) * 10 + d > u64::MAX) by (nonlinear_arith)
                    requires
                        dec_value(s@, 0, i as int) > u64::MAX,
                        d >= 0,
                ;
            }
        } else {
            match acc.checked_mul(10) {
                Some(v10) => match v10.checked_add(d) {
                    Some(v) => {
                        acc = v;
                    },
                    None => {
                        over = true;
                    },
                },
                None => {
                    over = true;
                    proof {
                        assert(acc * 10 + d > u64::MAX);
                    }
                },
            }
        }
        i = i + 1;
    }
    proof {
        assert(digits_end(s@, 0) == s@.len()) by {
            lemma_digits_end_all(s@, 0);
        }
    }
    if over {
        None
    } else {
        Some(acc)
    }
}

/// While positions below `i` are digits, the digit scan from `0` passes
/// through `i`.
proof fn lemma_digits_end_stable(s: Seq<char>, j: int, i: int)
    requires
        0 <= j <= i <= s.len(),
        forall|k: int| j <= k < i ==> is_digit(s[k]),
        i == s.len() || !is_digit(s[i]),
    ensures
        digits_end(s, j) == i,
    decreases i - j,
{
    if j < i {
        lemma_digits_end_stable(s, j + 1, i);
    }
}

/// The digit scan never moves backwards.
proof fn lemma_digits_end_ge(s: Seq<char>, j: int)
    requires
        0 <= j <= s.len(),
    ensures
        digits_end(s, j) >= j,
    decreases s.len() - j,
{
    if j < s.len() && is_digit(s[j]) {
        lemma_digits_end_ge(s, j + 1);
    }
}

/// When every position from `j` on is a digit, the scan runs to the end.
proof fn lemma_digits_end_all(s: Seq<char>, j: int)
    requires
        0 <= j <= s.len(),
        forall|k: int| j <= k < s.len() ==> is_digit(s[k]),
    ensures
        digits_end(s, j) == s.len(),
    decreases s.len() - j,
{
    if j < s.len() {
        lemma_digits_end_all(s, j + 1);
    }
}

/// The values of all tags with the given key, scanning from `i`, in order.
pub open spec fn tag_values_from(ts: Seq<Seq<Seq<char>>>, key: Seq<char>, i: int) -> Seq<
    Seq<char>,
>
    decreases ts.len() - i,
{
    if 0 <= i < ts.len() {
        let rest = tag_values_from(ts, key, i + 1);
        if ts[i].len() >= 2 && ts[i][0] == key {
            seq![ts[i][1]] + rest
        } else {
            rest
        }
    } else {
        Seq::empty()
    }
}

/// The values of every tag with the given key — the accounts a contact
/// list follows are the values of its `p` tags.
pub fn collect_tag_values(tags: &Vec<Vec<String>>, key: &str) -> (r: Vec<String>)
    ensures
        r@.map_values(|t: String| t@) == tag_values_from(tags.deep_view(), key@, 0),
{
    let ghost ts = tags.deep_view();
    let mut out: Vec<String> = Vec::new();
    let mut i: usize = 0;
    while i < tags.len()
        invariant
            ts == tags.deep_view(),
            i <= ts.len(),
            tag_values_from(ts, key@, 0) == out@.map_values(|t: String| t@)
                + tag_values_from(ts, key@, i as int),
        decreases ts.len() - i,
    {
        proof {
            assert(ts[i as int] == tags@[i as int].deep_view());
            if ts[i as int].len() >= 2 {
                assert(ts[i as int][0] == tags@[i as int]@[0]@);
                assert(ts[i as int][1] == tags@[i as int]@[1]@);
            }
        }
        let ghost old_out = out@;
        if tags[i].len() >= 2 && crate::textutil::str_eq(tags[i][0].as_str(), key) {
            let v = tags[i][1].clone();
            out.push(v);
            proof {
                let f = |t: String| t@;
                assert(out@.map_values(f) =~= old_out.map_values(f).push(ts[i as int][1]));
                assert(old_out.map_values(f) + (seq![ts[i as int][1]] + tag_values_from(
                    ts,
                    key@,
                    i + 1,
                )) =~= out@.map_values(f) + tag_values_from(ts, key@, i + 1));
            }
        }
        i = i + 1;
    }
    proof {
        assert(out@.map_values(|t: String| t@) + tag_values_from(ts, key@, i as int) =~= out@
            .map_values(|t: String| t@));
    }
    out
}

/// How many tags from `i` on carry the given key and value.
pub open spec fn tag_pair_count_from(
    ts: Seq<Seq<Seq<char>>>,
    key: Seq<char>,
    value: Seq<char>,
    i: int,
) -> int
    decreases ts.len() - i,
{
    if 0 <= i < ts.len() {
        (if ts[i].len() >= 2 && ts[i][0] == key && ts[i][1] == value {
            1int
        } else {
            0int
        }) + tag_pair_count_from(ts, key, value, i + 1)
    } else {
        0
    }
}

/// Counts the tags carrying the given key and value: how many of the
/// gathered reaction or reply tags point at one note.
pub fn count_tag_pairs(tags: &Vec<Vec<String>>, key: &str, value: &str) -> (r: usize)
    ensures
        r == tag_pair_count_from(tags.deep_view(), key@, value@, 0),
{
    let ghost ts = tags.deep_view();
    let mut n: usize = 0;
    let mut i: usize = 0;
    while i < tags.len()
        invariant
            ts == tags.deep_view(),
            i <= ts.len(),
            n <= i,
            n + tag_pair_count_from(ts, key@, value@, i as int) == tag_pair_count_from(
                ts,
                key@,
                value@,
                0,
            ),
        decreases ts.len() - i,
    {
        proof {
            assert(ts[i as int] == tags@[i as int].deep_view());
            if ts[i as int].len() >= 2 {
                assert(ts[i as int][0] == tags@[i as int]@[0]@);
                assert(ts[i as int][1] == tags@[i as int]@[1]@);
            }
        }
        if tags[i].len() >= 2 && crate::textutil::str_eq(tags[i][0].as_str(), key)
            && crate::textutil::str_eq(tags[i][1].as_str(), value) {
            n = n + 1;
        }
        i = i + 1;
    }
    n
}

/// The `t` tags naming the first `i` topic hashtags.
pub open spec fn topic_tags_to(hs: Seq<Seq<char>>, i: int) -> Seq<Seq<Seq<char>>>
    decreases i,
{
    if 0 < i <= hs.len() {
        topic_tags_to(hs, i - 1).push(seq!["t"@, hs[i - 1]])
    } else {
        Seq::empty()
    }
}

/// The tag list of an article or draft: the identifier, the title, the
/// optional summary and header image, and one `t` tag per topic hashtag.
pub open spec fn spec_article_tags(
    title: Seq<char>,
    summary: Option<Seq<char>>,
    image: Option<Seq<char>>,
    hashtags: Seq<Seq<char>>,
    d_tag: Seq<char>,
) -> Seq<Seq<Seq<char>>> {
    let base = seq![seq!["d"@, d_tag], seq!["title"@, title]];
    let with_summary = match summary {
        Some(x) => base.push(seq!["summary"@, x]),
        None => base,
    };
    let with_image = match image {
        Some(x) => with_summary.push(seq!["image"@, x]),
        None => with_summary,
    };
    with_image + topic_tags_to(hashtags, hashtags.len() as int)
}

/// Builds the tag list of an article or draft, as plain string lists.
pub fn build_article_tags(
    title: &str,
    summary: Option<&str>,
    image: Option<&str>,
    hashtags: &Vec<String>,
    d_tag: &str,
) -> (r: Vec<Vec<String>>)
    ensures
        r.deep_view() == spec_article_tags(
            title@,
            match summary {
                Some(x) => Some(x@),
                None => None,
            },
            match image {
                Some(x) => Some(x@),
                None => None,
            },
            hashtags@.map_values(|t: String| t@),
            d_tag@,
        ),
{
    let ghost hs = hashtags@.map_values(|t: String| t@);
    let mut out: Vec<Vec<String>> = Vec::new();
    let mut entry: Vec<String> = Vec::new();
    entry.push(String::from_str("d"));
    entry.push(String::from_str(d_tag));
    out.push(entry);
    let mut entry: Vec<String> = Vec::new();
    entry.push(String::from_str("title"));
    entry.push(String::from_str(title));
    out.push(entry);
    match summary {
        Some(x) => {
            let mut entry: Vec<String> = Vec::new();
            entry.push(String::from_str("summary"));
            entry.push(String::from_str(x));
            out.push(entry);
        },
        None => {},
    }
    match image {
        Some(x) => {
            let mut entry: Vec<String> = Vec::new();
            entry.push(String::from_str("image"));
            entry.push(String::from_str(x));
            out.push(entry);
        },
        None => {},
    }
    let ghost head = out.deep_view();
    proof {
        assert(head =~~= spec_article_tags(
            title@,
            match summary {
                Some(x) => Some(x@),
                None => None,
            },
            match image {
                Some(x) => Some(x@),
                None => None,
            },
            Seq::empty(),
            d_tag@,
        ));
    }
    let mut i: usize = 0;
    while i < hashtags.len()
        invariant
            hs == hashtags@.map_values(|t: String| t@),
            i <= hs.len(),
            out.deep_view() == head + topic_tags_to(hs, i as int),
        decreases hs.len() - i,
    {
        let ghost old_deep = out.deep_view();
        let mut entry: Vec<String> = Vec::new();
        entry.push(String::from_str("t"));
        entry.push(hashtags[i].clone());
        proof {
            assert(hs[i as int] == hashtags@[i as int]@);
            assert(entry.deep_view() =~= seq!["t"@, hs[i as int]]);
        }
        out.push(entry);
        proof {
            assert(out@.len() == old_deep.len() + 1);
            assert(out.deep_view() =~= old_deep.push(seq!["t"@, hs[i as int]]));
            assert(out.deep_view() =~~= head + topic_tags_to(hs, i + 1));
        }
        i = i + 1;
    }
    proof {
        assert(out.deep_view() =~~= head + topic_tags_to(hs, hs.len() as int));
    }
    out
}

/// An ASCII hex digit.
pub open spec fn is_hex_digit(c: char) -> bool {
    ('0' <= c && c <= '9') || ('a' <= c && c <= 'f') || ('A' <= c && c <= 'F')
}

/// Whether a zap target should be read as a public key first: it carries
/// the `npub` prefix, or it is sixty-four hex digits and carries neither
/// the `note` nor the `nevent` prefix.
pub open spec fn spec_prefer_pubkey_target(s: Seq<char>) -> bool {
    ||| (s.len() >= 4 && s.subrange(0, 4) == "npub"@)
    ||| {
        &&& !(s.len() >= 4 && s.subrange(0, 4) == "note"@)
        &&& !(s.len() >= 6 && s.subrange(0, 6) == "nevent"@)
        &&& s.len() == 64
        &&& forall|k: int| 0 <= k < s.len() ==> is_hex_digit(#[trigger] s[k])
    }
}

/// Decides whether a zap target is tried as a public key before an event
/// id.
pub fn prefer_pubkey_target(target: &str) -> (r: bool)
    ensures
        r == spec_prefer_pubkey_target(target@),
{
    let cs = chars_of(target);
    let ghost s = target@;
    let npub = cs.len() >= 4 && cs[0] == 'n' && cs[1] == 'p' && cs[2] == 'u' && cs[3] == 'b';
    proof {
        if npub {
            assert(s.subrange(0, 4) =~= "npub"@) by {
                reveal_strlit("npub");
            }
        } else if s.len() >= 4 {
            assert(s.subrange(0, 4) != "npub"@) by {
                reveal_strlit("npub");
                assert(s.subrange(0, 4)[0] == s[0]);
                assert(s.subrange(0, 4)[1] == s[1]);
                assert(s.subrange(0, 4)[2] == s[2]);
                assert(s.subrange(0, 4)[3] == s[3]);
            }
        }
    }
    if npub {
        return true;
    }
    let note = cs.len() >= 4 && cs[0] == 'n' && cs[1] == 'o' && cs[2] == 't' && cs[3] == 'e';
    let nevent = cs.len() >= 6 && cs[0] == 'n' && cs[1] == 'e' && cs[2] == 'v' && cs[3] == 'e'
        && cs[4] == 'n' && cs[5] == 't';
    proof {
        reveal_strlit("note");
        reveal_strlit("nevent");
        if s.len() >= 4 {
            assert(s.subrange(0, 4)[0] == s[0]);
            assert(s.subrange(0, 4)[1] == s[1]);
            assert(s.subrange(0, 4)[2] == s[2]);
            assert(s.subrange(0, 4)[3] == s[3]);
            assert(note == (s.subrange(0, 4) =~= "note"@));
        }
        if s.len() >= 6 {
            assert(s.subrange(0, 6)[0] == s[0]);
            assert(s.subrange(0, 6)[1] == s[1]);
            assert(s.subrange(0, 6)[2] == s[2]);
            assert(s.subrange(0, 6)[3] == s[3]);
            assert(s.subrange(0, 6)[4] == s[4]);
            assert(s.subrange(0, 6)[5] == s[5]);
            assert(nevent == (s.subrange(0, 6) =~= "nevent"@));
        }
    }
    if note || nevent {
        return false;
    }
    if cs.len() != 64 {
        proof {
            assert(!(s.len() >= 4 && s.subrange(0, 4) == "npub"@));
            assert(!spec_prefer_pubkey_target(s));
        }
        return false;
    }
    let mut k: usize = 0;
    while k < cs.len()
        invariant
            s == target@,
            cs@ == s,
            s.len() == 64,
            !(s.subrange(0, 4) == "npub"@),
            k <= s.len(),
            forall|m: int| 0 <= m < k ==> is_hex_digit(#[trigger] s[m]),
        decreases s.len() - k,
    {
        let c = cs[k];
        if !(('0' <= c && c <= '9') || ('a' <= c && c <= 'f') || ('A' <= c && c <= 'F')) {
            proof {
                assert(!is_hex_digit(s[k as int]));
                assert(!spec_prefer_pubkey_target(s));
            }
            return false;
        }
        k = k + 1;
    }
    true
}


/// The indices, from `i` on, of the events that reference `parent` with an
/// `e` tag, in order: the direct replies under NIP-10 threading.
pub open spec fn reply_indices_from(
    tagsets: Seq<Seq<Seq<Seq<char>>>>,
    parent: Seq<char>,
    i: int,
) -> Seq<int>
    decreases tagsets.len() - i,
{
    if 0 <= i < tagsets.len() {
        let rest = reply_indices_from(tagsets, parent, i + 1);
        if tag_pair_count_from(tagsets[i], "e"@, parent, 0) > 0 {
            seq![i] + rest
        } else {
            rest
        }
    } else {
        Seq::empty()
    }
}

/// Picks the events that reply to `parent`: those whose tag list carries an
/// `e` tag naming it. Returns their indices, in order of appearance; the
/// surrounding thread assembly recurses on them.
pub fn direct_replies(tagsets: &Vec<Vec<Vec<String>>>, parent_id: &str) -> (r: Vec<usize>)
    ensures
        r@.map_values(|k: usize| k as int) == reply_indices_from(
            tagsets.deep_view(),
            parent_id@,
            0,
        ),
{
    let ghost ts = tagsets.deep_view();
    let mut out: Vec<usize> = Vec::new();
    let mut i: usize = 0;
    while i < tagsets.len()
        invariant
            ts == tagsets.deep_view(),
            i <= ts.len(),
            reply_indices_from(ts, parent_id@, 0) == out@.map_values(|k: usize| k as int)
                + reply_indices_from(ts, parent_id@, i as int),
        decreases ts.len() - i,
    {
        proof {
            assert(ts[i as int] == tagsets@[i as int].deep_view());
        }
        let ghost old_out = out@;
        let hits = count_tag_pairs(&tagsets[i], "e", parent_id);
        if hits > 0 {
            out.push(i);
            proof {
                let f = |k: usize| k as int;
                assert(out@.map_values(f) =~= old_out.map_values(f).push(i as int));
                assert(old_out.map_values(f) + (seq![i as int] + reply_indices_from(
                    ts,
                    parent_id@,
                    i + 1,
                )) =~= out@.map_values(f) + reply_indices_from(ts, parent_id@, i + 1));
            }
        }
        i = i + 1;
    }
    proof {
        assert(out@.map_values(|k: usize| k as int) + reply_indices_from(ts, parent_id@, i as int)
            =~= out@.map_values(|k: usize| k as int));
    }
    out
}

} // verus!
