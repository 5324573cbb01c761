//! The `nostrconnect://` bootstrap URI: percent-encoding and assembly from
//! the pairing channel's public key, the relay set, the application
//! metadata, the connection secret and an optional permission scope.

use vstd::prelude::*;
use crate::textutil::{chars_of, push_char, char_code};
use crate::encoding::{hex_digit, hex_digit_char};

verus! {

/// A character that percent-encoding passes through unchanged: the
/// unreserved URI characters. Characters above ASCII are also passed
/// through as they are.
pub open spec fn is_unreserved(c: char) -> bool {
    ||| ('a' <= c && c <= 'z')
    ||| ('A' <= c && c <= 'Z')
    ||| ('0' <= c && c <= '9')
    ||| c == '-'
    ||| c == '_'
    ||| c == '.'
    ||| c == '~'
}

/// The percent-encoding of one character: unreserved and non-ASCII
/// characters stand as they are, other ASCII characters become `%` and two
/// hex digits.
pub open spec fn pct_char(c: char) -> Seq<char> {
    if is_unreserved(c) || '\u{80}' <= c {
        seq![c]
    } else {
        seq!['%', hex_digit(c as int / 16), hex_digit(c as int % 16)]
    }
}

/// The percent-encoding of the first `i` characters.
pub open spec fn pct_to(s: Seq<char>, i: int) -> Seq<char>
    decreases i,
{
    if 0 < i <= s.len() {
        pct_to(s, i - 1) + pct_char(s[i - 1])
    } else {
        Seq::empty()
    }
}

/// The percent-encoding of a character sequence.
pub open spec fn pct_seq(s: Seq<char>) -> Seq<char> {
    pct_to(s, s.len() as int)
}

/// Percent-encodes a string.
pub fn percent_encode(s: &str) -> (r: String)
    ensures
        r@ == pct_seq(s@),
{
    let cs = chars_of(s);
    let mut out = String::new();
    let mut i: usize = 0;
    while i < cs.len()
        invariant
            cs@ == s@,
            i <= s@.len(),
            out@ == pct_to(s@, i as int),
        decreases s@.len() - i,
    {
        let c = cs[i];
        let unreserved = ('a' <= c && c <= 'z') || ('A' <= c && c <= 'Z') || ('0' <= c && c
            <= '9') || c == '-' || c == '_' || c == '.' || c == '~';
        if unreserved || '\u{80}' <= c {
            push_char(&mut out, c);
        } else {
            let b = char_code(c);
            proof {
                assert('\u{80}' > c);
                assert((c as int) < 128);
            }
            push_char(&mut out, '%');
            push_char(&mut out, hex_digit_char((b / 16) as u8));
            push_char(&mut out, hex_digit_char((b % 16) as u8));
        }
        proof {
            assert(out@ =~= pct_to(s@, i + 1));
        }
        i = i + 1;
    }
    out
}

/// The query fragment naming the first `i` relays: `relay=<enc>` pieces
/// joined by `&`.
pub open spec fn relay_query_to(rs: Seq<Seq<char>>, i: int) -> Seq<char>
    decreases i,
{
    if 0 < i <= rs.len() {
        let sep: Seq<char> = if i > 1 {
            seq!['&']
        } else {
            Seq::empty()
        };
        relay_query_to(rs, i - 1) + sep + "relay="@ + pct_seq(rs[i - 1])
    } else {
        Seq::empty()
    }
}

/// The full bootstrap URI: scheme, channel public key, the relay set, the
/// application metadata, the connection secret, and an optional permission
/// scope. The metadata and the secret are required query parameters of a
/// client-issued URI: without them the remote side rejects the connection.
pub open spec fn spec_connect_uri(
    pk: Seq<char>,
    relays: Seq<Seq<char>>,
    metadata: Seq<char>,
    secret: Seq<char>,
    perms: Option<Seq<char>>,
) -> Seq<char> {
    "nostrconnect://"@ + pk + seq!['?'] + relay_query_to(relays, relays.len() as int)
        + "&metadata="@ + pct_seq(metadata) + "&secret="@ + pct_seq(secret) + match perms {
        Some(p) => "&perms="@ + pct_seq(p),
        None => Seq::empty(),
    }
}

/// Builds the bootstrap URI from the channel public key, the relay set,
/// the application metadata (a JSON object), the connection secret, and an
/// optional permission scope.
pub fn build_connect_uri(
    pubkey: &str,
    relays: &Vec<String>,
    metadata: &str,
    secret: &str,
    perms: Option<&str>,
) -> (r: String)
    ensures
        r@ == spec_connect_uri(
            pubkey@,
            relays@.map_values(|t: String| t@),
            metadata@,
            secret@,
            match perms {
                Some(p) => Some(p@),
                None => None,
            },
        ),
{
    let ghost rviews = relays@.map_values(|t: String| t@);
    let mut out = String::from_str("nostrconnect://");
    out.append(pubkey);
    push_char(&mut out, '?');
    let ghost head = "nostrconnect://"@ + pubkey@ + seq!['?'];
    proof {
        assert(out@ =~= head + relay_query_to(rviews, 0));
    }
    let mut i: usize = 0;
    while i < relays.len()
        invariant
            rviews == relays@.map_values(|t: String| t@),
            i <= rviews.len(),
            out@ == head + relay_query_to(rviews, i as int),
        decreases rviews.len() - i,
    {
        if i > 0 {
            push_char(&mut out, '&');
        }
        out.append("relay=");
        let enc = percent_encode(relays[i].as_str());
        out.append(enc.as_str());
        proof {
            assert(rviews[i as int] == relays@[i as int]@);
            assert(out@ =~= head + relay_query_to(rviews, i + 1));
        }
        i = i + 1;
    }
    out.append("&metadata=");
    let enc = percent_encode(metadata);
    out.append(enc.as_str());
    out.append("&secret=");
    let enc = percent_encode(secret);
    out.append(enc.as_str());
    match perms {
        Some(p) => {
            out.append("&perms=");
            let enc = percent_encode(p);
            out.append(enc.as_str());
            proof {
                assert(out@ =~= spec_connect_uri(pubkey@, rviews, metadata@, secret@, Some(p@)));
            }
            out
        },
        None => {
            proof {
                assert(out@ =~= spec_connect_uri(
                    pubkey@,
                    rviews,
                    metadata@,
                    secret@,
                    None::<Seq<char>>,
                ));
            }
            out
        },
    }
}

/// Every bootstrap URI carries the `nostrconnect://` scheme in front.
pub proof fn lemma_connect_uri_scheme(
    pk: Seq<char>,
    relays: Seq<Seq<char>>,
    metadata: Seq<char>,
    secret: Seq<char>,
    perms: Option<Seq<char>>,
)
    ensures
        spec_connect_uri(pk, relays, metadata, secret, perms).len() >= "nostrconnect://"@.len(),
        spec_connect_uri(pk, relays, metadata, secret, perms).subrange(
            0,
            "nostrconnect://"@.len() as int,
        ) == "nostrconnect://"@,
{
    let u = spec_connect_uri(pk, relays, metadata, secret, perms);
    let sch = "nostrconnect://"@;
    assert(u.subrange(0, sch.len() as int) =~= sch);
}

} // verus!
