//! Blossom media-upload support: the blob descriptor, content-type
//! guessing, the upload hash and the authorization header. The HTTP upload
//! itself is the surrounding application's business.

use vstd::prelude::*;
use vstd::utf8::encode_utf8;
use vstd::string::StringSliceAdditionalSpecFns;
use crate::textutil::{chars_of, ascii_lower, lower_char};
use crate::encoding::{sha256_of, sha256_digest, hex_of, to_hex, base64_of, base64_encode};

verus! {

/// A blob descriptor: what a Blossom server reports about an uploaded
/// blob.
#[derive(Debug, Clone)]
pub struct BlobDescriptor {
    /// The publicly reachable URL of the blob.
    pub url: String,
    /// The blob's SHA-256 hash, hex-encoded.
    pub sha256: String,
    /// The blob's size in bytes.
    pub size: u64,
    /// The MIME type.
    pub content_type: String,
    /// When the blob was uploaded, as a Unix timestamp.
    pub uploaded: u64,
}

/// The Blossom servers used when the user configured none.
pub fn default_blossom_servers() -> (r: Vec<String>)
    ensures
        r@.len() == 2,
        r@[0]@ == "https://blossom.primal.net"@,
        r@[1]@ == "https://nostr.download"@,
{
    let mut v: Vec<String> = Vec::new();
    v.push(String::from_str("https://blossom.primal.net"));
    v.push(String::from_str("https://nostr.download"));
    v
}

/// The position of the last `.` strictly before `i`, or `-1`.
pub open spec fn last_dot(s: Seq<char>, i: int) -> int
    decreases i,
{
    if i <= 0 {
        -1
    } else if s[i - 1] == '.' {
        i - 1
    } else {
        last_dot(s, i - 1)
    }
}

/// The file extension of a name: what follows the last `.`, ASCII
/// lower-cased; the whole name when there is no `.`.
pub open spec fn ext_of(s: Seq<char>) -> Seq<char> {
    let d = last_dot(s, s.len() as int);
    if -1 <= d < s.len() {
        s.subrange(d + 1, s.len() as int).map_values(|c: char| ascii_lower(c))
    } else {
        Seq::empty()
    }
}

/// The MIME type guessed from a file name's extension;
/// `application/octet-stream` when the extension is unknown.
pub open spec fn spec_content_type(s: Seq<char>) -> Seq<char> {
    let e = ext_of(s);
    if e == "jpg"@ || e == "jpeg"@ {
        "image/jpeg"@
    } else if e == "png"@ {
        "image/png"@
    } else if e == "gif"@ {
        "image/gif"@
    } else if e == "webp"@ {
        "image/webp"@
    } else if e == "svg"@ {
        "image/svg+xml"@
    } else if e == "avif"@ {
        "image/avif"@
    } else if e == "bmp"@ {
        "image/bmp"@
    } else if e == "mp4"@ {
        "video/mp4"@
    } else if e == "webm"@ {
        "video/webm"@
    } else if e == "mov"@ {
        "video/quicktime"@
    } else if e == "mp3"@ {
        "audio/mpeg"@
    } else if e == "ogg"@ {
        "audio/ogg"@
    } else if e == "wav"@ {
        "audio/wav"@
    } else if e == "flac"@ {
        "audio/flac"@
    } else if e == "pdf"@ {
        "application/pdf"@
    } else {
        "application/octet-stream"@
    }
}

/// `last_dot` stays within the text.
proof fn lemma_last_dot_range(s: Seq<char>, i: int)
    requires
        0 <= i <= s.len(),
    ensures
        -1 <= last_dot(s, i),
        last_dot(s, i) < i,
    decreases i,
{
    if i > 0 && s[i - 1] != '.' {
        lemma_last_dot_range(s, i - 1);
    }
}

/// Whether the characters of `v` equal the string `b`.
fn chars_eq(v: &Vec<char>, b: &str) -> (r: bool)
    ensures
        r == (v@ == b@),
{
    let bc = chars_of(b);
    if v.len() != bc.len() {
        return false;
    }
    let mut i: usize = 0;
    while i < v.len()
        invariant
            bc@ == b@,
            v@.len() == bc@.len(),
            i <= v@.len(),
            forall|k: int| 0 <= k < i ==> v@[k] == bc@[k],
        decreases v@.len() - i,
    {
        if v[i] != bc[i] {
            return false;
        }
        i = i + 1;
    }
    proof {
        assert(v@ =~= b@);
    }
    true
}

/// Guesses the MIME type of a file from its name's extension.
pub fn guess_content_type(filename: &str) -> (r: &'static str)
    ensures
        r@ == spec_content_type(filename@),
{
    let cs = chars_of(filename);
    let ghost s = filename@;
    proof {
        lemma_last_dot_range(s, s.len() as int);
    }
    // find the last dot
    let mut j: usize = cs.len();
    while j > 0 && cs[j - 1] != '.'
        invariant
            cs@ == s,
            j <= s.len(),
            last_dot(s, s.len() as int) == last_dot(s, j as int),
        decreases j,
    {
        j = j - 1;
    }
    proof {
        assert(last_dot(s, j as int) == if j > 0 {
            (j - 1) as int
        } else {
            -1int
        });
    }
    // j is one past the dot position (or 0 when there is none): the
    // extension starts at j when a dot exists, else the whole name is used
    let start: usize = j;
    let mut ext: Vec<char> = Vec::new();
    let mut k: usize = start;
    while k < cs.len()
        invariant
            cs@ == s,
            start <= k <= s.len(),
            ext@ == s.subrange(start as int, k as int).map_values(|c: char| ascii_lower(c)),
        decreases s.len() - k,
    {
        ext.push(lower_char(cs[k]));
        proof {
            assert(ext@ =~= s.subrange(start as int, (k + 1) as int).map_values(
                |c: char| ascii_lower(c),
            ));
        }
        k = k + 1;
    }
    proof {
        assert(ext@ =~= ext_of(s));
    }
    if chars_eq(&ext, "jpg") || chars_eq(&ext, "jpeg") {
        "image/jpeg"
    } else if chars_eq(&ext, "png") {
        "image/png"
    } else if chars_eq(&ext, "gif") {
        "image/gif"
    } else if chars_eq(&ext, "webp") {
        "image/webp"
    } else if chars_eq(&ext, "svg") {
        "image/svg+xml"
    } else if chars_eq(&ext, "avif") {
        "image/avif"
    } else if chars_eq(&ext, "bmp") {
        "image/bmp"
    } else if chars_eq(&ext, "mp4") {
        "video/mp4"
    } else if chars_eq(&ext, "webm") {
        "video/webm"
    } else if chars_eq(&ext, "mov") {
        "video/quicktime"
    } else if chars_eq(&ext, "mp3") {
        "audio/mpeg"
    } else if chars_eq(&ext, "ogg") {
        "audio/ogg"
    } else if chars_eq(&ext, "wav") {
        "audio/wav"
    } else if chars_eq(&ext, "flac") {
        "audio/flac"
    } else if chars_eq(&ext, "pdf") {
        "application/pdf"
    } else {
        "application/octet-stream"
    }
}

/// The SHA-256 hash of a byte slice, hex-encoded with two lower-case
/// digits per byte.
pub fn compute_sha256(data: &[u8]) -> (r: String)
    ensures
        r@ == hex_of(sha256_of(data@)),
{
    let digest = sha256_digest(data);
    to_hex(digest.as_slice())
}

/// The `Authorization` header value for a Blossom upload: the word `Nostr`
/// and the signed authorization event, base64-encoded.
pub fn create_auth_header(signed_event_json: &str) -> (r: String)
    ensures
        r@ == "Nostr "@ + base64_of(encode_utf8(signed_event_json@)),
{
    let encoded = base64_encode(signed_event_json.as_bytes());
    let out = String::from_str("Nostr ");
    out.concat(encoded.as_str())
}

} // verus!
