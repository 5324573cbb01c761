//! Parsing of note and article text: media URLs, hashtags and `nostr:`
//! references.
//!
//! The grammar is the library's own. A URL is `http://` or `https://`
//! followed by at least one character that is neither white space nor a
//! closing bracket or CJK punctuation mark; a hashtag is `#` at the start of
//! the text or after white space, followed by letters, numbers, `_` or `-`;
//! a reference is `nostr:` followed by a known bech32 prefix and at least one
//! more `[a-z0-9]` character. Scanning is left to right and matches do not
//! overlap.

use vstd::prelude::*;
use crate::textutil::{
    chars_of, string_from_chars, is_space_char, space_char, unicode_alnum, alnum_char,
    ascii_lower, lower_char, lex_le, chars_le, lemma_lex_le_total, lemma_lex_le_antisymmetric,
    lemma_lex_le_refl,
};

verus! {

/// Media URLs detected in a piece of content, grouped by kind.
pub struct MediaInfo {
    /// Image URLs, in order of appearance.
    pub images: Vec<String>,
    /// Video URLs, in order of appearance.
    pub videos: Vec<String>,
    /// Audio URLs, in order of appearance.
    pub audios: Vec<String>,
}

/// The media kind a URL is classified as, by its file extension.
#[derive(Clone, Copy, Debug, PartialEq, Eq, Structural)]
pub enum MediaType {
    Image,
    Video,
    Audio,
}

impl MediaInfo {
    /// True iff no media URL of any kind was found.
    pub fn is_empty(&self) -> (r: bool)
        ensures
            r == (self.images@.len() == 0 && self.videos@.len() == 0 && self.audios@.len() == 0),
    {
        self.images.len() == 0 && self.videos.len() == 0 && self.audios.len() == 0
    }
}

/// Characters that end a URL: white space, closing brackets, and common
/// CJK punctuation.
pub open spec fn is_url_stop(c: char) -> bool {
    ||| is_space_char(c)
    ||| c == ')'
    ||| c == ']'
    ||| c == '}'
    ||| c == '>'
    ||| c == '\u{ff0c}'
    ||| c == '\u{3001}'
    ||| c == '\u{3002}'
    ||| c == '\u{ff09}'
    ||| c == '\u{300d}'
    ||| c == '\u{300f}'
    ||| c == '\u{3011}'
}

/// Executable check for [`is_url_stop`].
pub fn url_stop_char(c: char) -> (r: bool)
    ensures
        r == is_url_stop(c),
{
    space_char(c) || c == ')' || c == ']' || c == '}' || c == '>' || c == '\u{ff0c}'
        || c == '\u{3001}' || c == '\u{3002}' || c == '\u{ff09}' || c == '\u{300d}'
        || c == '\u{300f}' || c == '\u{3011}'
}

/// If `s` carries `https://` or `http://` at position `i`, the position just
/// after the scheme; otherwise `None`.
pub open spec fn scheme_end(s: Seq<char>, i: int) -> Option<int> {
    if i + 8 <= s.len() && s[i] == 'h' && s[i + 1] == 't' && s[i + 2] == 't' && s[i + 3] == 'p'
        && s[i + 4] == 's' && s[i + 5] == ':' && s[i + 6] == '/' && s[i + 7] == '/' {
        Some(i + 8)
    } else if i + 7 <= s.len() && s[i] == 'h' && s[i + 1] == 't' && s[i + 2] == 't' && s[i + 3]
        == 'p' && s[i + 4] == ':' && s[i + 5] == '/' && s[i + 6] == '/' {
        Some(i + 7)
    } else {
        None
    }
}

/// The first position at or after `j` that ends a URL (a stop character or
/// the end of the text).
pub open spec fn url_end(s: Seq<char>, j: int) -> int
    decreases s.len() - j,
{
    if j < s.len() && !is_url_stop(s[j]) {
        url_end(s, j + 1)
    } else {
        j
    }
}

/// `url_end` stays within the text.
pub proof fn lemma_url_end_le(s: Seq<char>, j: int)
    requires
        0 <= j <= s.len(),
    ensures
        j <= url_end(s, j) <= s.len(),
    decreases s.len() - j,
{
    if j < s.len() && !is_url_stop(s[j]) {
        lemma_url_end_le(s, j + 1);
    }
}

/// All media URLs of the text from position `i` on, classified: images,
/// videos and audios, each in order of appearance.
pub open spec fn media_scan(s: Seq<char>, i: int) -> (Seq<Seq<char>>, Seq<Seq<char>>, Seq<
    Seq<char>,
>)
    decreases s.len() - i,
{
    if 0 <= i < s.len() {
        match scheme_end(s, i) {
            Some(b) => {
                let e = url_end(s, b);
                if e > b && e <= s.len() {
                    let u = s.subrange(i, e);
                    let rest = media_scan(s, e);
                    match spec_classify(u) {
                        Some(MediaType::Image) => (seq![u] + rest.0, rest.1, rest.2),
                        Some(MediaType::Video) => (rest.0, seq![u] + rest.1, rest.2),
                        Some(MediaType::Audio) => (rest.0, rest.1, seq![u] + rest.2),
                        None => rest,
                    }
                } else {
                    media_scan(s, i + 1)
                }
            },
            None => media_scan(s, i + 1),
        }
    } else {
        (Seq::empty(), Seq::empty(), Seq::empty())
    }
}

/// The position of the first `?` in `u` at or after `j`, or the length.
pub open spec fn query_start(u: Seq<char>, j: int) -> int
    decreases u.len() - j,
{
    if j < u.len() && u[j] != '?' {
        query_start(u, j + 1)
    } else {
        j
    }
}

/// `query_start` stays within the text.
pub proof fn lemma_query_start_le(u: Seq<char>, j: int)
    requires
        0 <= j <= u.len(),
    ensures
        j <= query_start(u, j) <= u.len(),
    decreases u.len() - j,
{
    if j < u.len() && u[j] != '?' {
        lemma_query_start_le(u, j + 1);
    }
}

/// The URL up to its query string, ASCII-lower-cased.
pub open spec fn lowered_path(u: Seq<char>) -> Seq<char> {
    let q = query_start(u, 0);
    if 0 <= q <= u.len() {
        u.subrange(0, q).map_values(|c: char| ascii_lower(c))
    } else {
        u
    }
}

/// `p` ends with `suf`.
pub open spec fn ends_with(p: Seq<char>, suf: Seq<char>) -> bool {
    suf.len() <= p.len() && p.subrange(p.len() - suf.len(), p.len() as int) == suf
}

/// The path carries an image file extension.
pub open spec fn is_image_path(p: Seq<char>) -> bool {
    ||| ends_with(p, ".jpg"@)
    ||| ends_with(p, ".jpeg"@)
    ||| ends_with(p, ".png"@)
    ||| ends_with(p, ".gif"@)
    ||| ends_with(p, ".webp"@)
    ||| ends_with(p, ".svg"@)
    ||| ends_with(p, ".bmp"@)
    ||| ends_with(p, ".avif"@)
}

/// The path carries a video file extension.
pub open spec fn is_video_path(p: Seq<char>) -> bool {
    ||| ends_with(p, ".mp4"@)
    ||| ends_with(p, ".webm"@)
    ||| ends_with(p, ".mov"@)
    ||| ends_with(p, ".avi"@)
    ||| ends_with(p, ".mkv"@)
}

/// The path carries an audio file extension.
pub open spec fn is_audio_path(p: Seq<char>) -> bool {
    ||| ends_with(p, ".mp3"@)
    ||| ends_with(p, ".ogg"@)
    ||| ends_with(p, ".wav"@)
    ||| ends_with(p, ".flac"@)
    ||| ends_with(p, ".m4a"@)
    ||| ends_with(p, ".aac"@)
}

/// The media kind of a URL: its path (up to any query string) is lower-cased
/// and matched against the known extensions, images first, then videos, then
/// audios.
pub open spec fn spec_classify(u: Seq<char>) -> Option<MediaType> {
    let p = lowered_path(u);
    if is_image_path(p) {
        Some(MediaType::Image)
    } else if is_video_path(p) {
        Some(MediaType::Video)
    } else if is_audio_path(p) {
        Some(MediaType::Audio)
    } else {
        None
    }
}

/// Whether the character vector `p` ends with the characters of `suf`.
fn ends_with_lit(p: &Vec<char>, suf: &str) -> (r: bool)
    ensures
        r == ends_with(p@, suf@),
{
    let sc = chars_of(suf);
    if sc.len() > p.len() {
        return false;
    }
    let plen = p.len();
    let off = plen - sc.len();
    let mut k: usize = 0;
    while k < sc.len()
        invariant
            sc@ == suf@,
            sc@.len() <= p@.len(),
            plen == p@.len(),
            off == p@.len() - sc@.len(),
            k <= sc@.len(),
            forall|m: int| 0 <= m < k ==> p@[off + m] == sc@[m],
        decreases sc@.len() - k,
    {
        if p[off + k] != sc[k] {
            proof {
                assert(p@.subrange(p@.len() - suf@.len(), p@.len() as int)[k as int] != suf@[
                    k as int
                ]);
            }
            return false;
        }
        k = k + 1;
    }
    proof {
        assert(p@.subrange(p@.len() - suf@.len(), p@.len() as int) =~= suf@);
    }
    true
}

/// Classifies a URL by file extension, images first, then videos, then
/// audios; `None` when no known extension matches.
pub fn classify_url(url: &str) -> (r: Option<MediaType>)
    ensures
        r == spec_classify(url@),
{
    let u = chars_of(url);
    classify_url_chars(&u)
}

/// [`classify_url`] on an already-split character vector.
pub fn classify_url_chars(u: &Vec<char>) -> (r: Option<MediaType>)
    ensures
        r == spec_classify(u@),
{
    proof {
        lemma_query_start_le(u@, 0);
    }
    // find the start of the query string
    let mut q: usize = 0;
    while q < u.len() && u[q] != '?'
        invariant
            q <= u@.len(),
            query_start(u@, 0) == query_start(u@, q as int),
        decreases u@.len() - q,
    {
        q = q + 1;
    }
    proof {
        assert(query_start(u@, q as int) == q);
    }
    // lower-case the path
    let mut p: Vec<char> = Vec::new();
    let mut k: usize = 0;
    while k < q
        invariant
            k <= q <= u@.len(),
            q == query_start(u@, 0),
            p@ == u@.subrange(0, k as int).map_values(|c: char| ascii_lower(c)),
        decreases q - k,
    {
        p.push(lower_char(u[k]));
        proof {
            assert(u@.subrange(0, (k + 1) as int).map_values(|c: char| ascii_lower(c)) =~= u@
                .subrange(0, k as int).map_values(|c: char| ascii_lower(c)).push(
                ascii_lower(u@[k as int]),
            ));
        }
        k = k + 1;
    }
    proof {
        assert(p@ == lowered_path(u@));
    }
    if ends_with_lit(&p, ".jpg") || ends_with_lit(&p, ".jpeg") || ends_with_lit(&p, ".png")
        || ends_with_lit(&p, ".gif") || ends_with_lit(&p, ".webp") || ends_with_lit(&p, ".svg")
        || ends_with_lit(&p, ".bmp") || ends_with_lit(&p, ".avif") {
        Some(MediaType::Image)
    } else if ends_with_lit(&p, ".mp4") || ends_with_lit(&p, ".webm") || ends_with_lit(&p, ".mov")
        || ends_with_lit(&p, ".avi") || ends_with_lit(&p, ".mkv") {
        Some(MediaType::Video)
    } else if ends_with_lit(&p, ".mp3") || ends_with_lit(&p, ".ogg") || ends_with_lit(&p, ".wav")
        || ends_with_lit(&p, ".flac") || ends_with_lit(&p, ".m4a") || ends_with_lit(&p, ".aac") {
        Some(MediaType::Audio)
    } else {
        None
    }
}

/// Extracts the media URLs of `content` and groups them by kind, in order of
/// appearance.
pub fn extract_media(content: &str) -> (r: MediaInfo)
    ensures
        r.images@.map_values(|t: String| t@) == media_scan(content@, 0).0,
        r.videos@.map_values(|t: String| t@) == media_scan(content@, 0).1,
        r.audios@.map_values(|t: String| t@) == media_scan(content@, 0).2,
{
    let text = chars_of(content);
    let ghost s = content@;
    let mut images: Vec<String> = Vec::new();
    let mut videos: Vec<String> = Vec::new();
    let mut audios: Vec<String> = Vec::new();
    let mut i: usize = 0;
    while i < text.len()
        invariant
            text@ == s,
            i <= s.len(),
            media_scan(s, 0).0 == images@.map_values(|t: String| t@) + media_scan(s, i as int).0,
            media_scan(s, 0).1 == videos@.map_values(|t: String| t@) + media_scan(s, i as int).1,
            media_scan(s, 0).2 == audios@.map_values(|t: String| t@) + media_scan(s, i as int).2,
        decreases s.len() - i,
    {
        let ghost ii = i as int;
        // does a scheme start here?
        let b: usize = if text.len() - i >= 8 && text[i] == 'h' && text[i + 1] == 't' && text[i + 2]
            == 't' && text[i + 3] == 'p' && text[i + 4] == 's' && text[i + 5] == ':' && text[i + 6]
            == '/' && text[i + 7] == '/' {
            i + 8
        } else if text.len() - i >= 7 && text[i] == 'h' && text[i + 1] == 't' && text[i + 2] == 't'
            && text[i + 3] == 'p' && text[i + 4] == ':' && text[i + 5] == '/' && text[i + 6]
            == '/' {
            i + 7
        } else {
            0
        };
        if b > 0 {
            proof {
                assert(scheme_end(s, ii) == Some(b as int));
                lemma_url_end_le(s, b as int);
            }
            // find the end of the URL
            let mut e: usize = b;
            while e < text.len() && !url_stop_char(text[e])
                invariant
                    text@ == s,
                    b <= e <= s.len(),
                    url_end(s, b as int) == url_end(s, e as int),
                decreases s.len() - e,
            {
                e = e + 1;
            }
            proof {
                assert(url_end(s, e as int) == e);
            }
            if e > b {
                let url_chars = text_range(&text, i, e);
                let kind = classify_url_chars(&url_chars);
                let url = string_from_chars(&url_chars);
                let ghost u = s.subrange(ii, e as int);
                let ghost old_imgs = images@;
                let ghost old_vids = videos@;
                let ghost old_auds = audios@;
                proof {
                    assert(url@ == u);
                    lemma_media_scan_step(s, ii, e as int);
                }
                let ghost rest = media_scan(s, e as int);
                match kind {
                    Some(MediaType::Image) => {
                        images.push(url);
                        proof {
                            lemma_map_values_push(old_imgs, url);
                            assert(old_imgs.map_values(|t: String| t@) + (seq![u] + rest.0)
                                =~= images@.map_values(|t: String| t@) + rest.0);
                        }
                    },
                    Some(MediaType::Video) => {
                        videos.push(url);
                        proof {
                            lemma_map_values_push(old_vids, url);
                            assert(old_vids.map_values(|t: String| t@) + (seq![u] + rest.1)
                                =~= videos@.map_values(|t: String| t@) + rest.1);
                        }
                    },
                    Some(MediaType::Audio) => {
                        audios.push(url);
                        proof {
                            lemma_map_values_push(old_auds, url);
                            assert(old_auds.map_values(|t: String| t@) + (seq![u] + rest.2)
                                =~= audios@.map_values(|t: String| t@) + rest.2);
                        }
                    },
                    None => {},
                }
                i = e;
            } else {
                i = i + 1;
            }
        } else {
            proof {
                assert(scheme_end(s, ii) is None);
            }
            i = i + 1;
        }
    }
    proof {
        assert(media_scan(s, i as int) == (
            Seq::<Seq<char>>::empty(),
            Seq::<Seq<char>>::empty(),
            Seq::<Seq<char>>::empty(),
        ));
        assert(images@.map_values(|t: String| t@) + media_scan(s, i as int).0 =~= images@
            .map_values(|t: String| t@));
        assert(videos@.map_values(|t: String| t@) + media_scan(s, i as int).1 =~= videos@
            .map_values(|t: String| t@));
        assert(audios@.map_values(|t: String| t@) + media_scan(s, i as int).2 =~= audios@
            .map_values(|t: String| t@));
    }
    MediaInfo { images, videos, audios }
}

/// Copies `v[from..to]` into a fresh vector.
pub fn text_range(v: &Vec<char>, from: usize, to: usize) -> (r: Vec<char>)
    requires
        from <= to <= v@.len(),
    ensures
        r@ == v@.subrange(from as int, to as int),
{
    let mut out: Vec<char> = Vec::new();
    let mut k: usize = from;
    while k < to
        invariant
            from <= k <= to <= v@.len(),
            out@ == v@.subrange(from as int, k as int),
        decreases to - k,
    {
        out.push(v[k]);
        proof {
            assert(v@.subrange(from as int, (k + 1) as int) =~= v@.subrange(
                from as int,
                k as int,
            ).push(v@[k as int]));
        }
        k = k + 1;
    }
    out
}

/// Mapping the element views distributes over `push`.
proof fn lemma_map_values_push(v: Seq<String>, x: String)
    ensures
        v.push(x).map_values(|t: String| t@) == v.map_values(|t: String| t@).push(x@),
{
    assert(v.push(x).map_values(|t: String| t@) =~= v.map_values(|t: String| t@).push(x@));
}

/// A character that may open a hashtag: a Unicode letter or number, or `_`.
pub open spec fn tag_first(c: char) -> bool {
    unicode_alnum(c) || c == '_'
}

/// A character that may continue a hashtag: an opening character or `-`.
pub open spec fn tag_cont(c: char) -> bool {
    tag_first(c) || c == '-'
}

/// Executable check for [`tag_first`].
pub fn tag_first_char(c: char) -> (r: bool)
    ensures
        r == tag_first(c),
{
    alnum_char(c) || c == '_'
}

/// Executable check for [`tag_cont`].
pub fn tag_cont_char(c: char) -> (r: bool)
    ensures
        r == tag_cont(c),
{
    tag_first_char(c) || c == '-'
}

/// The first position at or after `j` that cannot continue a hashtag.
pub open spec fn tag_end(s: Seq<char>, j: int) -> int
    decreases s.len() - j,
{
    if j < s.len() && tag_cont(s[j]) {
        tag_end(s, j + 1)
    } else {
        j
    }
}

/// `tag_end` stays within the text.
pub proof fn lemma_tag_end_le(s: Seq<char>, j: int)
    requires
        0 <= j <= s.len(),
    ensures
        j <= tag_end(s, j) <= s.len(),
    decreases s.len() - j,
{
    if j < s.len() && tag_cont(s[j]) {
        lemma_tag_end_le(s, j + 1);
    }
}

/// A hashtag starts at `i`: a `#` at the start of the text or after white
/// space, followed by an opening character.
pub open spec fn hashtag_start(s: Seq<char>, i: int) -> bool {
    &&& s[i] == '#'
    &&& (i == 0 || is_space_char(s[i - 1]))
    &&& i + 1 < s.len()
    &&& tag_first(s[i + 1])
}

/// All hashtags of the text from position `i` on, without the `#`, in order
/// of appearance.
pub open spec fn hashtag_scan(s: Seq<char>, i: int) -> Seq<Seq<char>>
    decreases s.len() - i,
{
    if 0 <= i < s.len() {
        if hashtag_start(s, i) {
            let e = tag_end(s, i + 2);
            if i + 2 <= e <= s.len() {
                seq![s.subrange(i + 1, e)] + hashtag_scan(s, e)
            } else {
                hashtag_scan(s, i + 1)
            }
        } else {
            hashtag_scan(s, i + 1)
        }
    } else {
        Seq::empty()
    }
}

/// Strictly ascending in the lexicographic order: sorted with no duplicates.
pub open spec fn strictly_sorted(v: Seq<Seq<char>>) -> bool {
    forall|k: int|
        0 <= k < v.len() - 1 ==> lex_le(#[trigger] v[k], v[k + 1]) && v[k] != v[k + 1]
}

/// `to_set` distributes over concatenation.
proof fn lemma_to_set_concat(a: Seq<Seq<char>>, b: Seq<Seq<char>>)
    ensures
        (a + b).to_set() == a.to_set() + b.to_set(),
{
    assert forall|y: Seq<char>| #[trigger]
        (a + b).to_set().contains(y) implies (a.to_set() + b.to_set()).contains(y) by {
        let j = choose|j: int| 0 <= j < (a + b).len() && (a + b)[j] == y;
        if j < a.len() {
            assert(a[j] == y);
        } else {
            assert(b[j - a.len()] == y);
        }
    }
    assert forall|y: Seq<char>| #[trigger]
        (a.to_set() + b.to_set()).contains(y) implies (a + b).to_set().contains(y) by {
        if a.to_set().contains(y) {
            let j = choose|j: int| 0 <= j < a.len() && a[j] == y;
            assert((a + b)[j] == y);
        } else {
            let j = choose|j: int| 0 <= j < b.len() && b[j] == y;
            assert((a + b)[a.len() + j] == y);
        }
    }
    assert((a + b).to_set() =~= a.to_set() + b.to_set());
}

/// One unfolding of `hashtag_scan` at a position where a hashtag starts.
proof fn lemma_hashtag_scan_step(s: Seq<char>, i: int, e: int)
    requires
        0 <= i < s.len(),
        hashtag_start(s, i),
        e == tag_end(s, i + 2),
        i + 2 <= e <= s.len(),
    ensures
        hashtag_scan(s, i) == seq![s.subrange(i + 1, e)] + hashtag_scan(s, e),
{
}

/// Inserts `t` into a strictly sorted vector, keeping it strictly sorted;
/// a duplicate leaves the vector unchanged.
fn insert_sorted_unique(acc: &mut Vec<Vec<char>>, t: Vec<char>)
    requires
        strictly_sorted(old(acc)@.map_values(|v: Vec<char>| v@)),
    ensures
        strictly_sorted(final(acc)@.map_values(|v: Vec<char>| v@)),
        final(acc)@.map_values(|v: Vec<char>| v@).to_set() == old(acc)@.map_values(
            |v: Vec<char>| v@,
        ).to_set().insert(t@),
{
    let ghost m0 = old(acc)@.map_values(|v: Vec<char>| v@);
    proof {
        assert(m0.len() == old(acc)@.len());
    }
    let mut k: usize = 0;
    while k < acc.len() && !chars_le(&t, &acc[k])
        invariant
            acc@ == old(acc)@,
            m0 == acc@.map_values(|v: Vec<char>| v@),
            k <= acc@.len(),
            forall|j: int| 0 <= j < k ==> !lex_le(t@, #[trigger] m0[j]),
        decreases acc@.len() - k,
    {
        proof {
            assert(m0[k as int] == acc@[k as int]@);
        }
        k = k + 1;
    }
    proof {
        assert forall|j: int| 0 <= j < k implies lex_le(#[trigger] m0[j], t@) && m0[j] != t@ by {
            lemma_lex_le_total(t@, m0[j]);
            lemma_lex_le_refl(t@);
            if m0[j] == t@ {
                assert(lex_le(t@, m0[j]));
            }
        }
    }
    if k < acc.len() {
        let dup = chars_le(&acc[k], &t);
        if dup {
            proof {
                lemma_lex_le_antisymmetric(t@, m0[k as int]);
                assert(m0.to_set().contains(t@));
                assert(m0.to_set().insert(t@) =~= m0.to_set());
            }
            return ;
        }
    }
    let ghost kk = k as int;
    acc.insert(k, t);
    proof {
        let m1 = acc@.map_values(|v: Vec<char>| v@);
        assert(m1 =~= m0.insert(kk, t@));
        // strict sortedness of the result
        assert forall|j: int| 0 <= j < m1.len() - 1 implies lex_le(#[trigger] m1[j], m1[j + 1])
            && m1[j] != m1[j + 1] by {
            lemma_lex_le_refl(t@);
            if j + 1 < kk {
                assert(m1[j] == m0[j] && m1[j + 1] == m0[j + 1]);
            } else if j + 1 == kk {
                assert(m1[j] == m0[j] && m1[j + 1] == t@);
            } else if j == kk {
                assert(m1[j] == t@ && m1[j + 1] == m0[j]);
                assert(lex_le(t@, m0[kk]));
                if t@ == m0[kk] {
                    assert(lex_le(m0[kk], t@));
                }
            } else {
                assert(m1[j] == m0[j - 1] && m1[j + 1] == m0[j]);
            }
        }
        // the set gains exactly t@
        assert forall|y: Seq<char>| #[trigger] m1.to_set().contains(y) implies m0.to_set().insert(
            t@,
        ).contains(y) by {
            let j = choose|j: int| 0 <= j < m1.len() && m1[j] == y;
            if j < kk {
                assert(m0[j] == y);
            } else if j == kk {
                assert(y == t@);
            } else {
                assert(m0[j - 1] == y);
            }
        }
        assert forall|y: Seq<char>| #[trigger]
            m0.to_set().insert(t@).contains(y) implies m1.to_set().contains(y) by {
            if y == t@ {
                assert(m1[kk] == y);
            } else {
                let j = choose|j: int| 0 <= j < m0.len() && m0[j] == y;
                if j < kk {
                    assert(m1[j] == y);
                } else {
                    assert(m1[j + 1] == y);
                }
            }
        }
        assert(m1.to_set() =~= m0.to_set().insert(t@));
    }
}

/// Extracts the hashtags of `content`: exactly the scanned tags, without
/// duplicates, in ascending lexicographic order.
pub fn extract_hashtags(content: &str) -> (r: Vec<String>)
    ensures
        strictly_sorted(r@.map_values(|t: String| t@)),
        r@.map_values(|t: String| t@).to_set() == hashtag_scan(content@, 0).to_set(),
{
    let text = chars_of(content);
    let ghost s = content@;
    let mut acc: Vec<Vec<char>> = Vec::new();
    let ghost done: Seq<Seq<char>> = Seq::empty();
    let mut i: usize = 0;
    while i < text.len()
        invariant
            text@ == s,
            i <= s.len(),
            strictly_sorted(acc@.map_values(|v: Vec<char>| v@)),
            hashtag_scan(s, 0).to_set() == acc@.map_values(|v: Vec<char>| v@).to_set()
                + hashtag_scan(s, i as int).to_set(),
        decreases s.len() - i,
    {
        let ghost ii = i as int;
        let is_start = text[i] == '#' && (i == 0 || space_char(text[i - 1])) && text.len() - i >= 2
            && tag_first_char(text[i + 1]);
        if is_start {
            proof {
                assert(hashtag_start(s, ii));
                lemma_tag_end_le(s, ii + 2);
            }
            let mut e: usize = i + 2;
            while e < text.len() && tag_cont_char(text[e])
                invariant
                    text@ == s,
                    i + 2 <= e <= s.len(),
                    tag_end(s, ii + 2) == tag_end(s, e as int),
                decreases s.len() - e,
            {
                e = e + 1;
            }
            proof {
                assert(tag_end(s, e as int) == e);
                lemma_hashtag_scan_step(s, ii, e as int);
            }
            let tag = text_range(&text, i + 1, e);
            let ghost before = acc@.map_values(|v: Vec<char>| v@);
            insert_sorted_unique(&mut acc, tag);
            proof {
                let after = acc@.map_values(|v: Vec<char>| v@);
                let u = s.subrange(ii + 1, e as int);
                lemma_to_set_concat(seq![u], hashtag_scan(s, e as int));
                assert(seq![u][0] == u);
                assert(seq![u].to_set() =~= Set::empty().insert(u));
                assert(hashtag_scan(s, ii).to_set() =~= Set::empty().insert(u) + hashtag_scan(
                    s,
                    e as int,
                ).to_set());
                assert(before.to_set() + hashtag_scan(s, ii).to_set() =~= after.to_set()
                    + hashtag_scan(s, e as int).to_set());
            }
            i = e;
        } else {
            proof {
                assert(!hashtag_start(s, ii));
            }
            i = i + 1;
        }
    }
    proof {
        assert(hashtag_scan(s, i as int).to_set() =~= Set::empty());
        assert(acc@.map_values(|v: Vec<char>| v@).to_set() + hashtag_scan(s, i as int).to_set()
            =~= acc@.map_values(|v: Vec<char>| v@).to_set());
    }
    // convert to strings
    let mut out: Vec<String> = Vec::new();
    let mut n: usize = 0;
    while n < acc.len()
        invariant
            n <= acc@.len(),
            out@.map_values(|t: String| t@) == acc@.map_values(|v: Vec<char>| v@).take(n as int),
            strictly_sorted(acc@.map_values(|v: Vec<char>| v@)),
            acc@.map_values(|v: Vec<char>| v@).to_set() == hashtag_scan(s, 0).to_set(),
        decreases acc@.len() - n,
    {
        let ghost old_out = out@;
        let t = string_from_chars(&acc[n]);
        out.push(t);
        proof {
            lemma_map_values_push(old_out, out@.last());
            assert(old_out.push(out@.last()) =~= out@);
            let m = acc@.map_values(|v: Vec<char>| v@);
            assert(m.take(n + 1) =~= m.take(n as int).push(m[n as int]));
            assert(m[n as int] == acc@[n as int]@);
        }
        n = n + 1;
    }
    proof {
        assert(acc@.map_values(|v: Vec<char>| v@).take(n as int) =~= acc@.map_values(
            |v: Vec<char>| v@,
        ));
    }
    out
}

/// A character of the data part of a bech32 string: `a`-`z` or `0`-`9`.
pub open spec fn is_bech_char(c: char) -> bool {
    ('a' <= c && c <= 'z') || ('0' <= c && c <= '9')
}

/// Executable check for [`is_bech_char`].
pub fn bech_char(c: char) -> (r: bool)
    ensures
        r == is_bech_char(c),
{
    ('a' <= c && c <= 'z') || ('0' <= c && c <= '9')
}

/// `nostr:` stands at position `i`.
pub open spec fn nostr_at(s: Seq<char>, i: int) -> bool {
    i + 6 <= s.len() && s[i] == 'n' && s[i + 1] == 'o' && s[i + 2] == 's' && s[i + 3] == 't'
        && s[i + 4] == 'r' && s[i + 5] == ':'
}

/// `npub1` stands at position `j`.
pub open spec fn npub_at(s: Seq<char>, j: int) -> bool {
    j + 5 <= s.len() && s[j] == 'n' && s[j + 1] == 'p' && s[j + 2] == 'u' && s[j + 3] == 'b'
        && s[j + 4] == '1'
}

/// `note1` stands at position `j`.
pub open spec fn note_at(s: Seq<char>, j: int) -> bool {
    j + 5 <= s.len() && s[j] == 'n' && s[j + 1] == 'o' && s[j + 2] == 't' && s[j + 3] == 'e'
        && s[j + 4] == '1'
}

/// `nevent1` stands at position `j`.
pub open spec fn nevent_at(s: Seq<char>, j: int) -> bool {
    j + 7 <= s.len() && s[j] == 'n' && s[j + 1] == 'e' && s[j + 2] == 'v' && s[j + 3] == 'e'
        && s[j + 4] == 'n' && s[j + 5] == 't' && s[j + 6] == '1'
}

/// `nprofile1` stands at position `j`.
pub open spec fn nprofile_at(s: Seq<char>, j: int) -> bool {
    j + 9 <= s.len() && s[j] == 'n' && s[j + 1] == 'p' && s[j + 2] == 'r' && s[j + 3] == 'o'
        && s[j + 4] == 'f' && s[j + 5] == 'i' && s[j + 6] == 'l' && s[j + 7] == 'e' && s[j + 8]
        == '1'
}

/// `naddr1` stands at position `j`.
pub open spec fn naddr_at(s: Seq<char>, j: int) -> bool {
    j + 6 <= s.len() && s[j] == 'n' && s[j + 1] == 'a' && s[j + 2] == 'd' && s[j + 3] == 'd'
        && s[j + 4] == 'r' && s[j + 5] == '1'
}

/// The known bech32 prefixes, tried in order: the position just after the
/// prefix standing at `j`, or `None`.
pub open spec fn prefix_end(s: Seq<char>, j: int) -> Option<int> {
    if npub_at(s, j) {
        Some(j + 5)
    } else if note_at(s, j) {
        Some(j + 5)
    } else if nevent_at(s, j) {
        Some(j + 7)
    } else if nprofile_at(s, j) {
        Some(j + 9)
    } else if naddr_at(s, j) {
        Some(j + 6)
    } else {
        None
    }
}

/// The kind name for the prefix standing at `j`.
pub open spec fn prefix_kind(s: Seq<char>, j: int) -> Seq<char> {
    if npub_at(s, j) {
        "npub"@
    } else if note_at(s, j) {
        "note"@
    } else if nevent_at(s, j) {
        "nevent"@
    } else if nprofile_at(s, j) {
        "nprofile"@
    } else if naddr_at(s, j) {
        "naddr"@
    } else {
        Seq::empty()
    }
}

/// The first position at or after `j` that is not a bech32 character.
pub open spec fn bech_end(s: Seq<char>, j: int) -> int
    decreases s.len() - j,
{
    if j < s.len() && is_bech_char(s[j]) {
        bech_end(s, j + 1)
    } else {
        j
    }
}

/// `bech_end` stays within the text.
pub proof fn lemma_bech_end_le(s: Seq<char>, j: int)
    requires
        0 <= j <= s.len(),
    ensures
        j <= bech_end(s, j) <= s.len(),
    decreases s.len() - j,
{
    if j < s.len() && is_bech_char(s[j]) {
        lemma_bech_end_le(s, j + 1);
    }
}

/// All `nostr:` references of the text from position `i` on, as pairs of
/// kind name and bech32 value (prefix included), in order of appearance.
pub open spec fn ref_scan(s: Seq<char>, i: int) -> Seq<(Seq<char>, Seq<char>)>
    decreases s.len() - i,
{
    if 0 <= i < s.len() {
        if nostr_at(s, i) && prefix_end(s, i + 6) is Some {
            let p = prefix_end(s, i + 6)->Some_0;
            let e = bech_end(s, p);
            if i + 6 < p < e <= s.len() {
                seq![(prefix_kind(s, i + 6), s.subrange(i + 6, e))] + ref_scan(s, e)
            } else {
                ref_scan(s, i + 1)
            }
        } else {
            ref_scan(s, i + 1)
        }
    } else {
        Seq::empty()
    }
}

/// A `nostr:` reference found in a piece of content.
pub struct NostrReference {
    /// The reference kind: `npub`, `note`, `nevent`, `nprofile` or `naddr`.
    pub ref_type: String,
    /// The bech32 value, prefix included.
    pub bech32: String,
}

/// One unfolding of `ref_scan` at a position where a reference was matched.
proof fn lemma_ref_scan_step(s: Seq<char>, i: int, e: int)
    requires
        0 <= i < s.len(),
        nostr_at(s, i),
        prefix_end(s, i + 6) is Some,
        e == bech_end(s, prefix_end(s, i + 6)->Some_0),
        i + 6 < prefix_end(s, i + 6)->Some_0 < e <= s.len(),
    ensures
        ref_scan(s, i) == seq![(prefix_kind(s, i + 6), s.subrange(i + 6, e))] + ref_scan(s, e),
{
}

/// Extracts the `nostr:` references of `content`, in order of appearance.
pub fn extract_nostr_references(content: &str) -> (r: Vec<NostrReference>)
    ensures
        r@.map_values(|n: NostrReference| (n.ref_type@, n.bech32@)) == ref_scan(content@, 0),
{
    let text = chars_of(content);
    let ghost s = content@;
    let mut out: Vec<NostrReference> = Vec::new();
    let mut i: usize = 0;
    while i < text.len()
        invariant
            text@ == s,
            i <= s.len(),
            ref_scan(s, 0) == out@.map_values(|n: NostrReference| (n.ref_type@, n.bech32@))
                + ref_scan(s, i as int),
        decreases s.len() - i,
    {
        let ghost ii = i as int;
        let has_nostr = text.len() - i >= 6 && text[i] == 'n' && text[i + 1] == 'o' && text[i + 2]
            == 's' && text[i + 3] == 't' && text[i + 4] == 'r' && text[i + 5] == ':';
        if has_nostr {
            let j = i + 6;
            let (p, kind): (usize, &str) = if text.len() - j >= 5 && text[j] == 'n' && text[j + 1]
                == 'p' && text[j + 2] == 'u' && text[j + 3] == 'b' && text[j + 4] == '1' {
                (j + 5, "npub")
            } else if text.len() - j >= 5 && text[j] == 'n' && text[j + 1] == 'o' && text[j + 2]
                == 't' && text[j + 3] == 'e' && text[j + 4] == '1' {
                (j + 5, "note")
            } else if text.len() - j >= 7 && text[j] == 'n' && text[j + 1] == 'e' && text[j + 2]
                == 'v' && text[j + 3] == 'e' && text[j + 4] == 'n' && text[j + 5] == 't' && text[j
                + 6] == '1' {
                (j + 7, "nevent")
            } else if text.len() - j >= 9 && text[j] == 'n' && text[j + 1] == 'p' && text[j + 2]
                == 'r' && text[j + 3] == 'o' && text[j + 4] == 'f' && text[j + 5] == 'i' && text[j
                + 6] == 'l' && text[j + 7] == 'e' && text[j + 8] == '1' {
                (j + 9, "nprofile")
            } else if text.len() - j >= 6 && text[j] == 'n' && text[j + 1] == 'a' && text[j + 2]
                == 'd' && text[j + 3] == 'd' && text[j + 4] == 'r' && text[j + 5] == '1' {
                (j + 6, "naddr")
            } else {
                (0, "")
            };
            if p > 0 {
                proof {
                    assert(nostr_at(s, ii));
                    assert(prefix_end(s, ii + 6) == Some(p as int));
                    assert(prefix_kind(s, ii + 6) == kind@);
                    lemma_bech_end_le(s, p as int);
                }
                let mut e: usize = p;
                while e < text.len() && bech_char(text[e])
                    invariant
                        text@ == s,
                        p <= e <= s.len(),
                        bech_end(s, p as int) == bech_end(s, e as int),
                    decreases s.len() - e,
                {
                    e = e + 1;
                }
                proof {
                    assert(bech_end(s, e as int) == e);
                }
                if e > p {
                    let bech_chars = text_range(&text, j, e);
                    let reference = NostrReference {
                        ref_type: String::from_str(kind),
                        bech32: string_from_chars(&bech_chars),
                    };
                    let ghost old_out = out@;
                    out.push(reference);
                    proof {
                        lemma_ref_scan_step(s, ii, e as int);
                        let mv = |n: NostrReference| (n.ref_type@, n.bech32@);
                        assert(out@.map_values(mv) =~= old_out.map_values(mv).push(
                            (kind@, s.subrange(ii + 6, e as int)),
                        ));
                        assert(old_out.map_values(mv) + (seq![
                            (prefix_kind(s, ii + 6), s.subrange(ii + 6, e as int)),
                        ] + ref_scan(s, e as int)) =~= out@.map_values(mv) + ref_scan(
                            s,
                            e as int,
                        ));
                    }
                    i = e;
                } else {
                    proof {
                        assert(ref_scan(s, ii) == ref_scan(s, ii + 1));
                    }
                    i = i + 1;
                }
            } else {
                proof {
                    assert(prefix_end(s, ii + 6) is None);
                }
                i = i + 1;
            }
        } else {
            proof {
                assert(!nostr_at(s, ii));
            }
            i = i + 1;
        }
    }
    proof {
        let mv = |n: NostrReference| (n.ref_type@, n.bech32@);
        assert(out@.map_values(mv) + ref_scan(s, i as int) =~= out@.map_values(mv));
    }
    out
}

/// The parsed pieces of a note or article: media, hashtags and references.
pub struct ParsedContent {
    /// Media URLs found, grouped by kind.
    pub media: MediaInfo,
    /// Hashtags found, sorted and without duplicates.
    pub hashtags: Vec<String>,
    /// `nostr:` references found, in order of appearance.
    pub references: Vec<NostrReference>,
}

impl ParsedContent {
    /// True iff nothing at all was found.
    pub fn is_empty(&self) -> (r: bool)
        ensures
            r == (self.media.images@.len() == 0 && self.media.videos@.len() == 0
                && self.media.audios@.len() == 0 && self.hashtags@.len() == 0
                && self.references@.len() == 0),
    {
        self.media.is_empty() && self.hashtags.len() == 0 && self.references.len() == 0
    }
}

/// Parses `content` in one call: media URLs, hashtags and `nostr:`
/// references.
pub fn parse_content(content: &str) -> (r: ParsedContent)
    ensures
        r.media.images@.map_values(|t: String| t@) == media_scan(content@, 0).0,
        r.media.videos@.map_values(|t: String| t@) == media_scan(content@, 0).1,
        r.media.audios@.map_values(|t: String| t@) == media_scan(content@, 0).2,
        strictly_sorted(r.hashtags@.map_values(|t: String| t@)),
        r.hashtags@.map_values(|t: String| t@).to_set() == hashtag_scan(content@, 0).to_set(),
        r.references@.map_values(|n: NostrReference| (n.ref_type@, n.bech32@)) == ref_scan(
            content@,
            0,
        ),
{
    ParsedContent {
        media: extract_media(content),
        hashtags: extract_hashtags(content),
        references: extract_nostr_references(content),
    }
}

/// One unfolding of `media_scan` at a position where a URL was matched.
proof fn lemma_media_scan_step(s: Seq<char>, i: int, e: int)
    requires
        0 <= i < s.len(),
        scheme_end(s, i) is Some,
        e == url_end(s, scheme_end(s, i)->Some_0),
        e > scheme_end(s, i)->Some_0,
        e <= s.len(),
    ensures
        media_scan(s, i) == ({
            let u = s.subrange(i, e);
            let rest = media_scan(s, e);
            match spec_classify(u) {
                Some(MediaType::Image) => (seq![u] + rest.0, rest.1, rest.2),
                Some(MediaType::Video) => (rest.0, seq![u] + rest.1, rest.2),
                Some(MediaType::Audio) => (rest.0, rest.1, seq![u] + rest.2),
                None => rest,
            }
        }),
{
}

} // verus!
