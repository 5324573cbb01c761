//! Trusted wrappers around the byte-level codecs the library leans on —
//! base64 and SHA-256 — and a verified hex encoder.

use vstd::prelude::*;
use crate::textutil::push_char;
use base64::Engine;
use sha2::Digest;

verus! {

/// What base64's standard-alphabet encoder returns for a byte sequence.
/// The full alphabet and padding rules are a table, so the result is only
/// named.
pub uninterp spec fn base64_of(b: Seq<u8>) -> Seq<char>;

/// Relies on `base64::engine::general_purpose::STANDARD.encode`: standard
/// alphabet with padding, a function of the input bytes alone; with padding
/// the output holds four characters per started three-byte group.
#[verifier::external_body]
pub fn base64_encode(data: &[u8]) -> (r: String)
    ensures
        r@ == base64_of(data@),
        r@.len() == 4 * ((data@.len() + 2) / 3),
{
    base64::engine::general_purpose::STANDARD.encode(data)
}

/// What SHA-256 returns for a byte sequence: the 32-byte digest. The
/// compression function is not written out; the result is only named.
pub uninterp spec fn sha256_of(b: Seq<u8>) -> Seq<u8>;

/// Relies on `sha2::Sha256` (`new`, `update`, `finalize`): the SHA-256
/// digest, 32 bytes, a function of the input bytes alone.
#[verifier::external_body]
pub fn sha256_digest(data: &[u8]) -> (r: Vec<u8>)
    ensures
        r@ == sha256_of(data@),
        r@.len() == 32,
{
    let mut hasher = sha2::Sha256::new();
    hasher.update(data);
    hasher.finalize().to_vec()
}

/// The lower-case hex digit for a value below sixteen.
pub open spec fn hex_digit(n: int) -> char {
    if n == 0 {
        '0'
    } else if n == 1 {
        '1'
    } else if n == 2 {
        '2'
    } else if n == 3 {
        '3'
    } else if n == 4 {
        '4'
    } else if n == 5 {
        '5'
    } else if n == 6 {
        '6'
    } else if n == 7 {
        '7'
    } else if n == 8 {
        '8'
    } else if n == 9 {
        '9'
    } else if n == 10 {
        'a'
    } else if n == 11 {
        'b'
    } else if n == 12 {
        'c'
    } else if n == 13 {
        'd'
    } else if n == 14 {
        'e'
    } else {
        'f'
    }
}

/// Executable form of [`hex_digit`].
pub fn hex_digit_char(n: u8) -> (r: char)
    requires
        n < 16,
    ensures
        r == hex_digit(n as int),
{
    match n {
        0 => '0',
        1 => '1',
        2 => '2',
        3 => '3',
        4 => '4',
        5 => '5',
        6 => '6',
        7 => '7',
        8 => '8',
        9 => '9',
        10 => 'a',
        11 => 'b',
        12 => 'c',
        13 => 'd',
        14 => 'e',
        _ => 'f',
    }
}

/// The lower-case hex encoding of the first `i` bytes.
pub open spec fn hex_to(b: Seq<u8>, i: int) -> Seq<char>
    decreases i,
{
    if 0 < i <= b.len() {
        hex_to(b, i - 1) + seq![hex_digit(b[i - 1] as int / 16), hex_digit(b[i - 1] as int % 16)]
    } else {
        Seq::empty()
    }
}

/// The lower-case hex encoding of a byte sequence: two digits per byte.
pub open spec fn hex_of(b: Seq<u8>) -> Seq<char> {
    hex_to(b, b.len() as int)
}

/// Encodes bytes as lower-case hex, two digits per byte.
pub fn to_hex(data: &[u8]) -> (r: String)
    ensures
        r@ == hex_of(data@),
{
    let mut out = String::new();
    let mut i: usize = 0;
    while i < data.len()
        invariant
            i <= data@.len(),
            out@ == hex_to(data@, i as int),
        decreases data@.len() - i,
    {
        let b = data[i];
        push_char(&mut out, hex_digit_char(b / 16));
        push_char(&mut out, hex_digit_char(b % 16));
        proof {
            assert(out@ =~= hex_to(data@, i + 1));
        }
        i = i + 1;
    }
    out
}

} // verus!
