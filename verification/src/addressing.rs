//! Content addressing: the canonical form of a target URL, its
//! deterministic fingerprint used for deduplication, and encodings of
//! both.

use base64::Engine;
use vstd::prelude::*;

use crate::strutil::push_char;

verus! {

/// The canonical text of a target URL: `Some` exactly for structurally
/// valid URIs, and a function of the input string alone.
pub uninterp spec fn uri_canon_of(s: Seq<char>) -> Option<Seq<char>>;

/// Relies on the `http` crate's `Uri` (reached through `axum::http`): its
/// `FromStr` accepts exactly the structurally valid URIs, and its
/// `Display` writes the parsed URI back in canonical form. Parsing and
/// writing are both functions of the input string alone, so their
/// composition is named by [`uri_canon_of`].
#[verifier::external_body]
pub(crate) fn canonical_uri(url: &str) -> (r: Option<String>)
    ensures
        r is Some <==> uri_canon_of(url@) is Some,
        r matches Some(c) ==> uri_canon_of(url@) == Some(c@),
{
    match url.parse::<axum::http::Uri>() {
        Ok(uri) => Some(uri.to_string()),
        Err(_) => None,
    }
}

/// The 256-bit content fingerprint of a canonical URL string: what
/// `blake3::hash` returns for its UTF-8 bytes. A function of the string
/// alone, stable across calls, processes and machines.
pub uninterp spec fn link_digest_of(s: Seq<char>) -> Seq<u8>;

/// Relies on `blake3::hash`: a 32-byte digest that depends on the input
/// bytes alone.
#[verifier::external_body]
pub(crate) fn digest(canon: &str) -> (r: Vec<u8>)
    ensures
        r@ == link_digest_of(canon@),
        r@.len() == 32,
{
    blake3::hash(canon.as_bytes()).as_bytes().to_vec()
}

/// The content fingerprint of a target URL: the digest of its canonical
/// form, or `None` if the URL is not a structurally valid URI.
///
/// Deduplication rests on this being deterministic: the contract pins the
/// result to a function of the input string alone.
pub fn link_fingerprint(url: &str) -> (r: Option<Vec<u8>>)
    ensures
        match uri_canon_of(url@) {
            Some(c) => r matches Some(v) && v@ == link_digest_of(c) && v@.len() == 32,
            None => r is None,
        },
{
    match canonical_uri(url) {
        Some(canon) => Some(digest(canon.as_str())),
        None => None,
    }
}

/// The hexadecimal digits, in order.
pub const HEX_DIGITS: [char; 16] = [
    '0', '1', '2', '3', '4', '5', '6', '7', '8', '9', 'a', 'b', 'c', 'd', 'e', 'f',
];

/// Lower-case hexadecimal encoding: two digits for each byte, high nibble
/// first.
pub open spec fn hex_of(bytes: Seq<u8>) -> Seq<char>
    decreases bytes.len(),
{
    if bytes.len() == 0 {
        Seq::empty()
    } else {
        hex_of(bytes.drop_last()) + seq![
            HEX_DIGITS@[(bytes.last() >> 4) as int],
            HEX_DIGITS@[(bytes.last() & 0x0f) as int],
        ]
    }
}

/// The lower-case hexadecimal form of a byte vector.
pub fn to_hex(bytes: &Vec<u8>) -> (r: String)
    ensures
        r@ == hex_of(bytes@),
{
    let n = bytes.len();
    let mut out = String::new();
    let mut i: usize = 0;
    proof {
        assert(bytes@.take(0) =~= Seq::<u8>::empty());
    }
    while i < n
        invariant
            n == bytes@.len(),
            i <= n,
            out@ == hex_of(bytes@.take(i as int)),
        decreases n - i,
    {
        let b = bytes[i];
        let hi: u8 = b >> 4;
        let lo: u8 = b & 0x0f;
        proof {
            assert(hi < 16 && lo < 16) by (bit_vector)
                requires
                    hi == b >> 4 && lo == b & 0x0f,
            ;
        }
        push_char(&mut out, HEX_DIGITS[hi as usize]);
        push_char(&mut out, HEX_DIGITS[lo as usize]);
        i = i + 1;
        proof {
            let t = bytes@.take(i as int);
            assert(t.drop_last() =~= bytes@.take(i as int - 1));
            assert(t.last() == bytes@[i as int - 1]);
            assert(out@ =~= hex_of(bytes@.take(i as int - 1)) + seq![
                HEX_DIGITS@[(t.last() >> 4) as int],
                HEX_DIGITS@[(t.last() & 0x0f) as int],
            ]);
        }
    }
    proof {
        assert(bytes@.take(n as int) =~= bytes@);
    }
    out
}

/// What the base64 url-safe alphabet without padding encodes a string's
/// UTF-8 bytes to: a function of the input alone.
pub uninterp spec fn base64_url_of(s: Seq<char>) -> Seq<char>;

/// An opaque identifier for a URL, as used when reporting a link to
/// moderation tooling.
///
/// Relies on `base64`'s `URL_SAFE_NO_PAD` engine: the encoding depends on
/// the input bytes alone.
#[verifier::external_body]
pub fn url_identifier_from_string(url: &str) -> (r: String)
    ensures
        r@ == base64_url_of(url@),
{
    base64::engine::general_purpose::URL_SAFE_NO_PAD.encode(url)
}

} // verus!
