//! Display-id generation: random identifiers drawn uniformly from a
//! base-58 alphabet that leaves out the visually ambiguous characters
//! `0`, `I`, `O` and `l`.
//!
//! Link ids are seven characters long, token values forty-four; the
//! generator performs no collision check against existing ids.

use rand::RngExt;
use vstd::prelude::*;

use crate::strutil::push_char;

verus! {

/// The 58-symbol alphabet, in order.
pub const BASE58_ALPHABET: [char; 58] = [
    '1', '2', '3', '4', '5', '6', '7', '8', '9', 'A', 'B', 'C', 'D', 'E', 'F', 'G', 'H', 'J', 'K',
    'L', 'M', 'N', 'P', 'Q', 'R', 'S', 'T', 'U', 'V', 'W', 'X', 'Y', 'Z', 'a', 'b', 'c', 'd', 'e',
    'f', 'g', 'h', 'i', 'j', 'k', 'm', 'n', 'o', 'p', 'q', 'r', 's', 't', 'u', 'v', 'w', 'x', 'y',
    'z',
];

pub open spec fn is_base58_char(c: char) -> bool {
    exists|i: int| 0 <= i < 58 && BASE58_ALPHABET@[i] == c
}

/// A well-formed display id of the given length: every character drawn
/// from the base-58 alphabet.
pub open spec fn is_display_id(s: Seq<char>, len: int) -> bool {
    s.len() == len && forall|j: int| 0 <= j < s.len() ==> is_base58_char(#[trigger] s[j])
}

#[verifier::external_type_specification]
#[verifier::external_body]
pub struct ExStdRng(rand::rngs::StdRng);

/// Relies on `rand::make_rng`, which seeds a `StdRng` from the operating
/// system's entropy source (through the thread-local generator).
#[verifier::external_body]
fn fresh_std_rng() -> (r: rand::rngs::StdRng) {
    rand::make_rng()
}

/// Relies on `rand::RngExt::random_range`, which returns a value drawn
/// uniformly from the given range; the range `0..58` is nonempty, so the
/// result is strictly below 58.
#[verifier::external_body]
fn sample_base58_index(rng: &mut rand::rngs::StdRng) -> (i: usize)
    ensures
        i < 58,
{
    rng.random_range(0..58)
}

/// A fresh identifier of `len` characters drawn independently from the
/// base-58 alphabet, from an OS-seeded generator.
pub fn new_display_id(len: usize) -> (r: String)
    ensures
        is_display_id(r@, len as int),
{
    let mut rng = fresh_std_rng();
    let mut out = String::new();
    let mut j: usize = 0;
    while j < len
        invariant
            j <= len,
            out@.len() == j,
            forall|k: int| 0 <= k < j ==> is_base58_char(#[trigger] out@[k]),
        decreases len - j,
    {
        let i = sample_base58_index(&mut rng);
        let c = BASE58_ALPHABET[i];
        proof {
            assert(0 <= (i as int) < 58 && BASE58_ALPHABET@[i as int] == c);
        }
        push_char(&mut out, c);
        j = j + 1;
    }
    out
}

} // verus!
