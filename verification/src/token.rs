//! Route-token generation: short random identifiers drawn from a
//! 62-character alphanumeric alphabet, used as URL path segments and as
//! keys into the result store.

use vstd::prelude::*;
use rand::RngExt;
use crate::strutil::push_char;

verus! {

/// The 62-character alphanumeric alphabet that route tokens are drawn from.
pub const ALPHABET: [char; 62] = [
    'A', 'B', 'C', 'D', 'E', 'F', 'G', 'H', 'I', 'J', 'K', 'L', 'M',
    'N', 'O', 'P', 'Q', 'R', 'S', 'T', 'U', 'V', 'W', 'X', 'Y', 'Z',
    'a', 'b', 'c', 'd', 'e', 'f', 'g', 'h', 'i', 'j', 'k', 'l', 'm',
    'n', 'o', 'p', 'q', 'r', 's', 't', 'u', 'v', 'w', 'x', 'y', 'z',
    '0', '1', '2', '3', '4', '5', '6', '7', '8', '9',
];

/// Whether every character of `t` belongs to the token alphabet.
pub open spec fn token_chars(t: Seq<char>) -> bool {
    forall|i: int| 0 <= i < t.len() ==> ALPHABET@.contains(#[trigger] t[i])
}

/// Relies on rand's `RngExt::random_range` over `0..bound`, applied to the
/// thread-local cryptographically strong generator from `rand::rng()`: the
/// result lies in the half-open range, and the call panics only on an empty
/// range, which the precondition rules out.
#[verifier::external_body]
fn random_index_below(bound: usize) -> (r: usize)
    requires
        bound > 0,
    ensures
        r < bound,
{
    rand::rng().random_range(0..bound)
}

/// Returns a fresh route token: a string of exactly `len` characters, each
/// drawn independently from the 62-character alphanumeric alphabet by a
/// cryptographically strong random source.
pub fn generate(len: usize) -> (t: String)
    ensures
        t@.len() == len,
        token_chars(t@),
{
    let mut t = String::new();
    let mut k: usize = 0;
    while k < len
        invariant
            k <= len,
            t@.len() == k,
            token_chars(t@),
        decreases len - k,
    {
        let j = random_index_below(62);
        let c = ALPHABET[j];
        proof {
            assert(ALPHABET@.contains(ALPHABET@[j as int]));
        }
        push_char(&mut t, c);
        k = k + 1;
    }
    t
}

} // verus!
