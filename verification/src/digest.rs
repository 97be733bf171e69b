//! Content hashing: a fixed cryptographic digest rendered as lowercase hex.
//!
//! The cache is keyed by `hash(bytes)`, the SHA-1 digest of a file's whole
//! content encoded as 40 lowercase hex digits. The digest itself is computed
//! by the `sha1` crate and named by the uninterpreted function `sha1_of`; the
//! hex rendering has an exact specification, `hex_of`.

use sha1::{Digest, Sha1};
use vstd::prelude::*;
use vstd::string::StrSliceExecFns;

verus! {

/// The SHA-1 digest of a byte sequence, as the `sha1` crate computes it:
/// a pure function of the bytes alone.
pub uninterp spec fn sha1_of(bytes: Seq<u8>) -> Seq<u8>;

/// The lowercase hex digit for a value below 16.
pub open spec fn hex_digit(n: u8) -> char
    recommends
        n < 16,
{
    if n < 10 {
        ((n + 0x30) as u8) as char
    } else {
        ((n + 0x57) as u8) as char
    }
}

/// Lowercase hex encoding: two digits per byte, high nibble first.
pub open spec fn hex_of(bytes: Seq<u8>) -> Seq<char> {
    Seq::new(
        bytes.len() * 2,
        |i: int|
            if i % 2 == 0 {
                hex_digit(bytes[i / 2] / 16)
            } else {
                hex_digit(bytes[i / 2] % 16)
            },
    )
}

/// The digest string the cache is keyed by: SHA-1, rendered as lowercase hex.
pub open spec fn hash_of(bytes: Seq<u8>) -> Seq<char> {
    hex_of(sha1_of(bytes))
}

/// A lowercase hex digit, the only characters a digest string may hold.
pub open spec fn is_hex_digit_char(c: char) -> bool {
    ('0' <= c && c <= '9') || ('a' <= c && c <= 'f')
}

/// A well-formed cache key: exactly 40 lowercase hex digits.
pub open spec fn valid_digest(s: Seq<char>) -> bool {
    s.len() == 40 && (forall|i: int| 0 <= i < s.len() ==> is_hex_digit_char(#[trigger] s[i]))
}

/// Relies on `sha1::Sha1` (`Digest::update` / `Digest::finalize`): the 20-byte
/// SHA-1 digest of the whole buffer, a function of the input bytes alone.
#[verifier::external_body]
fn sha1_digest(bytes: &Vec<u8>) -> (r: Vec<u8>)
    ensures
        r@ == sha1_of(bytes@),
        r@.len() == 20,
{
    let mut hasher = Sha1::new();
    hasher.update(bytes.as_slice());
    hasher.finalize().to_vec()
}

/// Relies on `hex::encode`: lowercase hex, two digits per byte, high nibble
/// first.
#[verifier::external_body]
fn hex_encode(bytes: &Vec<u8>) -> (r: String)
    ensures
        r@ == hex_of(bytes@),
{
    hex::encode(bytes.as_slice())
}

/// Every character `hex_of` produces is a lowercase hex digit.
proof fn lemma_hex_of_digits(bytes: Seq<u8>)
    ensures
        forall|i: int| 0 <= i < hex_of(bytes).len() ==> is_hex_digit_char(#[trigger] hex_of(bytes)[i]),
{
    assert forall|i: int| 0 <= i < hex_of(bytes).len() implies is_hex_digit_char(
        #[trigger] hex_of(bytes)[i],
    ) by {
        let b = bytes[i / 2];
        assert(b / 16 < 16 && b % 16 < 16);
    }
}

/// Hash a whole byte buffer to the digest string the cache is keyed by.
/// The result is always a well-formed cache key.
pub fn hash(bytes: &Vec<u8>) -> (r: String)
    ensures
        r@ == hash_of(bytes@),
        valid_digest(r@),
{
    let digest = sha1_digest(bytes);
    let r = hex_encode(&digest);
    proof {
        lemma_hex_of_digits(digest@);
    }
    r
}

/// Check that a string is a well-formed cache key (40 lowercase hex digits),
/// so that malformed manifest hashes fail fast at the cache boundary.
pub fn is_valid_digest(s: &str) -> (r: bool)
    ensures
        r == valid_digest(s@),
{
    let n = s.unicode_len();
    if n != 40 {
        return false;
    }
    let mut i: usize = 0;
    while i < 40
        invariant
            0 <= i <= 40,
            s@.len() == 40,
            forall|j: int| 0 <= j < i ==> is_hex_digit_char(#[trigger] s@[j]),
        decreases 40 - i,
    {
        let c = s.get_char(i);
        let v = c as u32;
        if !((0x30 <= v && v <= 0x39) || (0x61 <= v && v <= 0x66)) {
            return false;
        }
        i = i + 1;
    }
    true
}

} // verus!
