//! Hexadecimal digits, and the hashes that secrets are kept as.

use sha2::{Digest, Sha256};
use vstd::prelude::*;
use vstd::utf8::encode_utf8;

verus! {

/// The hexadecimal digit of a number below sixteen.
pub open spec fn hex_digit(n: u8) -> char {
    if n < 10 {
        ((48 + n) as u8) as char
    } else {
        ((87 + n) as u8) as char
    }
}

/// The bytes in hexadecimal, two digits each, in small letters.
pub open spec fn hex(bytes: Seq<u8>) -> Seq<char> {
    Seq::new(
        2 * bytes.len(),
        |i: int|
            hex_digit(
                if i % 2 == 0 {
                    bytes[i / 2] / 16
                } else {
                    bytes[i / 2] % 16
                },
            ),
    )
}

/// The SHA-256 of bytes.
pub uninterp spec fn sha256(bytes: Seq<u8>) -> Seq<u8>;

/// The hash that a secret is kept as: its SHA-256 in hexadecimal.
pub open spec fn hash_of(secret: Seq<char>) -> Seq<char> {
    hex(sha256(encode_utf8(secret)))
}

/// `Sha256::digest` of `sha2` gives the SHA-256 of the bytes, which is thirty-two bytes long and a
/// function of them alone.
#[verifier::external_body]
fn digest(bytes: &[u8]) -> (hash: Vec<u8>)
    ensures
        hash@ == sha256(bytes@),
        hash@.len() == 32,
{
    Sha256::digest(bytes).to_vec()
}

fn digit(n: u8) -> (c: char)
    requires
        n < 16,
    ensures
        c == hex_digit(n),
{
    if n < 10 {
        (48 + n) as char
    } else {
        (87 + n) as char
    }
}

/// Some of the bytes in hexadecimal.
pub(crate) fn hex_text(bytes: &[u8], from: usize, to: usize) -> (s: String)
    requires
        from <= to <= bytes@.len(),
    ensures
        s@ == hex(bytes@.subrange(from as int, to as int)),
{
    let mut s = String::new();
    assert(s@ =~= hex(bytes@.subrange(from as int, from as int)));
    for i in from..to
        invariant
            from <= to <= bytes@.len(),
            s@ == hex(bytes@.subrange(from as int, i as int)),
    {
        let ghost before = bytes@.subrange(from as int, i as int);
        let ghost after = bytes@.subrange(from as int, i + 1);
        let byte: u8 = bytes[i];
        s.push(digit(byte / 16));
        s.push(digit(byte % 16));
        proof {
            assert(after == before.push(byte));
            assert forall|k: int| 0 <= k < 2 * before.len() implies hex(after)[k] == hex(before)[k] by {
                assert(after[k / 2] == before[k / 2]);
            }
            assert(s@ =~= hex(after));
        }
    }
    s
}

/// The hash that a secret is kept as.
pub fn sha256_hex(secret: &str) -> (s: String)
    ensures
        s@ == hash_of(secret@),
        s@.len() == 64,
{
    let hash = digest(secret.as_bytes());
    let s = hex_text(hash.as_slice(), 0, hash.len());
    assert(hash@.subrange(0, hash@.len() as int) =~= hash@);
    s
}

} // verus!
