//! New keys: their secrets and their names.

use crate::hashing::{hex, hex_text};
use crate::text::joined;
use vstd::prelude::*;

verus! {

/// What the outside world gives to a request: fresh random bytes, and the time.
pub struct Facts {
    pub entropy: [u8; 32],
    pub now: u64,
}

/// The secret that random bytes make: `pba_` and the first twenty-four of them.
pub open spec fn secret_of(entropy: Seq<u8>) -> Seq<char> {
    "pba_"@ + hex(entropy.subrange(0, 24))
}

/// The name that random bytes make: the last eight of them.
pub open spec fn id_of(entropy: Seq<u8>) -> Seq<char> {
    hex(entropy.subrange(24, 32))
}

/// The secret that random bytes make.
pub fn minted_secret(entropy: &[u8; 32]) -> (secret: String)
    ensures
        secret@ == secret_of(entropy@),
{
    joined("pba_", hex_text(entropy.as_slice(), 0, 24).as_str())
}

/// The name that random bytes make.
pub fn minted_id(entropy: &[u8; 32]) -> (id: String)
    ensures
        id@ == id_of(entropy@),
{
    hex_text(entropy.as_slice(), 24, 32)
}

} // verus!
