//! Fresh randomness from the operating system, and the identifiers drawn
//! from it.

use rand_core::RngCore;
use vstd::prelude::*;

verus! {

/// Relies on rand_core's `OsRng::try_fill_bytes`: fills the buffer from the
/// operating system's random source, or reports that the source failed.
#[verifier::external_body]
pub fn random_bytes(n: usize) -> (r: Option<Vec<u8>>)
    ensures
        r matches Some(v) ==> v@.len() == n,
{
    let mut v = vec![0u8; n];
    rand_core::OsRng.try_fill_bytes(&mut v).ok().map(|_| v)
}

/// The lowercase hexadecimal digit for `v < 16`.
pub open spec fn hex_digit(v: u8) -> u8 {
    if v < 10 {
        (v + 48) as u8
    } else {
        (v + 87) as u8
    }
}

/// Lowercase hexadecimal text of `b`, two digits per byte.
pub open spec fn hex_of(b: Seq<u8>) -> Seq<u8> {
    Seq::new(
        2 * b.len(),
        |i: int|
            if i % 2 == 0 {
                hex_digit(b[i / 2] / 16)
            } else {
                hex_digit(b[i / 2] % 16)
            },
    )
}

fn hex_digit_exec(v: u8) -> (r: u8)
    requires
        v < 16,
    ensures
        r == hex_digit(v),
{
    if v < 10 {
        v + 48
    } else {
        v + 87
    }
}

/// Lowercase hexadecimal text of `b`.
pub fn to_hex(b: &[u8]) -> (r: Vec<u8>)
    requires
        b@.len() <= usize::MAX / 2,
    ensures
        r@ == hex_of(b@),
{
    let mut r: Vec<u8> = Vec::new();
    let mut i: usize = 0;
    let n = b.len();
    while i < n
        invariant
            n == b@.len(),
            i <= n,
            r@.len() == 2 * i,
            forall|j: int| 0 <= j < 2 * i ==> r@[j] == hex_of(b@)[j],
        decreases n - i,
    {
        r.push(hex_digit_exec(b[i] / 16));
        r.push(hex_digit_exec(b[i] % 16));
        proof {
            assert forall|j: int| 0 <= j < 2 * (i + 1) implies r@[j] == hex_of(b@)[j] by {
                if j >= 2 * i {
                    assert(j / 2 == i as int);
                }
            }
        }
        i = i + 1;
    }
    assert(r@ =~= hex_of(b@));
    r
}

/// Number of random bytes in a token identifier.
pub const TOKEN_ID_BYTES: usize = 16;

/// A fresh token identifier: sixteen random bytes as hexadecimal text, or
/// `None` when the random source fails.
pub fn fresh_token_id() -> (r: Option<Vec<u8>>)
    ensures
        r matches Some(id) ==> exists|raw: Seq<u8>| raw.len() == 16 && id@ == hex_of(raw),
{
    match random_bytes(TOKEN_ID_BYTES) {
        Some(raw) => Some(to_hex(&raw)),
        None => None,
    }
}

} // verus!
