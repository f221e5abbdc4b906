//! Random choices, drawn from the `rand` crate.

use vstd::prelude::*;
use rand::Rng;

verus! {

/// Draws a port uniformly from `low..=65535` with `rand::Rng::gen_range` on the thread-local
/// generator. `gen_range` documents that its result lies in the given range, and that is all
/// this contract claims; which port comes out is left open.
#[verifier::external_body]
pub(crate) fn random_port_from(low: u16) -> (port: u16)
    ensures
        low <= port,
{
    rand::thread_rng().gen_range(low..=u16::MAX)
}

/// Draws a random `u16` with `rand::random`. Nothing is claimed of the value.
#[verifier::external_body]
pub(crate) fn random_u16() -> (value: u16) {
    rand::random::<u16>()
}

/// Draws a random `u32` with `rand::random`. Nothing is claimed of the value.
#[verifier::external_body]
pub(crate) fn random_u32() -> (value: u32) {
    rand::random::<u32>()
}

/// Draws six random bytes with `rand::random`. Nothing is claimed of the bytes.
#[verifier::external_body]
pub(crate) fn random_bytes6() -> (bytes: [u8; 6]) {
    rand::random::<[u8; 6]>()
}

} // verus!
