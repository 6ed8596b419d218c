//! The calls into other crates, each behind a function of its own.
//!
//! Verus takes the contracts in this file on trust: they say what the called function does, and
//! everything else in the library is proved from them.

use vstd::prelude::*;
use crate::zid::is_zenoh_id;

verus! {

/// `bytemuck::from_bytes` at `[u8; N]`: the `N` bytes of the slice, as an array.
///
/// The call panics on a slice of any other length, which `requires` leaves out; it also panics on
/// a slice that is not aligned for the target type, which cannot happen to an array of bytes.
#[verifier::external_body]
pub(crate) fn from_bytes<const N: usize>(bytes: &[u8]) -> (array: &[u8; N])
    requires
        bytes@.len() == N,
    ensures
        array@ == bytes@,
{
    bytemuck::from_bytes(bytes)
}

/// `bytemuck::bytes_of` at `[u8; N]`: the `N` bytes of the array, as a slice.
#[verifier::external_body]
pub(crate) fn bytes_of<const N: usize>(array: &[u8; N]) -> (bytes: &[u8])
    ensures
        bytes@ == array@,
{
    bytemuck::bytes_of(array)
}

/// `ZenohId::try_from` on a slice of sixteen bytes, the id handed back as its bytes
/// (`ZenohId::to_le_bytes`).
///
/// The slice is read as a little-endian number. The conversion fails on zero and on nothing else
/// of this length, and the id keeps the bytes that it was made from.
#[verifier::external_body]
pub(crate) fn zenoh_id(bytes: &[u8; 16]) -> (id: Option<[u8; 16]>)
    ensures
        id is Some <==> is_zenoh_id(bytes@),
        id matches Some(kept) ==> kept@ == bytes@,
{
    match zenoh::config::ZenohId::try_from(&bytes[..]) {
        Ok(id) => Some(id.to_le_bytes()),
        Err(_) => None,
    }
}

/// Whether the random number generator can give those bytes as a nonce: it can give any eight.
///
/// What it can give is kept to this file. Elsewhere a nonce is known to be drawn only if it is, bit
/// for bit, what a call of [`random_nonce`] returned, so a contract that says so rules out a nonce
/// that is counted up, fixed or kept from before.
pub closed spec fn drawn(nonce: Seq<u8>) -> bool {
    nonce.len() == 8
}

/// `rand::random` at `[u8; 8]`: eight bytes from the thread's random number generator.
///
/// Nothing is claimed of the bytes but that the generator gave them. The call panics where the
/// operating system has no randomness to give.
#[verifier::external_body]
pub(crate) fn random_nonce() -> (nonce: [u8; 8])
    ensures
        drawn(nonce@),
{
    rand::random()
}

} // verus!
