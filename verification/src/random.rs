//! Randomness from the operating system.
use vstd::prelude::*;
use rand::RngCore;

verus! {

/// The operating system could not supply random bytes.
#[derive(Debug, Clone, Copy, PartialEq, Eq, Structural)]
pub enum RandError {
    Unavailable,
}

/// Calls `rand::rngs::OsRng.try_fill_bytes`, which overwrites `dest` with
/// random bytes from the operating system, or reports that it could not.
/// Trusted: the length stays the same.  Nothing is said of the bytes, nor of
/// whether the call succeeds: both come from the machine.
#[verifier::external_body]
pub(crate) fn fill_random(dest: &mut [u8]) -> (r: Result<(), RandError>)
    ensures
        final(dest)@.len() == old(dest)@.len(),
{
    match rand::rngs::OsRng.try_fill_bytes(dest) {
        Ok(()) => Ok(()),
        Err(_) => Err(RandError::Unavailable),
    }
}

} // verus!
