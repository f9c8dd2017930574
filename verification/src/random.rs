//! Random bytes.

use vstd::prelude::*;

verus! {

/// `getrandom::fill` on a buffer of `n` bytes: the buffer filled by the system,
/// or none where the system has no random bytes. Nothing is stated of the bytes. No
/// buffer is longer than `isize::MAX`.
#[verifier::external_body]
pub(crate) fn random_bytes(n: usize) -> (r: Option<Vec<u8>>)
    requires
        n <= isize::MAX,
    ensures
        r matches Some(v) ==> v@.len() == n,
{
    let mut buf = vec![0u8; n];
    match getrandom::fill(&mut buf) {
        Ok(()) => Some(buf),
        Err(_) => None,
    }
}

} // verus!
