//! Random bytes.

use vstd::prelude::*;

verus! {

/// `RngCore::fill_bytes` of `rand::thread_rng` fills as many bytes as are asked for. Nothing is
/// claimed of the bytes.
#[verifier::external_body]
pub(crate) fn random_bytes(n: usize) -> (r: Vec<u8>)
    requires
        n <= isize::MAX,
    ensures
        r@.len() == n,
{
    let mut bytes = vec![0u8; n];
    rand::RngCore::fill_bytes(&mut rand::thread_rng(), &mut bytes);
    bytes
}

} // verus!
