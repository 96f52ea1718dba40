//! SHA-256, the one hash the envelope format and the Merkle tree are
//! built on.

use vstd::prelude::*;

verus! {

/// The digest SHA-256 assigns to a byte sequence. The algorithm itself is
/// not modelled; every statement the library makes about digests goes
/// through this name.
pub uninterp spec fn sha256_of(bytes: Seq<u8>) -> Seq<u8>;

/// Relies on ring::digest::digest with SHA256: the digest is a pure
/// function of the input bytes alone, and is always 32 bytes long.
#[verifier::external_body]
pub(crate) fn sha256(bytes: &[u8]) -> (r: Vec<u8>)
    ensures
        r@ == sha256_of(bytes@),
        r@.len() == 32,
{
    ring::digest::digest(&ring::digest::SHA256, bytes).as_ref().to_vec()
}

/// Byte-for-byte equality of two digests (or any byte vectors).
pub fn bytes_eq(a: &Vec<u8>, b: &Vec<u8>) -> (r: bool)
    ensures
        r == (a@ == b@),
{
    if a.len() != b.len() {
        return false;
    }
    let n = a.len();
    let mut i: usize = 0;
    while i < n
        invariant
            n == a.len(),
            n == b.len(),
            i <= n,
            forall|j: int| 0 <= j < i ==> a@[j] == b@[j],
        decreases n - i,
    {
        if a[i] != b[i] {
            return false;
        }
        i = i + 1;
    }
    proof {
        assert(a@ =~= b@);
    }
    true
}

} // verus!
