use vstd::prelude::*;

verus! {

/// Number of bytes in every digest, key and script hash used by the protocol.
pub const HASH_SIZE: usize = 32;

/// A 32-byte digest or script hash, the unit of identity in the protocol.
pub type Hash32 = [u8; 32];

/// The digest that the protocol's hash utility assigns to a byte string.
/// The function is deterministic: it depends on the bytes alone.
pub uninterp spec fn ckb_hash_of(data: Seq<u8>) -> Seq<u8>;

/// Relies on blake2b_ref::Blake2bBuilder: a 32-byte BLAKE2b digest with the
/// default-hash personalization tag, a pure function of the input bytes.
#[verifier::external_body]
pub fn ckb_hash(data: &[u8]) -> (r: Hash32)
    ensures
        r@ == ckb_hash_of(data@),
{
    let mut hasher = blake2b_ref::Blake2bBuilder::new(32).personal(b"ckb-default-hash").build();
    hasher.update(data);
    let mut hash = [0u8; 32];
    hasher.finalize(&mut hash);
    hash
}

/// Compares two digests byte by byte.
pub fn hash_eq(a: &Hash32, b: &Hash32) -> (r: bool)
    ensures
        r == (a@ == b@),
{
    let mut i: usize = 0;
    while i < 32
        invariant
            i <= 32,
            forall|j: int| 0 <= j < i ==> a@[j] == b@[j],
        decreases 32 - i,
    {
        if a[i] != b[i] {
            return false;
        }
        i = i + 1;
    }
    proof {
        assert(a@ =~= b@);
    }
    true
}

/// Compares an arbitrary byte string with a digest.
pub fn bytes_eq_hash(a: &Vec<u8>, b: &Hash32) -> (r: bool)
    ensures
        r == (a@ == b@),
{
    if a.len() != 32 {
        return false;
    }
    let mut i: usize = 0;
    while i < 32
        invariant
            a@.len() == 32,
            i <= 32,
            forall|j: int| 0 <= j < i ==> a@[j] == b@[j],
        decreases 32 - i,
    {
        if a[i] != b[i] {
            return false;
        }
        i = i + 1;
    }
    proof {
        assert(a@ =~= b@);
    }
    true
}

} // verus!
