//! The 32-byte hash value and the hash function under every tree node.

use crate::error::SigningRootError;
use sha2::Digest;
use vstd::prelude::*;

verus! {

/// SHA-256 of a byte string, as a mathematical function from bytes to bytes.
pub uninterp spec fn sha256(data: Seq<u8>) -> Seq<u8>;

/// The bytes of a chunk that holds nothing: thirty-two zeros.
pub open spec fn zero_chunk() -> Seq<u8> {
    Seq::new(32, |i: int| 0u8)
}

/// The parent of two tree nodes: the hash of the left node followed by the right.
pub open spec fn hash_pair(left: Seq<u8>, right: Seq<u8>) -> Seq<u8> {
    sha256(left + right)
}

/// A 32-byte value: a tree node, a root, a block or state reference, a domain.
#[derive(Clone, Copy, Debug, Eq, Hash)]
pub struct Hash256(pub [u8; 32]);

impl View for Hash256 {
    type V = Seq<u8>;

    open spec fn view(&self) -> Seq<u8> {
        self.0@
    }
}

impl Hash256 {
    /// The value whose bytes are all zero.
    pub fn zero() -> (h: Hash256)
        ensures
            h@ == zero_chunk(),
    {
        let bytes: [u8; 32] = [0u8; 32];
        assert(bytes@ =~= zero_chunk());
        Hash256(bytes)
    }

    /// The value that holds the 32 bytes of `bytes`, which must be that many.
    pub fn from_slice(bytes: &[u8]) -> (result: Result<Hash256, SigningRootError>)
        ensures
            match result {
                Ok(h) => bytes@.len() == 32 && h@ == bytes@,
                Err(e) => bytes@.len() != 32 && e == SigningRootError::VectorConversionError,
            },
    {
        if bytes.len() != 32 {
            return Err(SigningRootError::VectorConversionError);
        }
        let mut array: [u8; 32] = [0u8; 32];
        let mut i: usize = 0;
        while i < 32
            invariant
                i <= 32,
                bytes@.len() == 32,
                forall|k: int| 0 <= k < i ==> array@[k] == bytes@[k],
            decreases 32 - i,
        {
            array[i] = bytes[i];
            i += 1;
        }
        assert(array@ =~= bytes@);
        Ok(Hash256(array))
    }

    /// The bytes of the value, as an array of its own.
    pub fn to_fixed_bytes(self) -> (bytes: [u8; 32])
        ensures
            bytes@ == self@,
    {
        self.0
    }

    /// The bytes of the value.
    pub fn as_bytes(&self) -> (bytes: &[u8; 32])
        ensures
            bytes@ == self@,
    {
        &self.0
    }
}

/// Two values with the same bytes are the same value.
pub proof fn lemma_same_bytes_same_hash(a: Hash256, b: Hash256)
    requires
        a@ == b@,
    ensures
        a == b,
{
    assert(a.0 =~= b.0);
}

/// Calls `sha2::Sha256::digest` on `data`. The contract claims that the 32 bytes
/// returned are SHA-256 of the input, a function of the input bytes alone.
#[verifier::external_body]
pub(crate) fn sha256_digest(data: &[u8]) -> (digest: [u8; 32])
    ensures
        digest@ == sha256(data@),
{
    sha2::Sha256::digest(data).into()
}

/// Hashes two nodes into their parent.
pub fn hash_nodes(left: &Hash256, right: &Hash256) -> (parent: Hash256)
    ensures
        parent@ == hash_pair(left@, right@),
{
    let mut buf: Vec<u8> = Vec::with_capacity(64);
    buf.extend_from_slice(left.0.as_slice());
    buf.extend_from_slice(right.0.as_slice());
    assert(buf@ =~= left@ + right@);
    Hash256(sha256_digest(buf.as_slice()))
}

impl Default for Hash256 {
    /// The value whose bytes are all zero.
    fn default() -> (h: Hash256)
        ensures
            h@ == zero_chunk(),
    {
        Hash256::zero()
    }
}

impl PartialEq for Hash256 {
    /// Byte-exact equality.
    fn eq(&self, other: &Hash256) -> (equal: bool) {
        let mut i: usize = 0;
        while i < 32
            invariant
                i <= 32,
                forall|k: int| 0 <= k < i ==> self.0@[k] == other.0@[k],
            decreases 32 - i,
        {
            if self.0[i] != other.0[i] {
                return false;
            }
            i += 1;
        }
        assert(self.0@ =~= other.0@);
        true
    }
}

impl vstd::std_specs::cmp::PartialEqSpecImpl for Hash256 {
    open spec fn obeys_eq_spec() -> bool {
        true
    }

    open spec fn eq_spec(&self, other: &Hash256) -> bool {
        self@ == other@
    }
}

} // verus!
