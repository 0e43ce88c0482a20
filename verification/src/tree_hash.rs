//! Hash tree roots: the Merkle root of a value, by the kind of the value.
//!
//! An integer or a byte string of up to 32 bytes is its own root, filled up
//! with zeros. A longer byte vector is the root of its chunks. A list is the
//! root of its chunks in the tree made for its capacity, hashed once more
//! with its length. A container is the root of the roots of its fields, in
//! the order in which the schema declares them.

use crate::encode::{
    bitlist_bit_len, bitlist_data, bitlist_violation, chunk_count, decode_bitlist,
    encode_byte_list, encode_fixed_bytes, encode_u64, fixed_len_violation,
    lemma_length_chunk_injective, length_chunk, list_len_violation, pack_bytes, packed_chunks,
    zero_padded,
};
use crate::error::{SchemaField, SigningRootError};
use crate::hash::{hash_nodes, hash_pair, lemma_same_bytes_same_hash, sha256, zero_chunk, Hash256};
use crate::merkle::{
    lemma_merkle_root_of_nothing, lemma_merkle_root_of_one, lemma_merkle_root_of_two,
    merkle_root, merkleize, merkleize_within, node_views, pad_layer, tree_depth, tree_root,
    zero_hash,
};
use vstd::arithmetic::power2::{lemma2_to64, pow2};
use vstd::prelude::*;

verus! {

/// A data root hashed with the length of the list it came from.
pub open spec fn mixed_in_length(root: Seq<u8>, length: nat) -> Seq<u8> {
    hash_pair(root, length_chunk(length))
}

/// The root of a byte vector, whose length is part of the schema.
pub open spec fn byte_vector_root(data: Seq<u8>) -> Seq<u8> {
    merkle_root(packed_chunks(data), chunk_count(data.len()))
}

/// The root of a byte list that may hold up to `capacity` bytes.
pub open spec fn byte_list_root(data: Seq<u8>, capacity: nat) -> Seq<u8> {
    mixed_in_length(merkle_root(packed_chunks(data), chunk_count(capacity)), data.len())
}

/// The number of chunks that `bit_len` bits fill.
pub open spec fn bit_chunk_count(bit_len: nat) -> nat {
    (bit_len + 255) / 256
}

/// The root of a serialized bit list that may hold up to `capacity_bits` bits.
pub open spec fn bitlist_root(serialized: Seq<u8>, capacity_bits: nat) -> Seq<u8> {
    mixed_in_length(
        merkle_root(packed_chunks(bitlist_data(serialized)), bit_chunk_count(capacity_bits)),
        bitlist_bit_len(serialized).unwrap(),
    )
}

/// The root of a container, from the roots of its fields in declared order.
pub open spec fn container_root(field_roots: Seq<Seq<u8>>) -> Seq<u8> {
    merkle_root(field_roots, field_roots.len())
}

/// A value of the message catalogue: it has a hash tree root, unless one of
/// its fields breaks the schema.
///
/// Each type states its root and its faults in functions of its own,
/// `root_spec` and `violation`, and hands them on here: the root of a
/// container can then speak of the roots of its fields directly.
pub trait TreeHash {
    /// What is wrong with the first field that breaks the schema.
    spec fn schema_error(&self) -> Option<SigningRootError>;

    /// The hash tree root of a value that keeps the schema.
    spec fn htr(&self) -> Seq<u8>;

    /// The hash tree root of the value, or what is wrong with it.
    fn hash_tree_root(&self) -> (result: Result<Hash256, SigningRootError>)
        ensures
            match result {
                Ok(root) => self.schema_error() is None && root@ == self.htr(),
                Err(e) => self.schema_error() == Some(e),
            },
    ;
}

/// Hashing is a function: whatever `hash_tree_root` may return for a value,
/// it returns every time.
pub proof fn lemma_hash_tree_root_deterministic<M: TreeHash>(
    message: M,
    first: Result<Hash256, SigningRootError>,
    second: Result<Hash256, SigningRootError>,
)
    requires
        call_ensures(M::hash_tree_root, (&message,), first),
        call_ensures(M::hash_tree_root, (&message,), second),
    ensures
        first == second,
{
    if first is Ok && second is Ok {
        lemma_same_bytes_same_hash(first.unwrap(), second.unwrap());
    }
}

/// A byte vector of at most 32 bytes is its own root, filled up with zeros:
/// nothing is hashed.
pub proof fn lemma_short_vector_is_own_root(data: Seq<u8>)
    requires
        data.len() <= 32,
    ensures
        byte_vector_root(data) == zero_padded(data),
{
    lemma2_to64();
    let leaves = pad_layer(packed_chunks(data), zero_chunk(), 1);
    assert(leaves[0] =~= zero_padded(data));
}

/// What is hashed last for a list: its data root, then its length chunk.
pub open spec fn length_mix_input(root: Seq<u8>, length: nat) -> Seq<u8> {
    root + length_chunk(length)
}

/// Different lengths give different inputs to the last hash of a list,
/// whatever the data roots are: two lists of different lengths can have the
/// same root only where SHA-256 collides.
pub proof fn lemma_length_enters_hash(
    first_root: Seq<u8>,
    first_len: nat,
    second_root: Seq<u8>,
    second_len: nat,
)
    requires
        first_len != second_len,
        first_len <= u64::MAX,
        second_len <= u64::MAX,
    ensures
        mixed_in_length(first_root, first_len) == sha256(length_mix_input(first_root, first_len)),
        mixed_in_length(second_root, second_len) == sha256(
            length_mix_input(second_root, second_len),
        ),
        length_mix_input(first_root, first_len) != length_mix_input(second_root, second_len),
{
    let a = length_mix_input(first_root, first_len);
    let b = length_mix_input(second_root, second_len);
    if a == b {
        assert(a.len() == first_root.len() + 32);
        assert(b.len() == second_root.len() + 32);
        assert(length_chunk(first_len) =~= a.subrange(first_root.len() as int, a.len() as int));
        assert(length_chunk(second_len) =~= b.subrange(second_root.len() as int, b.len() as int));
        lemma_length_chunk_injective(first_len, second_len);
    }
}

/// Two byte lists of different lengths and the same capacity are hashed from
/// different inputs, whatever bytes they share.
pub proof fn lemma_length_enters_list_root(first: Seq<u8>, second: Seq<u8>, capacity: nat)
    requires
        first.len() != second.len(),
        first.len() <= u64::MAX,
        second.len() <= u64::MAX,
    ensures
        byte_list_root(first, capacity) == sha256(
            length_mix_input(
                merkle_root(packed_chunks(first), chunk_count(capacity)),
                first.len(),
            ),
        ),
        byte_list_root(second, capacity) == sha256(
            length_mix_input(
                merkle_root(packed_chunks(second), chunk_count(capacity)),
                second.len(),
            ),
        ),
        length_mix_input(merkle_root(packed_chunks(first), chunk_count(capacity)), first.len())
            != length_mix_input(
            merkle_root(packed_chunks(second), chunk_count(capacity)),
            second.len(),
        ),
{
    lemma_length_enters_hash(
        merkle_root(packed_chunks(first), chunk_count(capacity)),
        first.len(),
        merkle_root(packed_chunks(second), chunk_count(capacity)),
        second.len(),
    );
}

/// The depth of the tree under a byte list: it follows from the capacity alone.
pub open spec fn list_tree_depth(capacity: nat) -> nat {
    tree_depth(chunk_count(capacity))
}

/// The leaves of the tree under a byte list: its chunks, then zero chunks up
/// to the width that the capacity asks for.
pub open spec fn list_tree_leaves(data: Seq<u8>, capacity: nat) -> Seq<Seq<u8>> {
    pad_layer(packed_chunks(data), zero_chunk(), pow2(list_tree_depth(capacity)))
}

/// However much of its capacity a list fills, its tree has the width and the
/// depth that the capacity asks for. An empty list has the root of the tree
/// of zero chunks of that depth, hashed with the length 0.
pub proof fn lemma_list_tree_shape(data: Seq<u8>, capacity: nat)
    ensures
        list_tree_leaves(data, capacity).len() == pow2(list_tree_depth(capacity)),
        byte_list_root(data, capacity) == mixed_in_length(
            tree_root(list_tree_leaves(data, capacity), list_tree_depth(capacity)),
            data.len(),
        ),
        byte_list_root(Seq::empty(), capacity) == mixed_in_length(
            zero_hash(list_tree_depth(capacity)),
            0,
        ),
{
    lemma_merkle_root_of_nothing(chunk_count(capacity));
    assert(packed_chunks(Seq::<u8>::empty()) =~= Seq::<Seq<u8>>::empty());
}

/// A container of one field has the root of that field: nothing is hashed.
pub proof fn lemma_single_field_container(field_root: Seq<u8>)
    ensures
        container_root(seq![field_root]) == field_root,
{
    lemma_merkle_root_of_one(field_root);
}

/// The order of two fields enters the root of their container: the root is
/// the hash of the first followed by the second, and swapping two different
/// fields changes what is hashed.
pub proof fn lemma_field_order_enters_root(first: Seq<u8>, second: Seq<u8>)
    requires
        first.len() == second.len(),
        first != second,
    ensures
        container_root(seq![first, second]) == sha256(first + second),
        container_root(seq![second, first]) == sha256(second + first),
        first + second != second + first,
{
    lemma_merkle_root_of_two(first, second);
    lemma_merkle_root_of_two(second, first);
    if first + second == second + first {
        assert(first =~= (first + second).subrange(0, first.len() as int));
        assert(second =~= (second + first).subrange(0, second.len() as int));
    }
}

/// Hashes a data root with the length of the list it came from.
pub fn mix_in_length(root: &Hash256, length: usize) -> (mixed: Hash256)
    ensures
        mixed@ == mixed_in_length(root@, length as nat),
{
    let chunk: Hash256 = encode_u64(length as u64);
    hash_nodes(root, &chunk)
}

/// The root of a field that must hold exactly `expected_len` bytes.
pub fn hash_fixed_bytes(data: &[u8], expected_len: usize, field: SchemaField) -> (result: Result<
    Hash256,
    SigningRootError,
>)
    ensures
        match result {
            Ok(root) => data@.len() == expected_len && root@ == byte_vector_root(data@),
            Err(e) => fixed_len_violation(field, expected_len, data@.len()) == Some(e),
        },
{
    match encode_fixed_bytes(data, expected_len, field) {
        Ok(chunks) => Ok(merkleize(chunks.as_slice())),
        Err(e) => Err(e),
    }
}

/// The root of a byte list that may hold up to `capacity` bytes.
pub fn hash_byte_list(data: &[u8], capacity: usize, field: SchemaField) -> (result: Result<
    Hash256,
    SigningRootError,
>)
    ensures
        match result {
            Ok(root) => data@.len() <= capacity && root@ == byte_list_root(data@, capacity as nat),
            Err(e) => list_len_violation(field, capacity, data@.len()) == Some(e),
        },
{
    match encode_byte_list(data, capacity, field) {
        Ok(chunks) => {
            let limit: usize = capacity / 32 + if capacity % 32 == 0 {
                0
            } else {
                1
            };
            assert(chunks@.len() == node_views(chunks@).len());
            let data_root: Hash256 = merkleize_within(chunks.as_slice(), limit);
            Ok(mix_in_length(&data_root, data.len()))
        },
        Err(e) => Err(e),
    }
}

/// The root of a serialized bit list that may hold up to `capacity_bits` bits.
pub fn hash_bitlist(serialized: &[u8], capacity_bits: usize, field: SchemaField) -> (result:
    Result<Hash256, SigningRootError>)
    ensures
        match result {
            Ok(root) => bitlist_violation(field, capacity_bits, serialized@) is None && root@
                == bitlist_root(serialized@, capacity_bits as nat),
            Err(e) => bitlist_violation(field, capacity_bits, serialized@) == Some(e),
        },
{
    match decode_bitlist(serialized, capacity_bits, field) {
        Ok((data, bits)) => {
            let chunks: Vec<Hash256> = pack_bytes(data.as_slice());
            let limit: usize = capacity_bits / 256 + if capacity_bits % 256 == 0 {
                0
            } else {
                1
            };
            assert(chunks@.len() == node_views(chunks@).len());
            let data_root: Hash256 = merkleize_within(chunks.as_slice(), limit);
            Ok(mix_in_length(&data_root, bits))
        },
        Err(e) => Err(e),
    }
}

/// The root of a container, from the roots of its fields in declared order.
pub fn hash_container(field_roots: &[Hash256]) -> (root: Hash256)
    ensures
        root@ == container_root(node_views(field_roots@)),
{
    merkleize(field_roots)
}

} // verus!
