use sha2::Digest;
use signing_root_util::hash::hash_nodes;
use signing_root_util::merkle::{depth_for_limit, merkleize, merkleize_with_limit, zero_hash_at};
use signing_root_util::{Hash256, SigningRootError};

fn h(text: &str) -> Hash256 {
    Hash256::from_slice(&hex::decode(text).unwrap()).unwrap()
}

fn filled(byte: u8) -> Hash256 {
    Hash256([byte; 32])
}

#[test]
fn zero_value_is_thirty_two_zero_bytes() {
    assert_eq!(Hash256::zero().0, [0u8; 32]);
    assert_eq!(Hash256::default(), Hash256::zero());
    assert_eq!(Hash256::zero().as_bytes(), &[0u8; 32]);
}

#[test]
fn from_slice_takes_exactly_thirty_two_bytes() {
    let bytes: Vec<u8> = (0u8..32).collect();
    let value = Hash256::from_slice(&bytes).unwrap();
    assert_eq!(value.to_fixed_bytes().to_vec(), bytes);
    assert_eq!(Hash256::from_slice(&bytes[..31]), Err(SigningRootError::VectorConversionError));
    assert_eq!(Hash256::from_slice(&[0u8; 33]), Err(SigningRootError::VectorConversionError));
    assert_eq!(Hash256::from_slice(&[]), Err(SigningRootError::VectorConversionError));
}

#[test]
fn equality_is_byte_exact() {
    let mut other = [7u8; 32];
    assert_eq!(Hash256([7u8; 32]), Hash256(other));
    other[31] = 8;
    assert_ne!(Hash256([7u8; 32]), Hash256(other));
    other[31] = 7;
    other[0] = 6;
    assert_ne!(Hash256([7u8; 32]), Hash256(other));
}

#[test]
fn hash_nodes_is_sha256_of_left_then_right() {
    let left = filled(0xaa);
    let right = filled(0xbb);
    let parent = hash_nodes(&left, &right);
    assert_eq!(parent, h("e2d80f78d79027556d6619a1400605abbdca6bb6eb24e0831e33ecd5466fa5f6"));
    let mut input = left.0.to_vec();
    input.extend_from_slice(&right.0);
    let direct: [u8; 32] = sha2::Sha256::digest(&input).into();
    assert_eq!(parent.0, direct);
    assert_ne!(parent, left);
    assert_ne!(parent, right);
    assert_eq!(
        hash_nodes(&right, &left),
        h("0393ab96b890b91266b63c748c51063fc8d8b802d25382b203bb302bb8864bde")
    );
}

#[test]
fn zero_hashes_match_the_known_table() {
    assert_eq!(zero_hash_at(0), Hash256::zero());
    assert_eq!(
        zero_hash_at(1),
        h("f5a5fd42d16a20302798ef6ed309979b43003d2320d9f0e8ea9831a92759fb4b")
    );
    assert_eq!(
        zero_hash_at(2),
        h("db56114e00fdd4c1f85c892bf35ac9a89289aaecb1ebd0a96cde606a748b5d71")
    );
    assert_eq!(
        zero_hash_at(3),
        h("c78009fdf07fc56a11f122370658a353aaa542ed63e44c4bc15ff4cd105ab33c")
    );
    assert_eq!(
        zero_hash_at(40),
        h("6bfe8d2bcc4237b74a5047058ef455339ecd7360cb63bfbb8ee5448e6430ba04")
    );
    assert_eq!(zero_hash_at(2), hash_nodes(&zero_hash_at(1), &zero_hash_at(1)));
}

#[test]
fn depth_is_the_least_power_of_two_that_holds_the_limit() {
    assert_eq!(depth_for_limit(0), 0);
    assert_eq!(depth_for_limit(1), 0);
    assert_eq!(depth_for_limit(2), 1);
    assert_eq!(depth_for_limit(3), 2);
    assert_eq!(depth_for_limit(4), 2);
    assert_eq!(depth_for_limit(5), 3);
    assert_eq!(depth_for_limit(8), 3);
    assert_eq!(depth_for_limit(9), 4);
    assert_eq!(depth_for_limit(64), 6);
    assert_eq!(depth_for_limit(65), 7);
    assert_eq!(depth_for_limit(1 << 20), 20);
    assert_eq!(depth_for_limit((1 << 20) + 1), 21);
    assert_eq!(depth_for_limit(usize::MAX), usize::BITS as usize);
}

#[test]
fn merkleize_of_nothing_is_the_zero_chunk() {
    assert_eq!(merkleize(&[]), Hash256::zero());
}

#[test]
fn merkleize_of_one_chunk_is_that_chunk() {
    assert_eq!(merkleize(&[filled(0xaa)]), filled(0xaa));
}

#[test]
fn merkleize_of_two_chunks_is_one_hash() {
    let chunks = [filled(0xaa), filled(0xbb)];
    assert_eq!(merkleize(&chunks), hash_nodes(&chunks[0], &chunks[1]));
}

#[test]
fn merkleize_pads_three_chunks_to_four() {
    let chunks = [filled(0xaa), filled(0xbb), filled(0xcc)];
    let expected = h("26d974d88e212bfe4d86dfb25e26df30afa9006d70f931b0c2ca482b5bfe242a");
    assert_eq!(merkleize(&chunks), expected);
    assert_eq!(merkleize_with_limit(&chunks, 3), Some(expected));
    assert_eq!(merkleize_with_limit(&chunks, 4), Some(expected));
    let by_hand = hash_nodes(
        &hash_nodes(&chunks[0], &chunks[1]),
        &hash_nodes(&chunks[2], &Hash256::zero()),
    );
    assert_eq!(by_hand, expected);
}

#[test]
fn merkleize_of_five_chunks_has_depth_three() {
    let chunks = [filled(0xaa), filled(0xbb), filled(0xcc), filled(0xaa), filled(0xbb)];
    assert_eq!(
        merkleize(&chunks),
        h("ba09158b70157a7e0803d0e5ecf8c8a53f834a0855cf4e2a7ef9aaf844e81a23")
    );
}

#[test]
fn the_limit_sets_the_depth() {
    let chunks = [filled(0xaa), filled(0xbb), filled(0xcc)];
    assert_eq!(
        merkleize_with_limit(&chunks, 8),
        Some(h("d791064a4484be92cc1e5087547c20d4d2f1b12e46f1de0bf19173de46394071"))
    );
    assert_eq!(
        merkleize_with_limit(&chunks[..1], 4),
        Some(h("98dfd604062ecb1ede9a2979ac94367c7106ec04f168aa66ff0a04f023a7d1f5"))
    );
    assert_ne!(merkleize_with_limit(&chunks, 8), merkleize_with_limit(&chunks, 4));
}

#[test]
fn an_empty_tree_is_the_zero_hash_of_its_depth() {
    assert_eq!(merkleize_with_limit(&[], 8), Some(zero_hash_at(3)));
    assert_eq!(merkleize_with_limit(&[], 1), Some(zero_hash_at(0)));
    assert_eq!(merkleize_with_limit(&[], 0), Some(zero_hash_at(0)));
    assert_eq!(merkleize_with_limit(&[], 1 << 40), Some(zero_hash_at(40)));
}

#[test]
fn more_chunks_than_the_limit_have_no_root() {
    let chunks = [filled(0xaa), filled(0xbb), filled(0xcc)];
    assert_eq!(merkleize_with_limit(&chunks, 2), None);
    assert_eq!(merkleize_with_limit(&chunks, 0), None);
    assert_eq!(merkleize_with_limit(&chunks[..1], 0), None);
}
