//! Binary Merkle trees over 32-byte chunks.
//!
//! The leaves of a tree are the chunks of a value, followed by zero chunks up
//! to a power of two. Each parent is the hash of its two children; the root is
//! the one node of the top layer. How deep the tree is follows from the limit
//! that the schema declares for the value, never from how much data is there.

use crate::hash::{hash_nodes, hash_pair, zero_chunk, Hash256};
use vstd::arithmetic::power2::{lemma2_to64, lemma_pow2_pos, lemma_pow2_unfold, pow2};
use vstd::prelude::*;

verus! {

/// The bytes of each node of a layer.
pub open spec fn node_views(nodes: Seq<Hash256>) -> Seq<Seq<u8>> {
    Seq::new(nodes.len(), |i: int| nodes[i]@)
}

/// The depth of the tree that holds `leaf_limit` leaves: the least `d` with
/// `leaf_limit <= 2^d` (see `lemma_tree_depth_is_least`).
pub open spec fn tree_depth(leaf_limit: nat) -> nat
    decreases leaf_limit,
{
    if leaf_limit <= 1 {
        0
    } else {
        1 + tree_depth((leaf_limit + 1) / 2)
    }
}

/// The root of a tree of depth `level` whose leaves are all zero chunks.
pub open spec fn zero_hash(level: nat) -> Seq<u8>
    decreases level,
{
    if level == 0 {
        zero_chunk()
    } else {
        hash_pair(zero_hash((level - 1) as nat), zero_hash((level - 1) as nat))
    }
}

/// A layer of `width` nodes: those of `layer`, then `filler` in every place left.
pub open spec fn pad_layer(layer: Seq<Seq<u8>>, filler: Seq<u8>, width: nat) -> Seq<Seq<u8>> {
    Seq::new(
        width,
        |i: int|
            if i < layer.len() {
                layer[i]
            } else {
                filler
            },
    )
}

/// The layer above `layer`: node `i` is the hash of nodes `2i` and `2i + 1`.
pub open spec fn parent_layer(layer: Seq<Seq<u8>>) -> Seq<Seq<u8>> {
    Seq::new(layer.len() / 2, |i: int| hash_pair(layer[2 * i], layer[2 * i + 1]))
}

/// The root of the tree of the given depth over `2^depth` leaves.
pub open spec fn tree_root(leaves: Seq<Seq<u8>>, depth: nat) -> Seq<u8>
    decreases depth,
{
    if depth == 0 {
        leaves[0]
    } else {
        tree_root(parent_layer(leaves), (depth - 1) as nat)
    }
}

/// The Merkle root of `chunks` in a tree made for `leaf_limit` leaves.
pub open spec fn merkle_root(chunks: Seq<Seq<u8>>, leaf_limit: nat) -> Seq<u8> {
    let depth = tree_depth(leaf_limit);
    tree_root(pad_layer(chunks, zero_chunk(), pow2(depth)), depth)
}

/// The parents of a layer that is written without its trailing fillers: a node
/// without a right sibling is paired with `filler`.
pub open spec fn reduced_layer(layer: Seq<Seq<u8>>, filler: Seq<u8>) -> Seq<Seq<u8>> {
    Seq::new(
        (layer.len() + 1) / 2,
        |i: int|
            hash_pair(
                layer[2 * i],
                if 2 * i + 1 < layer.len() {
                    layer[2 * i + 1]
                } else {
                    filler
                },
            ),
    )
}

/// A tree of depth `tree_depth(leaf_limit)` has room for `leaf_limit` leaves,
/// and no shallower tree has.
pub proof fn lemma_tree_depth_is_least(leaf_limit: nat)
    ensures
        leaf_limit <= pow2(tree_depth(leaf_limit)),
        leaf_limit > 1 ==> pow2((tree_depth(leaf_limit) - 1) as nat) < leaf_limit,
    decreases leaf_limit,
{
    if leaf_limit <= 1 {
        lemma_pow2_pos(0);
    } else {
        let half = (leaf_limit + 1) / 2;
        lemma_tree_depth_is_least(half);
        lemma_pow2_unfold(tree_depth(leaf_limit));
        if half > 1 {
            lemma_pow2_unfold(tree_depth(half));
        } else {
            lemma_pow2_pos(0);
            lemma2_to64();
        }
    }
}

/// Hashing a padded layer pairwise gives the padded layer of its parents, with
/// the filler replaced by the hash of two fillers.
proof fn lemma_parent_of_padded(layer: Seq<Seq<u8>>, filler: Seq<u8>, depth: nat)
    requires
        layer.len() <= pow2(depth + 1),
    ensures
        reduced_layer(layer, filler).len() <= pow2(depth),
        parent_layer(pad_layer(layer, filler, pow2(depth + 1))) == pad_layer(
            reduced_layer(layer, filler),
            hash_pair(filler, filler),
            pow2(depth),
        ),
{
    lemma_pow2_unfold(depth + 1);
    assert(parent_layer(pad_layer(layer, filler, pow2(depth + 1))) =~= pad_layer(
        reduced_layer(layer, filler),
        hash_pair(filler, filler),
        pow2(depth),
    ));
}

/// The depth of the tree for `leaf_limit` leaves.
pub fn depth_for_limit(leaf_limit: usize) -> (depth: usize)
    ensures
        depth == tree_depth(leaf_limit as nat),
{
    let mut rest: usize = leaf_limit;
    let mut depth: usize = 0;
    while rest > 1
        invariant
            depth + tree_depth(rest as nat) == tree_depth(leaf_limit as nat),
            depth + rest <= leaf_limit,
        decreases rest,
    {
        rest = rest / 2 + rest % 2;
        depth += 1;
    }
    depth
}

/// The parents of `layer`, where a last node without a sibling is paired with
/// `filler`.
fn reduce_layer(layer: &Vec<Hash256>, filler: &Hash256) -> (next: Vec<Hash256>)
    ensures
        node_views(next@) == reduced_layer(node_views(layer@), filler@),
{
    let n: usize = layer.len();
    let pairs: usize = n / 2 + n % 2;
    let mut next: Vec<Hash256> = Vec::new();
    let mut p: usize = 0;
    while p < pairs
        invariant
            n == layer@.len(),
            pairs == (n + 1) / 2,
            p <= pairs,
            next@.len() == p,
            forall|k: int|
                0 <= k < p ==> (#[trigger] next@[k])@ == reduced_layer(
                    node_views(layer@),
                    filler@,
                )[k],
        decreases pairs - p,
    {
        let i: usize = 2 * p;
        let parent = if i + 1 < n {
            hash_nodes(&layer[i], &layer[i + 1])
        } else {
            hash_nodes(&layer[i], filler)
        };
        next.push(parent);
        p += 1;
    }
    assert(node_views(next@) =~= reduced_layer(node_views(layer@), filler@));
    next
}

/// The root of `chunks` in a tree made for `leaf_limit` leaves, of which at
/// most that many are there.
pub(crate) fn merkleize_within(chunks: &[Hash256], leaf_limit: usize) -> (root: Hash256)
    requires
        chunks@.len() <= leaf_limit,
    ensures
        root@ == merkle_root(node_views(chunks@), leaf_limit as nat),
{
    let depth: usize = depth_for_limit(leaf_limit);
    let mut layer: Vec<Hash256> = vstd::slice::slice_to_vec(chunks);
    let mut filler: Hash256 = Hash256::zero();
    let mut level: usize = 0;
    proof {
        lemma_tree_depth_is_least(leaf_limit as nat);
        assert(node_views(layer@) =~= node_views(chunks@));
    }
    while level < depth
        invariant
            level <= depth,
            filler@ == zero_hash(level as nat),
            layer@.len() <= pow2((depth - level) as nat),
            tree_root(
                pad_layer(node_views(layer@), filler@, pow2((depth - level) as nat)),
                (depth - level) as nat,
            ) == merkle_root(node_views(chunks@), leaf_limit as nat),
        decreases depth - level,
    {
        let next: Vec<Hash256> = reduce_layer(&layer, &filler);
        proof {
            lemma_parent_of_padded(node_views(layer@), filler@, (depth - level - 1) as nat);
        }
        filler = hash_nodes(&filler, &filler);
        layer = next;
        level += 1;
    }
    proof {
        lemma2_to64();
        let top = pad_layer(node_views(layer@), filler@, 1);
        assert(tree_root(top, 0) == top[0]);
    }
    if layer.len() == 0 {
        filler
    } else {
        layer[0]
    }
}

/// The Merkle root of `chunks`, in the smallest tree that holds them. One
/// chunk is its own root; no chunk at all gives the zero chunk.
pub fn merkleize(chunks: &[Hash256]) -> (root: Hash256)
    ensures
        root@ == merkle_root(node_views(chunks@), chunks@.len()),
{
    merkleize_within(chunks, chunks.len())
}

/// The Merkle root of `chunks` in the tree made for `leaf_limit` leaves. There
/// is none where the chunks are more than the limit.
pub fn merkleize_with_limit(chunks: &[Hash256], leaf_limit: usize) -> (root: Option<Hash256>)
    ensures
        match root {
            Some(r) => chunks@.len() <= leaf_limit && r@ == merkle_root(
                node_views(chunks@),
                leaf_limit as nat,
            ),
            None => chunks@.len() > leaf_limit,
        },
{
    if chunks.len() > leaf_limit {
        None
    } else {
        Some(merkleize_within(chunks, leaf_limit))
    }
}

/// The root of a tree of depth `level` whose leaves are all zero chunks.
pub fn zero_hash_at(level: usize) -> (root: Hash256)
    ensures
        root@ == zero_hash(level as nat),
{
    let mut root: Hash256 = Hash256::zero();
    let mut i: usize = 0;
    while i < level
        invariant
            i <= level,
            root@ == zero_hash(i as nat),
        decreases level - i,
    {
        root = hash_nodes(&root, &root);
        i += 1;
    }
    root
}

/// A tree over fillers alone: its root is the hash of two fillers, `depth`
/// times over.
proof fn lemma_filler_tree_root(level: nat, depth: nat)
    ensures
        tree_root(pad_layer(Seq::empty(), zero_hash(level), pow2(depth)), depth) == zero_hash(
            level + depth,
        ),
    decreases depth,
{
    let empty = Seq::<Seq<u8>>::empty();
    if depth == 0 {
        lemma2_to64();
    } else {
        let above = (depth - 1) as nat;
        lemma_pow2_pos(depth);
        lemma_parent_of_padded(empty, zero_hash(level), above);
        assert(reduced_layer(empty, zero_hash(level)) =~= empty);
        lemma_filler_tree_root(level + 1, above);
    }
}

/// With no chunk at all, the root is the zero chunk hashed with itself up to
/// the depth that the limit asks for.
pub proof fn lemma_merkle_root_of_nothing(leaf_limit: nat)
    ensures
        merkle_root(Seq::empty(), leaf_limit) == zero_hash(tree_depth(leaf_limit)),
{
    lemma_filler_tree_root(0, tree_depth(leaf_limit));
}

/// One chunk in a tree for one leaf is its own root: nothing is hashed.
pub proof fn lemma_merkle_root_of_one(chunk: Seq<u8>)
    ensures
        merkle_root(seq![chunk], 1) == chunk,
{
    lemma2_to64();
}

/// Two chunks in a tree for two leaves: the root is the hash of the first
/// followed by the second.
pub proof fn lemma_merkle_root_of_two(left: Seq<u8>, right: Seq<u8>)
    ensures
        merkle_root(seq![left, right], 2) == hash_pair(left, right),
{
    lemma2_to64();
    reveal_with_fuel(tree_depth, 3);
    reveal_with_fuel(tree_root, 3);
    let leaves = pad_layer(seq![left, right], zero_chunk(), 2);
    assert(parent_layer(leaves) =~= seq![hash_pair(left, right)]);
}

} // verus!
