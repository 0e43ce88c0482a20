//! Serialization of values into the 32-byte chunks that are hashed.
//!
//! Integers are written little-endian, byte strings as they are; the last
//! chunk of either is filled up with zeros. A bit list arrives in its
//! serialized form, in which one more bit, set, follows its last bit.

use crate::error::{SchemaField, SigningRootError};
use crate::hash::Hash256;
use crate::merkle::node_views;
use vstd::prelude::*;

verus! {

/// The `width` lowest base-256 digits of `value`, lowest first.
pub open spec fn le_bytes(value: nat, width: nat) -> Seq<u8>
    decreases width,
{
    if width == 0 {
        Seq::empty()
    } else {
        seq![(value % 256) as u8] + le_bytes(value / 256, (width - 1) as nat)
    }
}

/// The number that `width` base-256 digits can count up to: `256^width`.
pub open spec fn radix_bound(width: nat) -> nat
    decreases width,
{
    if width == 0 {
        1
    } else {
        256 * radix_bound((width - 1) as nat)
    }
}

/// `data` followed by zeros up to one chunk.
pub open spec fn zero_padded(data: Seq<u8>) -> Seq<u8> {
    Seq::new(
        32,
        |i: int|
            if i < data.len() {
                data[i]
            } else {
                0u8
            },
    )
}

/// The chunk of a 64-bit integer: its eight bytes, little-endian, then zeros.
pub open spec fn u64_chunk(value: u64) -> Seq<u8> {
    zero_padded(le_bytes(value as nat, 8))
}

/// The chunk that carries the length of a list.
pub open spec fn length_chunk(length: nat) -> Seq<u8> {
    zero_padded(le_bytes(length, 8))
}

/// The number of chunks that `byte_len` bytes fill.
pub open spec fn chunk_count(byte_len: nat) -> nat {
    (byte_len + 31) / 32
}

/// Chunk `index` of `data`: its bytes from `32 * index` on, zeros past its end.
pub open spec fn chunk_at(data: Seq<u8>, index: int) -> Seq<u8> {
    Seq::new(
        32,
        |j: int|
            if 32 * index + j < data.len() {
                data[32 * index + j]
            } else {
                0u8
            },
    )
}

/// `data` cut into consecutive chunks, the last one filled up with zeros.
pub open spec fn packed_chunks(data: Seq<u8>) -> Seq<Seq<u8>> {
    Seq::new(chunk_count(data.len()), |i: int| chunk_at(data, i))
}

/// The position of the highest bit that is set in `byte`, for `byte > 0`.
pub open spec fn top_bit(byte: u8) -> nat {
    if byte >= 128 {
        7
    } else if byte >= 64 {
        6
    } else if byte >= 32 {
        5
    } else if byte >= 16 {
        4
    } else if byte >= 8 {
        3
    } else if byte >= 4 {
        2
    } else if byte >= 2 {
        1
    } else {
        0
    }
}

/// The value of the highest bit that is set in `byte`, for `byte > 0`.
pub open spec fn top_bit_weight(byte: u8) -> u8 {
    if byte >= 128 {
        128
    } else if byte >= 64 {
        64
    } else if byte >= 32 {
        32
    } else if byte >= 16 {
        16
    } else if byte >= 8 {
        8
    } else if byte >= 4 {
        4
    } else if byte >= 2 {
        2
    } else {
        1
    }
}

/// The number of bits in a serialized bit list: those before the end marker,
/// which is the highest bit set in the last byte. There is none where the
/// marker is missing.
pub open spec fn bitlist_bit_len(serialized: Seq<u8>) -> Option<nat> {
    if serialized.len() == 0 || serialized.last() == 0 {
        None
    } else {
        Some((8 * (serialized.len() - 1) + top_bit(serialized.last())) as nat)
    }
}

/// The bits of a serialized bit list, eight to a byte, without the end
/// marker: the last byte loses the marker, and goes where nothing else is in it.
pub open spec fn bitlist_data(serialized: Seq<u8>) -> Seq<u8> {
    let last = serialized.last();
    if top_bit(last) == 0 {
        serialized.drop_last()
    } else {
        serialized.drop_last().push((last - top_bit_weight(last)) as u8)
    }
}

/// What is wrong with a field that must hold exactly `expected` bytes.
pub open spec fn fixed_len_violation(
    field: SchemaField,
    expected: usize,
    actual: nat,
) -> Option<SigningRootError> {
    if actual == expected {
        None
    } else {
        Some(SigningRootError::SchemaViolation { field, expected, actual: actual as usize })
    }
}

/// What is wrong with a list that may hold up to `capacity` bytes.
pub open spec fn list_len_violation(
    field: SchemaField,
    capacity: usize,
    actual: nat,
) -> Option<SigningRootError> {
    if actual <= capacity {
        None
    } else {
        Some(
            SigningRootError::SchemaViolation {
                field,
                expected: capacity,
                actual: actual as usize,
            },
        )
    }
}

/// What is wrong with a serialized bit list that may hold up to
/// `capacity_bits` bits. A bit count that no `usize` holds is reported as
/// `usize::MAX`.
pub open spec fn bitlist_violation(
    field: SchemaField,
    capacity_bits: usize,
    serialized: Seq<u8>,
) -> Option<SigningRootError> {
    match bitlist_bit_len(serialized) {
        None => Some(SigningRootError::VectorConversionError),
        Some(bits) => if bits <= capacity_bits {
            None
        } else {
            Some(
                SigningRootError::SchemaViolation {
                    field,
                    expected: capacity_bits,
                    actual: if bits <= usize::MAX {
                        bits as usize
                    } else {
                        usize::MAX
                    },
                },
            )
        },
    }
}

/// Little-endian digits tell numbers apart: two numbers below `256^width` with
/// the same `width` digits are the same number.
pub proof fn lemma_le_bytes_injective(a: nat, b: nat, width: nat)
    requires
        a < radix_bound(width),
        b < radix_bound(width),
        le_bytes(a, width) == le_bytes(b, width),
    ensures
        a == b,
    decreases width,
{
    if width > 0 {
        let rest = (width - 1) as nat;
        lemma_le_bytes_len(a / 256, rest);
        lemma_le_bytes_len(b / 256, rest);
        let sa = le_bytes(a, width);
        let sb = le_bytes(b, width);
        assert(sa[0] == (a % 256) as u8);
        assert(sb[0] == (b % 256) as u8);
        assert(le_bytes(a / 256, rest) =~= sa.subrange(1, width as int));
        assert(le_bytes(b / 256, rest) =~= sb.subrange(1, width as int));
        lemma_le_bytes_injective(a / 256, b / 256, rest);
    }
}

/// `width` digits are `width` bytes.
pub proof fn lemma_le_bytes_len(value: nat, width: nat)
    ensures
        le_bytes(value, width).len() == width,
    decreases width,
{
    if width > 0 {
        lemma_le_bytes_len(value / 256, (width - 1) as nat);
    }
}

/// Lists of different lengths get different length chunks, as far as a
/// 64-bit count tells the lengths apart.
pub proof fn lemma_length_chunk_injective(a: nat, b: nat)
    requires
        a <= u64::MAX,
        b <= u64::MAX,
        length_chunk(a) == length_chunk(b),
    ensures
        a == b,
{
    lemma_le_bytes_len(a, 8);
    lemma_le_bytes_len(b, 8);
    assert(le_bytes(a, 8) =~= le_bytes(b, 8)) by {
        assert forall|i: int| 0 <= i < 8 implies le_bytes(a, 8)[i] == le_bytes(b, 8)[i] by {
            assert(length_chunk(a)[i] == le_bytes(a, 8)[i]);
            assert(length_chunk(b)[i] == le_bytes(b, 8)[i]);
        }
    }
    assert(radix_bound(8) == 0x1_0000_0000_0000_0000) by {
        reveal_with_fuel(radix_bound, 9);
    }
    lemma_le_bytes_injective(a, b, 8);
}

/// The chunk of a 64-bit integer.
pub fn encode_u64(value: u64) -> (chunk: Hash256)
    ensures
        chunk@ == u64_chunk(value),
{
    let mut bytes: [u8; 32] = [0u8; 32];
    let mut rest: u64 = value;
    let mut i: usize = 0;
    while i < 8
        invariant
            i <= 8,
            forall|k: int| i <= k < 32 ==> bytes@[k] == 0u8,
            bytes@.subrange(0, i as int) + le_bytes(rest as nat, (8 - i) as nat) == le_bytes(
                value as nat,
                8,
            ),
        decreases 8 - i,
    {
        let ghost before = bytes@;
        bytes[i] = (rest % 256) as u8;
        proof {
            let tail = le_bytes((rest / 256) as nat, (8 - i - 1) as nat);
            assert(bytes@.subrange(0, i + 1) + tail =~= before.subrange(0, i as int) + (seq![
                (rest % 256) as u8,
            ] + tail));
        }
        rest = rest / 256;
        i += 1;
    }
    proof {
        assert(bytes@.subrange(0, 8) =~= le_bytes(value as nat, 8));
        assert(bytes@ =~= u64_chunk(value));
    }
    Hash256(bytes)
}

/// The chunk of a 4-byte version: its bytes, then zeros.
pub fn encode_bytes4(version: &[u8; 4]) -> (chunk: Hash256)
    ensures
        chunk@ == zero_padded(version@),
{
    let mut bytes: [u8; 32] = [0u8; 32];
    bytes[0] = version[0];
    bytes[1] = version[1];
    bytes[2] = version[2];
    bytes[3] = version[3];
    assert(bytes@ =~= zero_padded(version@));
    Hash256(bytes)
}

/// Cuts `data` into chunks, the last one filled up with zeros.
pub fn pack_bytes(data: &[u8]) -> (chunks: Vec<Hash256>)
    ensures
        node_views(chunks@) == packed_chunks(data@),
{
    let len: usize = data.len();
    let count: usize = len / 32 + if len % 32 == 0 {
        0
    } else {
        1
    };
    let mut chunks: Vec<Hash256> = Vec::new();
    let mut c: usize = 0;
    while c < count
        invariant
            len == data@.len(),
            count == chunk_count(len as nat),
            c <= count,
            chunks@.len() == c,
            forall|k: int| 0 <= k < c ==> (#[trigger] chunks@[k])@ == chunk_at(data@, k),
        decreases count - c,
    {
        let base: usize = c * 32;
        let mut bytes: [u8; 32] = [0u8; 32];
        let mut j: usize = 0;
        while j < 32 && j < len - base
            invariant
                len == data@.len(),
                base == c * 32,
                base < len,
                j <= 32,
                j <= len - base,
                forall|t: int| 0 <= t < j ==> bytes@[t] == data@[base + t],
                forall|t: int| j <= t < 32 ==> bytes@[t] == 0u8,
            decreases 32 - j,
        {
            bytes[j] = data[base + j];
            j += 1;
        }
        assert(bytes@ =~= chunk_at(data@, c as int));
        chunks.push(Hash256(bytes));
        c += 1;
    }
    assert(node_views(chunks@) =~= packed_chunks(data@));
    chunks
}

/// Checks that a field holds exactly `expected_len` bytes.
pub fn check_fixed_len(data: &[u8], expected_len: usize, field: SchemaField) -> (result: Result<
    (),
    SigningRootError,
>)
    ensures
        match result {
            Ok(_) => data@.len() == expected_len,
            Err(e) => fixed_len_violation(field, expected_len, data@.len()) == Some(e),
        },
{
    if data.len() != expected_len {
        return Err(
            SigningRootError::SchemaViolation { field, expected: expected_len, actual: data.len() },
        );
    }
    Ok(())
}

/// Checks that a list holds at most `capacity` bytes.
pub fn check_list_len(data: &[u8], capacity: usize, field: SchemaField) -> (result: Result<
    (),
    SigningRootError,
>)
    ensures
        match result {
            Ok(_) => data@.len() <= capacity,
            Err(e) => list_len_violation(field, capacity, data@.len()) == Some(e),
        },
{
    if data.len() > capacity {
        return Err(
            SigningRootError::SchemaViolation { field, expected: capacity, actual: data.len() },
        );
    }
    Ok(())
}

/// The chunks of a field that must hold exactly `expected_len` bytes.
pub fn encode_fixed_bytes(data: &[u8], expected_len: usize, field: SchemaField) -> (result: Result<
    Vec<Hash256>,
    SigningRootError,
>)
    ensures
        match result {
            Ok(chunks) => data@.len() == expected_len && node_views(chunks@) == packed_chunks(
                data@,
            ),
            Err(e) => fixed_len_violation(field, expected_len, data@.len()) == Some(e),
        },
{
    match check_fixed_len(data, expected_len, field) {
        Ok(_) => Ok(pack_bytes(data)),
        Err(e) => Err(e),
    }
}

/// The chunks of a list that may hold up to `capacity` bytes.
pub fn encode_byte_list(data: &[u8], capacity: usize, field: SchemaField) -> (result: Result<
    Vec<Hash256>,
    SigningRootError,
>)
    ensures
        match result {
            Ok(chunks) => data@.len() <= capacity && node_views(chunks@) == packed_chunks(data@),
            Err(e) => list_len_violation(field, capacity, data@.len()) == Some(e),
        },
{
    match check_list_len(data, capacity, field) {
        Ok(_) => Ok(pack_bytes(data)),
        Err(e) => Err(e),
    }
}

/// The position and the value of the highest bit set in `byte`.
fn find_top_bit(byte: u8) -> (found: (u8, u8))
    ensures
        found.0 == top_bit(byte),
        found.1 == top_bit_weight(byte),
{
    if byte >= 128 {
        (7, 128)
    } else if byte >= 64 {
        (6, 64)
    } else if byte >= 32 {
        (5, 32)
    } else if byte >= 16 {
        (4, 16)
    } else if byte >= 8 {
        (3, 8)
    } else if byte >= 4 {
        (2, 4)
    } else if byte >= 2 {
        (1, 2)
    } else {
        (0, 1)
    }
}

/// The number of bits in a serialized bit list that may hold up to
/// `capacity_bits` bits.
pub fn read_bitlist_len(serialized: &[u8], capacity_bits: usize, field: SchemaField) -> (result:
    Result<usize, SigningRootError>)
    ensures
        match result {
            Ok(bits) => bitlist_violation(field, capacity_bits, serialized@) is None
                && bitlist_bit_len(serialized@) == Some(bits as nat),
            Err(e) => bitlist_violation(field, capacity_bits, serialized@) == Some(e),
        },
{
    let len: usize = serialized.len();
    if len == 0 {
        return Err(SigningRootError::VectorConversionError);
    }
    let last: u8 = serialized[len - 1];
    if last == 0 {
        return Err(SigningRootError::VectorConversionError);
    }
    let (position, _) = find_top_bit(last);
    let wide: u128 = 8 * ((len - 1) as u128) + position as u128;
    if wide > capacity_bits as u128 {
        let actual: usize = if wide > usize::MAX as u128 {
            usize::MAX
        } else {
            wide as usize
        };
        return Err(SigningRootError::SchemaViolation { field, expected: capacity_bits, actual });
    }
    Ok(wide as usize)
}

/// Takes a serialized bit list apart: its bits, eight to a byte and without
/// the end marker, and their number.
pub fn decode_bitlist(serialized: &[u8], capacity_bits: usize, field: SchemaField) -> (result:
    Result<(Vec<u8>, usize), SigningRootError>)
    ensures
        match result {
            Ok((data, bits)) => bitlist_violation(field, capacity_bits, serialized@) is None
                && bitlist_bit_len(serialized@) == Some(bits as nat) && data@ == bitlist_data(
                serialized@,
            ),
            Err(e) => bitlist_violation(field, capacity_bits, serialized@) == Some(e),
        },
{
    let bits: usize = match read_bitlist_len(serialized, capacity_bits, field) {
        Ok(bits) => bits,
        Err(e) => {
            return Err(e);
        },
    };
    let len: usize = serialized.len();
    let last: u8 = serialized[len - 1];
    let (position, weight) = find_top_bit(last);
    let mut data: Vec<u8> = Vec::new();
    let mut i: usize = 0;
    while i < len - 1
        invariant
            len == serialized@.len(),
            len > 0,
            i <= len - 1,
            data@ == serialized@.subrange(0, i as int),
        decreases len - 1 - i,
    {
        data.push(serialized[i]);
        assert(data@ =~= serialized@.subrange(0, i + 1));
        i += 1;
    }
    assert(data@ =~= serialized@.drop_last());
    if position > 0 {
        data.push(last - weight);
    }
    Ok((data, bits))
}

} // verus!
