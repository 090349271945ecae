//! The stored form of a slot key.
//!
//! A slot is stored as its 8 bytes, most significant first, so that the
//! bytewise order of stored keys is the numeric order of the slots: a store
//! that walks its keys in bytewise order walks the slots in ascending order.

use vstd::bytes::{
    lemma_auto_spec_u64_to_from_le_bytes, spec_u64_from_le_bytes, spec_u64_to_le_bytes,
    spec_u64_to_le_bytes_to_open, u64_from_le_bytes, u64_to_le_bytes,
};
use vstd::prelude::*;

verus! {

/// The stored form of `slot`: its 8 bytes, most significant first.
pub open spec fn key_bytes(slot: u64) -> Seq<u8> {
    spec_u64_to_le_bytes(slot).reverse()
}

/// The slot that `bytes` is the stored form of, if it is one.
pub open spec fn key_slot(bytes: Seq<u8>) -> Option<u64> {
    if bytes.len() == 8 {
        Some(spec_u64_from_le_bytes(bytes.reverse()))
    } else {
        None
    }
}

/// Whether `a` comes before `b` bytewise, looking from position `from` on:
/// the first byte that differs decides, and a proper prefix comes first.
pub open spec fn before_from(a: Seq<u8>, b: Seq<u8>, from: int) -> bool
    decreases b.len() - from,
{
    if from < 0 || from >= b.len() {
        false
    } else if from >= a.len() {
        true
    } else if a[from] != b[from] {
        a[from] < b[from]
    } else {
        before_from(a, b, from + 1)
    }
}

/// Whether `a` comes before `b` in bytewise order.
pub open spec fn bytes_before(a: Seq<u8>, b: Seq<u8>) -> bool {
    before_from(a, b, 0)
}

/// Encodes a slot as a stored key.
pub fn encode_key(slot: u64) -> (bytes: Vec<u8>)
    ensures
        bytes@ == key_bytes(slot),
{
    let low_first = u64_to_le_bytes(slot);
    let mut bytes: Vec<u8> = Vec::new();
    let mut i: usize = 0;
    while i < 8
        invariant
            i <= 8,
            low_first@.len() == 8,
            bytes@.len() == i,
            forall|k: int| 0 <= k < i ==> bytes@[k] == low_first@[7 - k],
        decreases 8 - i,
    {
        bytes.push(low_first[7 - i]);
        i += 1;
    }
    assert(bytes@ =~= low_first@.reverse());
    bytes
}

/// Decodes a stored key: `None` where `bytes` is not 8 bytes long.
pub fn decode_key(bytes: &[u8]) -> (slot: Option<u64>)
    ensures
        slot == key_slot(bytes@),
{
    if bytes.len() != 8 {
        return None;
    }
    let mut low_first: Vec<u8> = Vec::new();
    let mut i: usize = 0;
    while i < 8
        invariant
            i <= 8,
            bytes@.len() == 8,
            low_first@.len() == i,
            forall|k: int| 0 <= k < i ==> low_first@[k] == bytes@[7 - k],
        decreases 8 - i,
    {
        low_first.push(bytes[7 - i]);
        i += 1;
    }
    assert(low_first@ =~= bytes@.reverse());
    Some(u64_from_le_bytes(low_first.as_slice()))
}

/// Decoding the stored form of a slot gives the slot back.
pub proof fn lemma_key_round_trip(slot: u64)
    ensures
        key_bytes(slot).len() == 8,
        key_slot(key_bytes(slot)) == Some(slot),
{
    lemma_auto_spec_u64_to_from_le_bytes();
    let low_first = spec_u64_to_le_bytes(slot);
    assert(low_first.reverse().reverse() =~= low_first);
}

/// Whatever decodes as a key is the stored form of its slot: a slot has one
/// stored form only.
pub proof fn lemma_key_bytes_unique(bytes: Seq<u8>)
    requires
        key_slot(bytes) is Some,
    ensures
        key_bytes(key_slot(bytes)->Some_0) == bytes,
{
    lemma_auto_spec_u64_to_from_le_bytes();
    let low_first = bytes.reverse();
    assert(spec_u64_to_le_bytes(spec_u64_from_le_bytes(low_first)) == low_first);
    assert(low_first.reverse() =~= bytes);
}

/// Stored keys are ordered bytewise as their slots are ordered numerically.
pub proof fn lemma_key_order(a: u64, b: u64)
    ensures
        bytes_before(key_bytes(a), key_bytes(b)) <==> a < b,
{
    spec_u64_to_le_bytes_to_open(a);
    spec_u64_to_le_bytes_to_open(b);
    let ka = key_bytes(a);
    let kb = key_bytes(b);
    let a0 = (a >> 56) & 0xff;
    let a1 = (a >> 48) & 0xff;
    let a2 = (a >> 40) & 0xff;
    let a3 = (a >> 32) & 0xff;
    let a4 = (a >> 24) & 0xff;
    let a5 = (a >> 16) & 0xff;
    let a6 = (a >> 8) & 0xff;
    let a7 = a & 0xff;
    let b0 = (b >> 56) & 0xff;
    let b1 = (b >> 48) & 0xff;
    let b2 = (b >> 40) & 0xff;
    let b3 = (b >> 32) & 0xff;
    let b4 = (b >> 24) & 0xff;
    let b5 = (b >> 16) & 0xff;
    let b6 = (b >> 8) & 0xff;
    let b7 = b & 0xff;
    assert(a0 < 256 && a1 < 256 && a2 < 256 && a3 < 256 && a4 < 256 && a5 < 256 && a6 < 256 && a7
        < 256) by (bit_vector)
        requires
            a0 == (a >> 56) & 0xff,
            a1 == (a >> 48) & 0xff,
            a2 == (a >> 40) & 0xff,
            a3 == (a >> 32) & 0xff,
            a4 == (a >> 24) & 0xff,
            a5 == (a >> 16) & 0xff,
            a6 == (a >> 8) & 0xff,
            a7 == a & 0xff,
    ;
    assert(b0 < 256 && b1 < 256 && b2 < 256 && b3 < 256 && b4 < 256 && b5 < 256 && b6 < 256 && b7
        < 256) by (bit_vector)
        requires
            b0 == (b >> 56) & 0xff,
            b1 == (b >> 48) & 0xff,
            b2 == (b >> 40) & 0xff,
            b3 == (b >> 32) & 0xff,
            b4 == (b >> 24) & 0xff,
            b5 == (b >> 16) & 0xff,
            b6 == (b >> 8) & 0xff,
            b7 == b & 0xff,
    ;
    assert(ka.len() == 8 && kb.len() == 8);
    assert(ka[0] == a0 && ka[1] == a1 && ka[2] == a2 && ka[3] == a3);
    assert(ka[4] == a4 && ka[5] == a5 && ka[6] == a6 && ka[7] == a7);
    assert(kb[0] == b0 && kb[1] == b1 && kb[2] == b2 && kb[3] == b3);
    assert(kb[4] == b4 && kb[5] == b5 && kb[6] == b6 && kb[7] == b7);
    let by_bytes = if a0 != b0 {
        a0 < b0
    } else if a1 != b1 {
        a1 < b1
    } else if a2 != b2 {
        a2 < b2
    } else if a3 != b3 {
        a3 < b3
    } else if a4 != b4 {
        a4 < b4
    } else if a5 != b5 {
        a5 < b5
    } else if a6 != b6 {
        a6 < b6
    } else {
        a7 < b7
    };
    assert(by_bytes == (a < b)) by (bit_vector)
        requires
            a0 == (a >> 56) & 0xff,
            a1 == (a >> 48) & 0xff,
            a2 == (a >> 40) & 0xff,
            a3 == (a >> 32) & 0xff,
            a4 == (a >> 24) & 0xff,
            a5 == (a >> 16) & 0xff,
            a6 == (a >> 8) & 0xff,
            a7 == a & 0xff,
            b0 == (b >> 56) & 0xff,
            b1 == (b >> 48) & 0xff,
            b2 == (b >> 40) & 0xff,
            b3 == (b >> 32) & 0xff,
            b4 == (b >> 24) & 0xff,
            b5 == (b >> 16) & 0xff,
            b6 == (b >> 8) & 0xff,
            b7 == b & 0xff,
            by_bytes == (if a0 != b0 {
                a0 < b0
            } else if a1 != b1 {
                a1 < b1
            } else if a2 != b2 {
                a2 < b2
            } else if a3 != b3 {
                a3 < b3
            } else if a4 != b4 {
                a4 < b4
            } else if a5 != b5 {
                a5 < b5
            } else if a6 != b6 {
                a6 < b6
            } else {
                a7 < b7
            }),
    ;
    reveal_with_fuel(before_from, 9);
    assert(bytes_before(ka, kb) == by_bytes);
}

} // verus!
