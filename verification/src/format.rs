//! Specification of the packed blob container format.
//!
//! A blob holds a 4-byte little-endian entry count `n`, then `n` pairs of
//! 4-byte little-endian (name length, payload length) values, then the `n`
//! names concatenated in index order, then the `n` payloads concatenated in
//! index order.

use vstd::prelude::*;

verus! {

/// The unsigned 32-bit little-endian integer stored at offset `off`.
pub open spec fn le32_at(d: Seq<u8>, off: int) -> nat {
    d[off] as nat + 0x100 * (d[off + 1] as nat) + 0x1_0000 * (d[off + 2] as nat) + 0x100_0000
        * (d[off + 3] as nat)
}

/// The declared number of entries.
pub open spec fn entry_count(d: Seq<u8>) -> nat {
    le32_at(d, 0)
}

/// The declared length of entry `i`'s name.
pub open spec fn name_len_of(d: Seq<u8>, i: int) -> nat {
    le32_at(d, 4 + 8 * i)
}

/// The declared length of entry `i`'s payload.
pub open spec fn payload_len_of(d: Seq<u8>, i: int) -> nat {
    le32_at(d, 8 + 8 * i)
}

/// Total length of the names of entries `0 .. i`.
pub open spec fn names_total(d: Seq<u8>, i: int) -> nat
    decreases i,
{
    if i <= 0 {
        0
    } else {
        names_total(d, i - 1) + name_len_of(d, i - 1)
    }
}

/// Total length of the payloads of entries `0 .. i`.
pub open spec fn payloads_total(d: Seq<u8>, i: int) -> nat
    decreases i,
{
    if i <= 0 {
        0
    } else {
        payloads_total(d, i - 1) + payload_len_of(d, i - 1)
    }
}

/// First offset past the fixed-size index; the names region starts here.
pub open spec fn index_end(d: Seq<u8>) -> nat {
    4 + 8 * entry_count(d)
}

/// Offset of entry `i`'s name.
pub open spec fn name_start_of(d: Seq<u8>, i: int) -> nat {
    index_end(d) + names_total(d, i)
}

/// Offset of the payload region, immediately after all names.
pub open spec fn payload_region_start(d: Seq<u8>) -> nat {
    index_end(d) + names_total(d, entry_count(d) as int)
}

/// Offset of entry `i`'s payload.
pub open spec fn payload_start_of(d: Seq<u8>, i: int) -> nat {
    payload_region_start(d) + payloads_total(d, i)
}

/// A blob is well formed when the count can be read and every region the
/// index describes lies within the buffer.
pub open spec fn blob_well_formed(d: Seq<u8>) -> bool {
    &&& d.len() >= 4
    &&& index_end(d) <= d.len()
    &&& payload_region_start(d) + payloads_total(d, entry_count(d) as int) <= d.len()
}

/// Entry `i`'s name, as the bytes the index points at.
pub open spec fn entry_name(d: Seq<u8>, i: int) -> Seq<u8> {
    d.subrange(name_start_of(d, i) as int, (name_start_of(d, i) + name_len_of(d, i)) as int)
}

/// Entry `i`'s payload, as the bytes the index points at.
pub open spec fn entry_payload(d: Seq<u8>, i: int) -> Seq<u8> {
    d.subrange(payload_start_of(d, i) as int, (payload_start_of(d, i) + payload_len_of(d, i)) as int)
}

/// The mapping described by entries `0 .. i`, later entries overwriting
/// earlier ones of the same name.
pub open spec fn table_prefix(d: Seq<u8>, i: int) -> Map<Seq<u8>, Seq<u8>>
    decreases i,
{
    if i <= 0 {
        Map::empty()
    } else {
        table_prefix(d, i - 1).insert(entry_name(d, i - 1), entry_payload(d, i - 1))
    }
}

/// The full name-to-payload mapping a blob describes.
pub open spec fn blob_table(d: Seq<u8>) -> Map<Seq<u8>, Seq<u8>> {
    table_prefix(d, entry_count(d) as int)
}

/// The names region never shrinks as more entries are counted.
pub proof fn lemma_names_total_mono(d: Seq<u8>, i: int, j: int)
    requires
        0 <= i <= j,
    ensures
        names_total(d, i) <= names_total(d, j),
    decreases j,
{
    if i < j {
        lemma_names_total_mono(d, i, j - 1);
    }
}

/// The payloads region never shrinks as more entries are counted.
pub proof fn lemma_payloads_total_mono(d: Seq<u8>, i: int, j: int)
    requires
        0 <= i <= j,
    ensures
        payloads_total(d, i) <= payloads_total(d, j),
    decreases j,
{
    if i < j {
        lemma_payloads_total_mono(d, i, j - 1);
    }
}

/// Reads the unsigned 32-bit little-endian integer at offset `off`.
pub fn read_le32(d: &Vec<u8>, off: usize) -> (r: u32)
    requires
        off + 4 <= d.len(),
    ensures
        r as nat == le32_at(d@, off as int),
{
    let b0 = d[off] as u32;
    let b1 = d[off + 1] as u32;
    let b2 = d[off + 2] as u32;
    let b3 = d[off + 3] as u32;
    b0 + 0x100 * b1 + 0x1_0000 * b2 + 0x100_0000 * b3
}

} // verus!
