//! Byte layout of persisted tables: a flat sequence of big-endian 16-bit
//! strengths. Decoding a table's byte image yields the table itself, so a
//! persisted table reproduces the evaluator that generated it.

use vstd::prelude::*;

use crate::tables::TableError;

verus! {

/// The big-endian byte image of the first `n` entries.
pub open spec fn be_bytes(entries: Seq<u16>, n: nat) -> Seq<u8>
    decreases n,
{
    if n == 0 {
        Seq::empty()
    } else {
        be_bytes(entries, (n - 1) as nat).push((entries[n - 1] >> 8) as u8).push(
            (entries[n - 1] & 0xff) as u8,
        )
    }
}

/// The first `n` entries read back from a big-endian byte image.
pub open spec fn be_entries(bytes: Seq<u8>, n: nat) -> Seq<u16>
    decreases n,
{
    if n == 0 {
        Seq::empty()
    } else {
        be_entries(bytes, (n - 1) as nat).push(
            (bytes[2 * n - 2] as u16) << 8 | (bytes[2 * n - 1] as u16),
        )
    }
}

/// The image of `n` entries holds `2 * n` bytes.
pub proof fn lemma_be_bytes_len(entries: Seq<u16>, n: nat)
    ensures
        be_bytes(entries, n).len() == 2 * n,
    decreases n,
{
    if n > 0 {
        lemma_be_bytes_len(entries, (n - 1) as nat);
    }
}

/// Reading entries looks only at the bytes below `2 * n`.
proof fn lemma_be_entries_agree(b1: Seq<u8>, b2: Seq<u8>, n: nat)
    requires
        2 * n <= b1.len(),
        2 * n <= b2.len(),
        forall|i: int| 0 <= i < 2 * n ==> b1[i] == b2[i],
    ensures
        be_entries(b1, n) == be_entries(b2, n),
    decreases n,
{
    if n > 0 {
        lemma_be_entries_agree(b1, b2, (n - 1) as nat);
    }
}

/// Round trip of the byte layout: decoding the image of a table gives back
/// the table, entry for entry. With the image's length this pins the bytes
/// of a table and the table of its bytes to each other.
pub proof fn lemma_codec_roundtrip(entries: Seq<u16>, n: nat)
    requires
        n <= entries.len(),
    ensures
        be_bytes(entries, n).len() == 2 * n,
        be_entries(be_bytes(entries, n), n) == entries.subrange(0, n as int),
    decreases n,
{
    lemma_be_bytes_len(entries, n);
    if n > 0 {
        lemma_codec_roundtrip(entries, (n - 1) as nat);
        let prev = be_bytes(entries, (n - 1) as nat);
        let cur = be_bytes(entries, n);
        lemma_be_bytes_len(entries, (n - 1) as nat);
        assert(forall|i: int| 0 <= i < prev.len() ==> cur[i] == prev[i]);
        lemma_be_entries_agree(prev, cur, (n - 1) as nat);
        let e = entries[n - 1];
        assert((((e >> 8) as u8) as u16) << 8 | (((e & 0xff) as u8) as u16) == e) by (bit_vector);
        assert(be_entries(cur, n) =~= entries.subrange(0, n as int));
    } else {
        assert(be_entries(be_bytes(entries, 0), 0) =~= entries.subrange(0, 0));
    }
}

/// Two tables with the same byte image are the same table: a regenerated
/// table is byte-identical to the persisted one exactly when it repeats the
/// persisted entries.
pub proof fn lemma_encoding_determines_table(t1: Seq<u16>, t2: Seq<u16>)
    requires
        be_bytes(t1, t1.len()) == be_bytes(t2, t2.len()),
    ensures
        t1 == t2,
{
    lemma_be_bytes_len(t1, t1.len());
    lemma_be_bytes_len(t2, t2.len());
    lemma_codec_roundtrip(t1, t1.len());
    lemma_codec_roundtrip(t2, t2.len());
    assert(t1 =~= t1.subrange(0, t1.len() as int));
    assert(t2 =~= t2.subrange(0, t2.len() as int));
}

/// Encodes a table as its big-endian byte image.
pub fn encode_table(entries: &Vec<u16>) -> (bytes: Vec<u8>)
    ensures
        bytes@ == be_bytes(entries@, entries@.len()),
{
    let mut bytes: Vec<u8> = Vec::new();
    let n = entries.len();
    for i in 0..n
        invariant
            n == entries@.len(),
            bytes@ == be_bytes(entries@, i as nat),
    {
        let e = entries[i];
        bytes.push((e >> 8) as u8);
        bytes.push((e & 0xff) as u8);
    }
    bytes
}

/// Decodes a big-endian byte image back into a table; an odd number of bytes
/// marks a truncated image and is refused.
pub fn decode_table(bytes: &Vec<u8>) -> (r: Result<Vec<u16>, TableError>)
    ensures
        (r is Ok) <==> bytes@.len() % 2 == 0,
        r matches Ok(t) ==> t@ == be_entries(bytes@, (bytes@.len() / 2) as nat),
        r is Err ==> r == Err::<Vec<u16>, TableError>(TableError::OddByteLength),
{
    if bytes.len() % 2 != 0 {
        return Err(TableError::OddByteLength);
    }
    let len = bytes.len();
    let n = len / 2;
    let mut entries: Vec<u16> = Vec::new();
    for i in 0..n
        invariant
            len == bytes@.len(),
            n == bytes@.len() / 2,
            bytes@.len() % 2 == 0,
            2 * n == len,
            entries@ == be_entries(bytes@, i as nat),
    {
        let hi = bytes[2 * i];
        let lo = bytes[2 * i + 1];
        entries.push((hi as u16) << 8 | (lo as u16));
    }
    Ok(entries)
}

} // verus!
