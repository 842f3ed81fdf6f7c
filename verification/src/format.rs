//! Mathematical model of the NFA0 container wire format.
//!
//! A container is a header followed by `entry_count` fixed-size index
//! records. All multi-byte integers are little-endian; the size and offset
//! fields of each record are XOR-masked with a repeating four-byte pattern,
//! and name bytes as well as payload bytes are XOR-masked with a single
//! format-constant byte.

use vstd::prelude::*;

verus! {

/// Bytes of the fixed header: magic, version, entry count, secondary constant.
pub const HEADER_LEN: usize = 16;

/// Bytes of one index record: checksum (8), size (4), offset (4),
/// reserved (4), name field (128).
pub const RECORD_LEN: usize = 148;

/// Bytes of the fixed-size obfuscated name field inside a record.
pub const NAME_FIELD_LEN: usize = 128;

/// UTF-16 code units held by a name field.
pub const NAME_UNITS: usize = 64;

/// Single-byte XOR mask applied to name bytes and payload bytes.
pub const BYTE_MASK: u8 = 0x08;

/// Repeating four-byte XOR mask applied to the size and offset fields.
pub const FIELD_MASK: u32 = 0x08080808;

/// The only version value the format accepts.
pub const SUPPORTED_VERSION: u32 = 1;

/// The fixed value the secondary header constant must hold.
pub const SECONDARY_CONSTANT: u32 = 1;

/// The little-endian 32-bit integer stored at byte offset `i`.
pub open spec fn le32_at(b: Seq<u8>, i: int) -> u32 {
    (b[i] as u32) | ((b[i + 1] as u32) << 8) | ((b[i + 2] as u32) << 16) | ((b[i + 3] as u32)
        << 24)
}

/// The buffer starts with the four magic bytes `NFA0`.
pub open spec fn magic_ok(b: Seq<u8>) -> bool {
    b.len() >= 4 && b[0] == 0x4eu8 && b[1] == 0x46u8 && b[2] == 0x41u8 && b[3] == 0x30u8
}

/// The header is present and all three fixed fields hold their required
/// values: magic, version, and the secondary constant.
pub open spec fn header_ok(b: Seq<u8>) -> bool {
    &&& b.len() >= HEADER_LEN
    &&& magic_ok(b)
    &&& le32_at(b, 4) == SUPPORTED_VERSION
    &&& le32_at(b, 12) == SECONDARY_CONSTANT
}

/// The entry count declared by the header.
pub open spec fn entry_count_of(b: Seq<u8>) -> u32 {
    le32_at(b, 8)
}

/// Byte offset of the start of index record `k`.
pub open spec fn rec_base(k: int) -> int {
    HEADER_LEN + k * RECORD_LEN
}

/// The whole parse succeeds: the header is valid and the buffer holds all
/// `entry_count` index records.
pub open spec fn parse_ok(b: Seq<u8>) -> bool {
    &&& header_ok(b)
    &&& b.len() >= HEADER_LEN + entry_count_of(b) * RECORD_LEN
}

/// The decrypted size field of record `k`.
pub open spec fn entry_size_of(b: Seq<u8>, k: int) -> u32 {
    le32_at(b, rec_base(k) + 8) ^ FIELD_MASK
}

/// The decrypted offset field of record `k`.
pub open spec fn entry_offset_of(b: Seq<u8>, k: int) -> u32 {
    le32_at(b, rec_base(k) + 12) ^ FIELD_MASK
}

/// UTF-16 code unit `i` of record `k`'s name field, after unmasking:
/// two masked bytes, little-endian.
pub open spec fn unit_at(b: Seq<u8>, k: int, i: int) -> u16 {
    (((b[rec_base(k) + 20 + 2 * i] ^ BYTE_MASK) as u16) | (((b[rec_base(k) + 20 + 2 * i + 1]
        ^ BYTE_MASK) as u16) << 8))
}

/// All 64 unmasked UTF-16 code units of record `k`'s name field.
pub open spec fn name_units(b: Seq<u8>, k: int) -> Seq<u16> {
    Seq::new(NAME_UNITS as nat, |i: int| unit_at(b, k, i))
}

/// Number of code units before the first 16-bit NUL terminator, or the whole
/// length when no terminator occurs.
pub open spec fn term_len(u: Seq<u16>) -> nat
    decreases u.len(),
{
    if u.len() == 0 {
        0
    } else if u[0] == 0 {
        0
    } else {
        1 + term_len(u.drop_first())
    }
}

/// Path normalization on one code unit: backslash becomes forward slash.
pub open spec fn norm_unit(x: u16) -> u16 {
    if x == 0x5cu16 {
        0x2fu16
    } else {
        x
    }
}

/// The code units of record `k`'s name as the decoder keeps them: unmasked,
/// cut at the first NUL terminator, separators normalized.
pub open spec fn entry_name_units(b: Seq<u8>, k: int) -> Seq<u16> {
    let u = name_units(b, k);
    Seq::new(term_len(u), |i: int| norm_unit(u[i]))
}

/// Byte-wise XOR with the single-byte format mask; both the encryption and
/// the decryption of name fields and payloads.
pub open spec fn xor_mask(s: Seq<u8>) -> Seq<u8> {
    Seq::new(s.len(), |i: int| s[i] ^ BYTE_MASK)
}

/// Law: the terminator scan never runs past the name field. Its result stays
/// within bounds, every unit it keeps is non-NUL, and when it stops short of
/// the end it stops exactly on a NUL unit; a field with no NUL terminator is
/// kept whole.
pub proof fn lemma_terminator(u: Seq<u16>)
    ensures
        term_len(u) <= u.len(),
        term_len(u) < u.len() ==> u[term_len(u) as int] == 0,
        forall|j: int| 0 <= j < term_len(u) ==> u[j] != 0,
    decreases u.len(),
{
    if u.len() == 0 {
    } else if u[0] == 0 {
    } else {
        lemma_terminator(u.drop_first());
        assert forall|j: int| 0 <= j < term_len(u) implies u[j] != 0 by {
            if j > 0 {
                assert(u.drop_first()[j - 1] == u[j]);
                assert(0 <= j - 1 < term_len(u.drop_first()));
            }
        }
    }
}

/// A scan that stopped at position `t` with only non-NUL units behind it and
/// a NUL (or the end) ahead found exactly the terminator length.
pub proof fn lemma_term_len_of(u: Seq<u16>, t: int)
    requires
        0 <= t <= u.len(),
        forall|j: int| 0 <= j < t ==> u[j] != 0,
        t < u.len() ==> u[t] == 0,
    ensures
        term_len(u) == t,
    decreases t,
{
    if t == 0 {
    } else {
        assert(u[0] != 0);
        assert forall|j: int| 0 <= j < t - 1 implies u.drop_first()[j] != 0 by {
            assert(u.drop_first()[j] == u[j + 1]);
        }
        assert(t - 1 < u.drop_first().len() ==> u.drop_first()[t - 1] == u[t]);
        lemma_term_len_of(u.drop_first(), t - 1);
    }
}

/// Law: XOR-masking with the single-byte format constant is an involution,
/// so a payload or name field encrypted with the documented mask decrypts to
/// the original plaintext.
pub proof fn lemma_xor_mask_involutive(s: Seq<u8>)
    ensures
        xor_mask(xor_mask(s)) == s,
{
    assert forall|i: int| 0 <= i < s.len() implies xor_mask(xor_mask(s))[i] == s[i] by {
        let x = s[i];
        assert((x ^ 0x08u8) ^ 0x08u8 == x) by (bit_vector);
    }
    assert(xor_mask(xor_mask(s)) =~= s);
}

/// Law: XOR-masking a 32-bit field with the repeating four-byte pattern is an
/// involution, so a size or offset encrypted with the documented mask
/// decrypts to the original value.
pub proof fn lemma_field_mask_involutive(x: u32)
    ensures
        (x ^ FIELD_MASK) ^ FIELD_MASK == x,
{
    assert((x ^ 0x08080808u32) ^ 0x08080808u32 == x) by (bit_vector);
}

/// Law: storing each UTF-16 code unit of a plaintext name as two masked
/// little-endian bytes in record `k`'s name field is undone exactly by the
/// decoder's unmasking.
pub proof fn lemma_name_units_round_trip(b: Seq<u8>, k: int, w: Seq<u16>)
    requires
        w.len() == NAME_UNITS,
        0 <= k,
        rec_base(k) + RECORD_LEN <= b.len(),
        forall|i: int|
            0 <= i < NAME_UNITS ==> b[rec_base(k) + 20 + 2 * i] == ((#[trigger] w[i]) as u8)
                ^ BYTE_MASK && b[rec_base(k) + 20 + 2 * i + 1] == ((w[i] >> 8) as u8) ^ BYTE_MASK,
    ensures
        name_units(b, k) == w,
{
    assert forall|i: int| 0 <= i < NAME_UNITS implies name_units(b, k)[i] == w[i] by {
        let u = w[i];
        let b0 = b[rec_base(k) + 20 + 2 * i];
        let b1 = b[rec_base(k) + 20 + 2 * i + 1];
        assert((((((u as u8) ^ 0x08u8) ^ 0x08u8) as u16) | ((((((u >> 8) as u8) ^ 0x08u8)
            ^ 0x08u8) as u16) << 8)) == u) by (bit_vector);
    }
    assert(name_units(b, k) =~= w);
}

/// Reads the little-endian 32-bit integer at byte offset `i`.
pub fn read_le32(b: &[u8], i: usize) -> (r: u32)
    requires
        i + 4 <= b@.len(),
    ensures
        r == le32_at(b@, i as int),
{
    (b[i] as u32) | ((b[i + 1] as u32) << 8) | ((b[i + 2] as u32) << 16) | ((b[i + 3] as u32)
        << 24)
}

} // verus!
