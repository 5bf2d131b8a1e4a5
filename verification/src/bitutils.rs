//! Bit-field primitives on 64-bit words.

use vstd::prelude::*;

verus! {

/// The word whose low `width` bits are set; all 64 for `width >= 64`.
pub open spec fn low_mask(width: u64) -> u64 {
    if width >= 64 {
        0xffff_ffff_ffff_ffffu64
    } else {
        !(0xffff_ffff_ffff_ffffu64 << width)
    }
}

/// `value` with every bit above bit `width - 1` cleared.
pub open spec fn spec_mask_length(value: u64, width: u64) -> u64 {
    value & low_mask(width)
}

/// The `width` bits of `value` from bit `offset` up, shifted down to bit 0.
pub open spec fn spec_field_at(value: u64, offset: u64, width: u64) -> u64 {
    (value >> offset) & low_mask(width)
}

/// Bits `lo..=hi` of `value`, shifted down to bit 0.
pub open spec fn spec_extract_bits(value: u64, lo: u64, hi: u64) -> u64 {
    spec_field_at(value, lo, (hi - lo + 1) as u64)
}

/// Whether `value` has no bit set at or above bit `offset`.
pub open spec fn fits_below(value: u64, offset: u64) -> bool {
    offset >= 64 || value >> offset == 0
}

/// Keeps the low `width` bits of `value` and clears the rest.
pub fn mask_length(value: u64, width: u32) -> (masked: u64)
    ensures
        masked == spec_mask_length(value, width as u64),
{
    if width >= 64 {
        assert(value & 0xffff_ffff_ffff_ffffu64 == value) by (bit_vector);
        value
    } else {
        value & !(u64::MAX << width)
    }
}

/// Extracts the inclusive bit range `lo..=hi` of `value`.
pub fn extract_bits(value: u64, lo: u32, hi: u32) -> (field: u64)
    requires
        lo <= hi < 64,
    ensures
        field == spec_extract_bits(value, lo as u64, hi as u64),
{
    let width: u32 = hi - lo + 1;
    mask_length(value >> lo, width)
}

/// Or-ing a masked field in at `offset` keeps the word below the end of
/// that field.
pub proof fn lemma_or_field_fits(acc: u64, offset: u64, value: u64, width: u64)
    by (bit_vector)
    requires
        offset < 64,
        width <= 64 - offset,
        fits_below(acc, offset),
    ensures
        fits_below(acc | ((value & low_mask(width)) << offset), (offset + width) as u64),
{
}

/// Where the low `offset + width` bits of `word` are `acc` with a masked
/// field or-ed in at `offset`, the field reads back and the bits below it
/// are those of `acc`.
pub proof fn lemma_or_field_reads_back(acc: u64, offset: u64, value: u64, width: u64, word: u64)
    by (bit_vector)
    requires
        offset < 64,
        width <= 64 - offset,
        fits_below(acc, offset),
        word & low_mask((offset + width) as u64) == acc | ((value & low_mask(width)) << offset),
    ensures
        word & low_mask(offset) == acc,
        spec_field_at(word, offset, width) == value & low_mask(width),
{
}

/// A word that fits below `offset` is its own low `offset` bits.
pub proof fn lemma_fits_below_masked(acc: u64, offset: u64)
    by (bit_vector)
    requires
        fits_below(acc, offset),
    ensures
        acc & low_mask(offset) == acc,
{
}

/// A field that lies below `limit` is read from the low `limit` bits alone.
pub proof fn lemma_field_of_low_bits(word: u64, limit: u64, offset: u64, width: u64)
    by (bit_vector)
    requires
        offset < 64,
        width <= 64 - offset,
        offset + width <= limit,
    ensures
        spec_field_at(word & low_mask(limit), offset, width) == spec_field_at(word, offset, width),
{
}

/// Masking to one of the widths that the headers use keeps a value that
/// fits that width.
pub proof fn lemma_mask_length_fits(value: u64, width: u64)
    by (bit_vector)
    requires
        width == 4 && value < 0x10 || width == 8 && value < 0x100 || width == 12 && value < 0x1000
            || width == 15 && value < 0x8000 || width == 16 && value < 0x1_0000 || width == 32
            && value < 0x1_0000_0000 || width == 40 && value < 0x100_0000_0000 || width == 1
            && value < 2,
    ensures
        spec_mask_length(value, width) == value,
{
}

} // verus!
