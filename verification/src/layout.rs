//! Sizes and offsets of the snapshot layout, and the arithmetic that splits a
//! logical address into a page-table slot and an offset inside a bank.

use vstd::prelude::*;

verus! {

/// Bytes in one bank of RAM (16 KiB).
pub const BANK_SIZE: usize = 0x4000;

/// Bytes taken by the register block at the start of a snapshot.
pub const HEADER_SIZE: usize = 27;

/// Bytes in the record that the larger format stores after the first 48 KiB.
pub const EXTENSION_SIZE: usize = 4;

/// Length of a snapshot in the smaller format: the registers and three banks.
pub const SMALLER_LEN: usize = HEADER_SIZE + 3 * BANK_SIZE;

/// Offset of the first bank that follows the extension record.
pub const SPARE_BANKS_OFFSET: usize = SMALLER_LEN + EXTENSION_SIZE;

/// Number of slots in the page table.
pub const SLOTS: usize = 3;

/// Number of banks of a snapshot in the smaller format.
pub const SMALLER_BANKS: usize = 3;

/// Number of banks of a snapshot in the larger format.
pub const LARGER_BANKS: usize = 8;

/// The lowest logical address that is backed by RAM.
pub const RAM_BASE: u16 = 0x4000;

/// The value read from an address below `RAM_BASE`.
pub const UNMAPPED_BYTE: u8 = 0xFF;

/// The last offset of a bank, where a 16-bit bank access may cross into the
/// next bank.
pub const LAST_OFFSET: u16 = 0x3FFF;

/// The page-table slot that serves a logical address: slot 0 for
/// 0x4000..=0x7FFF, slot 1 for 0x8000..=0xBFFF, slot 2 for 0xC000..=0xFFFF.
/// Addresses below `RAM_BASE` have no slot (the result is -1).
pub open spec fn page_slot(address: u16) -> int {
    address as int / 0x4000 - 1
}

/// The offset inside its bank at which an address lies. Bank-relative
/// accesses reduce their address in the same way.
pub open spec fn bank_offset(address: u16) -> int {
    address as int % 0x4000
}

/// The bank that a paging-control value selects for slot 2: its low three bits.
pub open spec fn selected_bank(control: u8) -> int {
    control as int % 8
}

/// The 16-bit value whose little-endian encoding is `lo`, `hi`.
pub open spec fn le16(lo: u8, hi: u8) -> u16 {
    (lo as int + 256 * (hi as int)) as u16
}

/// The low byte of a 16-bit value.
pub open spec fn low_byte(value: u16) -> u8 {
    (value as int % 256) as u8
}

/// The high byte of a 16-bit value.
pub open spec fn high_byte(value: u16) -> u8 {
    (value as int / 256) as u8
}

/// The slot and the offset of an address are its top two bits, less one, and
/// its low fourteen bits.
pub proof fn lemma_address_bits(address: u16)
    ensures
        ((address >> 14) & 0x03) as int == address as int / 0x4000,
        (address & 0x3FFF) as int == bank_offset(address),
        address >= RAM_BASE ==> 0 <= page_slot(address) < SLOTS,
        0 <= bank_offset(address) < BANK_SIZE,
{
    assert(((address >> 14) & 0x03) == address / 0x4000) by (bit_vector);
    assert((address & 0x3FFF) == address % 0x4000) by (bit_vector);
}

/// The bank that a paging-control value selects is given by masking the
/// value with 7, and is one of the eight banks.
pub proof fn lemma_selected_bank_bits(control: u8)
    ensures
        (control & 0x07) as int == selected_bank(control),
        0 <= selected_bank(control) < LARGER_BANKS,
{
    assert((control & 0x07) == control % 8) by (bit_vector);
}

/// Splitting a 16-bit value into its bytes and joining them again gives the
/// value back, and the bytes of a joined pair are the pair.
pub proof fn lemma_le16_bytes(value: u16, lo: u8, hi: u8)
    ensures
        le16(low_byte(value), high_byte(value)) == value,
        low_byte(le16(lo, hi)) == lo,
        high_byte(le16(lo, hi)) == hi,
        le16(lo, hi) as int == lo as int + 256 * (hi as int),
{
}

/// The shifts and masks that compute the bytes of a 16-bit value and join
/// two bytes agree with `low_byte`, `high_byte` and `le16`.
pub proof fn lemma_le16_bits(value: u16, lo: u8, hi: u8)
    ensures
        ((value & 0xFF) as u8) == low_byte(value),
        (((value >> 8) & 0xFF) as u8) == high_byte(value),
        ((lo as u16) | ((hi as u16) << 8)) == le16(lo, hi),
{
    assert((value & 0xFF) as u8 == (value % 256) as u8) by (bit_vector);
    assert(((value >> 8) & 0xFF) as u8 == (value / 256) as u8) by (bit_vector);
    assert(((lo as u16) | ((hi as u16) << 8)) == (lo as u16) + 256 * (hi as u16)) by (bit_vector);
}

} // verus!
