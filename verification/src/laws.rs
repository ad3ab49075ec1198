//! What holds of every snapshot: the laws that tie the decoder to the layout
//! of its input, and the logical view of the memory to the banks under it.
//!
//! The laws are stated over `SnapshotView` and the functions of its model,
//! which are the contracts of the operations on `Snapshot`. What is proved
//! here of `s.poke(..)`, say, therefore holds of a snapshot after `poke`.

use vstd::prelude::*;
use crate::decode::{
    chunk, decodable, decoded, is_larger, larger_bank_start, lemma_spare_below_monotonic,
    lemma_spare_count, spare_below,
};
use crate::layout::{
    bank_offset, high_byte, le16, lemma_le16_bytes, low_byte, page_slot, selected_bank,
    BANK_SIZE, HEADER_SIZE, LARGER_BANKS, LAST_OFFSET, RAM_BASE, SLOTS, SMALLER_BANKS,
    SMALLER_LEN, SPARE_BANKS_OFFSET,
};
use crate::memory::{next_offset, word_end_bank};
use crate::registers::{extension_of, header_of, SnapshotType};
use crate::snapshot::SnapshotView;

verus! {

/// The first address of the window that a page-table slot serves.
pub open spec fn window_base(slot: int) -> int {
    RAM_BASE + slot * BANK_SIZE
}

/// A decodable buffer decodes to a snapshot that meets the invariant.
pub proof fn lemma_decoded_well_formed(bytes: Seq<u8>)
    requires
        decodable(bytes),
    ensures
        decoded(bytes).well_formed(),
{
    if is_larger(bytes.len()) {
        assert forall|bank: int| 0 <= bank < LARGER_BANKS implies (#[trigger] decoded(
            bytes,
        ).banks[bank]).len() == BANK_SIZE by {
            lemma_larger_bank_in_buffer(bytes, bank);
        }
    }
}

/// In a decodable buffer of the larger format the contents of every bank lie
/// inside the buffer.
pub proof fn lemma_larger_bank_in_buffer(bytes: Seq<u8>, bank: int)
    requires
        decodable(bytes),
        is_larger(bytes.len()),
        0 <= bank < LARGER_BANKS,
    ensures
        HEADER_SIZE <= larger_bank_start(bank, selected_bank(extension_of(bytes).x7ffd)),
        larger_bank_start(bank, selected_bank(extension_of(bytes).x7ffd)) + BANK_SIZE
            <= bytes.len(),
{
    let paged = selected_bank(extension_of(bytes).x7ffd);
    lemma_spare_count(paged);
    lemma_spare_below_monotonic(0, bank, paged);
    lemma_spare_below_monotonic(bank + 1, LARGER_BANKS as int, paged);
    assert(spare_below(bank + 1, paged) >= spare_below(bank, paged));
}

/// A buffer of exactly `SMALLER_LEN` bytes is decodable, and decodes to the
/// smaller format: three banks under the page table [0, 1, 2], and no
/// extension. The banks hold the three chunks that follow the registers.
pub proof fn lemma_smaller_layout(bytes: Seq<u8>)
    requires
        bytes.len() == SMALLER_LEN,
    ensures
        decodable(bytes),
        decoded(bytes).snapshot_type == SnapshotType::Snapshot48,
        decoded(bytes).header == header_of(bytes),
        decoded(bytes).extension is None,
        decoded(bytes).banks.len() == SMALLER_BANKS,
        decoded(bytes).mapping == seq![0u8, 1u8, 2u8],
        forall|bank: int|
            0 <= bank < SMALLER_BANKS ==> #[trigger] decoded(bytes).banks[bank] == chunk(
                bytes,
                HEADER_SIZE + bank * BANK_SIZE,
            ),
{
}

/// No buffer shorter than `SMALLER_LEN` bytes is decodable.
pub proof fn lemma_short_buffer_refused(bytes: Seq<u8>)
    requires
        bytes.len() < SMALLER_LEN,
    ensures
        !decodable(bytes),
{
}

/// A decodable buffer of more than `SMALLER_LEN` bytes decodes to the larger
/// format: eight banks, the extension record, and the page table
/// [5, 2, control & 7], where `control` is the paging-control byte.
pub proof fn lemma_larger_layout(bytes: Seq<u8>)
    requires
        decodable(bytes),
        bytes.len() > SMALLER_LEN,
    ensures
        decoded(bytes).snapshot_type == SnapshotType::Snapshot128,
        decoded(bytes).header == header_of(bytes),
        decoded(bytes).extension == Some(extension_of(bytes)),
        decoded(bytes).banks.len() == LARGER_BANKS,
        decoded(bytes).mapping == seq![
            5u8,
            2u8,
            (extension_of(bytes).x7ffd & 0x07),
        ],
{
    let control = extension_of(bytes).x7ffd;
    assert((control & 0x07) == control % 8) by (bit_vector);
    assert(decoded(bytes).mapping =~= seq![5u8, 2u8, (control & 0x07)]);
}

/// A buffer of the larger format is decodable exactly when it holds the
/// extension record and five banks after it, or six where the paged bank is
/// bank 5 or bank 2.
pub proof fn lemma_larger_required_len(bytes: Seq<u8>)
    requires
        bytes.len() >= SPARE_BANKS_OFFSET,
    ensures
        decodable(bytes) <==> bytes.len() >= SPARE_BANKS_OFFSET + BANK_SIZE * (if selected_bank(
            extension_of(bytes).x7ffd,
        ) == 5 || selected_bank(extension_of(bytes).x7ffd) == 2 {
            6int
        } else {
            5int
        }),
{
    lemma_spare_count(selected_bank(extension_of(bytes).x7ffd));
}

/// In the larger format the bank in slot 2 holds the third chunk of the
/// buffer; bank 5 and bank 2 hold the first and the second, unless they are
/// the paged bank; and the spare banks hold the chunks after the extension
/// record, one after the other in ascending order of their indices.
pub proof fn lemma_larger_banks(bytes: Seq<u8>, bank: int)
    requires
        decodable(bytes),
        bytes.len() > SMALLER_LEN,
        0 <= bank < LARGER_BANKS,
    ensures
        ({
            let paged = selected_bank(extension_of(bytes).x7ffd);
            let contents = decoded(bytes).banks[bank];
            &&& bank == paged ==> contents == chunk(bytes, HEADER_SIZE + 2 * BANK_SIZE)
            &&& bank == 5 && paged != 5 ==> contents == chunk(bytes, HEADER_SIZE as int)
            &&& bank == 2 && paged != 2 ==> contents == chunk(bytes, HEADER_SIZE + BANK_SIZE)
            &&& bank != 5 && bank != 2 && bank != paged ==> contents == chunk(
                bytes,
                SPARE_BANKS_OFFSET + BANK_SIZE * spare_below(bank, paged),
            )
        }),
{
}

/// Bytes that follow the last bank of a buffer in the larger format play no
/// part: a buffer that continues a decodable one decodes to the same
/// snapshot.
pub proof fn lemma_trailing_bytes_ignored(bytes: Seq<u8>, longer: Seq<u8>)
    requires
        decodable(bytes),
        bytes.len() > SMALLER_LEN,
        longer.len() >= bytes.len(),
        longer.subrange(0, bytes.len() as int) == bytes,
    ensures
        decodable(longer),
        decoded(longer) == decoded(bytes),
{
    let paged = selected_bank(extension_of(bytes).x7ffd);
    assert forall|i: int| 0 <= i < bytes.len() implies longer[i] == bytes[i] by {
        assert(longer.subrange(0, bytes.len() as int)[i] == longer[i]);
    }
    assert(extension_of(longer) == extension_of(bytes));
    assert(header_of(longer) == header_of(bytes));
    assert forall|bank: int| 0 <= bank < LARGER_BANKS implies #[trigger] decoded(
        longer,
    ).banks[bank] == decoded(bytes).banks[bank] by {
        lemma_larger_bank_in_buffer(bytes, bank);
        assert(chunk(longer, larger_bank_start(bank, paged)) =~= chunk(
            bytes,
            larger_bank_start(bank, paged),
        ));
    }
    assert(decoded(longer) =~~= decoded(bytes));
}

/// In the smaller format the RAM is the image of the buffer: the byte at a
/// logical address is the byte that lies as far behind the registers as the
/// address lies above `RAM_BASE`.
pub proof fn lemma_smaller_ram_image(bytes: Seq<u8>, address: u16)
    requires
        bytes.len() == SMALLER_LEN,
        address >= RAM_BASE,
    ensures
        decoded(bytes).peek(address) == bytes[HEADER_SIZE + (address - RAM_BASE)],
{
}

/// In the larger format the topmost window shows the third chunk of the
/// buffer, whatever bank is paged.
pub proof fn lemma_larger_top_window_image(bytes: Seq<u8>, address: u16)
    requires
        decodable(bytes),
        bytes.len() > SMALLER_LEN,
        address >= 0xC000,
    ensures
        decoded(bytes).peek(address) == bytes[HEADER_SIZE + (address - RAM_BASE)],
{
    lemma_larger_bank_in_buffer(bytes, selected_bank(extension_of(bytes).x7ffd));
}

/// A read below `RAM_BASE` gives 0xFF, whatever the snapshot holds.
pub proof fn lemma_peek_below_ram(s: SnapshotView, address: u16)
    requires
        address < RAM_BASE,
    ensures
        s.peek(address) == 0xFF,
{
}

/// Every address from `RAM_BASE` up is served by a slot of the page table,
/// and the slot holds the index of a bank.
pub proof fn lemma_mapped_bank_exists(s: SnapshotView, address: u16)
    requires
        s.well_formed(),
        address >= RAM_BASE,
    ensures
        0 <= page_slot(address) < SLOTS,
        0 <= bank_offset(address) < BANK_SIZE,
        0 <= s.mapped_bank(address) < s.banks.len(),
        address as int == window_base(page_slot(address)) + bank_offset(address),
{
}

/// The two lower slots never change: in the smaller format the three slots
/// show banks 0, 1 and 2, in the larger format slot 0 shows bank 5 and slot 1
/// bank 2.
pub proof fn lemma_fixed_slots(s: SnapshotView, address: u16)
    requires
        s.well_formed(),
        address >= RAM_BASE,
    ensures
        s.snapshot_type == SnapshotType::Snapshot48 ==> s.mapped_bank(address) == page_slot(
            address,
        ),
        s.snapshot_type == SnapshotType::Snapshot128 && page_slot(address) == 0 ==> s.mapped_bank(
            address,
        ) == 5,
        s.snapshot_type == SnapshotType::Snapshot128 && page_slot(address) == 1 ==> s.mapped_bank(
            address,
        ) == 2,
{
}

/// The logical view and the bank view agree: a read at a logical address
/// gives the byte that a bank read gives for the bank in the address's slot.
pub proof fn lemma_peek_is_bank_peek(s: SnapshotView, address: u16)
    requires
        s.well_formed(),
        address >= RAM_BASE,
    ensures
        s.peek(address) == s.bank_peek(s.mapped_bank(address), address),
        s.peek(address) == s.bank_peek(
            s.mapping[page_slot(address)] as int,
            (address & 0x3FFF),
        ),
{
    let masked = address & 0x3FFF;
    assert(masked == address % 0x4000 && masked % 0x4000 == address % 0x4000) by (bit_vector)
        requires
            masked == address & 0x3FFF,
    ;
}

/// The bytes read through the window of a slot, taken in order, are the
/// contents of the bank that the slot shows.
pub proof fn lemma_window_is_bank(s: SnapshotView, slot: int)
    requires
        s.well_formed(),
        0 <= slot < SLOTS,
    ensures
        Seq::new(BANK_SIZE as nat, |i: int| s.peek((window_base(slot) + i) as u16))
            == s.banks[s.mapping[slot] as int],
{
    let window = Seq::new(BANK_SIZE as nat, |i: int| s.peek((window_base(slot) + i) as u16));
    let bank = s.banks[s.mapping[slot] as int];
    assert forall|i: int| 0 <= i < BANK_SIZE implies window[i] == bank[i] by {
        let address = (window_base(slot) + i) as u16;
        assert(page_slot(address) == slot);
        assert(bank_offset(address) == i);
    }
    assert(window =~= bank);
}

/// A write to a logical address is the write to the bank in its slot: the
/// two leave the same snapshot.
pub proof fn lemma_poke_is_bank_poke(s: SnapshotView, address: u16, value: u8)
    requires
        s.well_formed(),
        address >= RAM_BASE,
    ensures
        s.poke(address, value) == s.bank_poke(s.mapped_bank(address), address, value),
{
}

/// A byte written to a logical address is the byte read back from it.
pub proof fn lemma_poke_then_peek(s: SnapshotView, address: u16, value: u8)
    requires
        s.well_formed(),
        address >= RAM_BASE,
    ensures
        s.poke(address, value).peek(address) == value,
{
}

/// A write to a logical address changes no byte but the one it names: a
/// read that goes to another bank, or to another offset, gives what it gave
/// before.
pub proof fn lemma_poke_leaves_other_bytes(s: SnapshotView, address: u16, value: u8, other: u16)
    requires
        s.well_formed(),
        address >= RAM_BASE,
        s.mapped_bank(other) != s.mapped_bank(address) || bank_offset(other) != bank_offset(
            address,
        ) || other < RAM_BASE,
    ensures
        s.poke(address, value).peek(other) == s.peek(other),
{
}

/// A byte written to the bank that a slot shows is read back through the
/// slot's window, and a byte written through the window is read back from
/// the bank.
pub proof fn lemma_bank_and_logical_writes_agree(s: SnapshotView, address: u16, value: u8)
    requires
        s.well_formed(),
        address >= RAM_BASE,
    ensures
        s.bank_poke(s.mapped_bank(address), address, value).peek(address) == value,
        s.poke(address, value).bank_peek(s.mapped_bank(address), address) == value,
{
}

/// A byte written to a bank is the byte read back from it, and the bytes of
/// the other banks and at the other offsets are as before.
pub proof fn lemma_bank_poke_then_bank_peek(
    s: SnapshotView,
    bank: int,
    address: u16,
    value: u8,
    other_bank: int,
    other: u16,
)
    requires
        s.well_formed(),
        0 <= bank < s.banks.len(),
        0 <= other_bank < s.banks.len(),
    ensures
        s.bank_poke(bank, address, value).bank_peek(bank, address) == value,
        other_bank != bank || bank_offset(other) != bank_offset(address) ==> s.bank_poke(
            bank,
            address,
            value,
        ).bank_peek(other_bank, other) == s.bank_peek(other_bank, other),
{
}

/// After a write of any value to the paging control, slot 2 shows the bank
/// that the low three bits of the value select: every address of the topmost
/// window reads the byte of that bank at the address's offset. The write
/// changes no bank.
pub proof fn lemma_paged_window(s: SnapshotView, control: u8, address: u16)
    requires
        s.well_formed(),
        s.snapshot_type == SnapshotType::Snapshot128,
        address >= 0xC000,
    ensures
        ({
            let paged = s.write_0x7ffd(control);
            &&& paged.mapping[2] == (control & 0x07)
            &&& paged.peek(address) == paged.bank_peek(paged.mapping[2] as int, (address & 0x3FFF))
            &&& paged.peek(address) == s.bank_peek(selected_bank(control), address)
            &&& paged.banks == s.banks
        }),
{
    let paged = s.write_0x7ffd(control);
    assert((control & 0x07) == control % 8) by (bit_vector);
    lemma_write_0x7ffd_well_formed(s, control);
    lemma_peek_is_bank_peek(paged, address);
}

/// A write to the paging control changes slot 2 and the paging-control byte
/// of the extension, and nothing else: the two lower windows read as before.
pub proof fn lemma_paging_leaves_lower_windows(s: SnapshotView, control: u8, address: u16)
    requires
        s.well_formed(),
        s.snapshot_type == SnapshotType::Snapshot128,
        address < 0xC000,
    ensures
        s.write_0x7ffd(control).peek(address) == s.peek(address),
        s.write_0x7ffd(control).header == s.header,
        s.write_0x7ffd(control).extension matches Some(extension) && extension.x7ffd == control
            && extension.pc == s.extension->0.pc && extension.tr_dos == s.extension->0.tr_dos,
{
}

/// A 16-bit bank access at the last offset of a bank: the low byte lies at
/// the last offset; the high byte lies at offset 0, of the same bank when
/// the access wraps and of the next bank when it does not.
pub proof fn lemma_bank_word_at_last_offset(s: SnapshotView, bank: int, value: u16, wrap: bool)
    requires
        s.well_formed(),
        0 <= bank,
        word_end_bank(bank, LAST_OFFSET, wrap) < s.banks.len(),
    ensures
        ({
            let end_bank = if wrap {
                bank
            } else {
                bank + 1
            };
            let written = s.bank_poke_word(bank, LAST_OFFSET, value, wrap);
            &&& s.bank_peek_word(bank, LAST_OFFSET, wrap) == le16(
                s.bank_peek(bank, LAST_OFFSET),
                s.bank_peek(end_bank, 0),
            )
            &&& written == s.bank_poke(bank, LAST_OFFSET, low_byte(value)).bank_poke(
                end_bank,
                0,
                high_byte(value),
            )
            &&& written.bank_peek(bank, LAST_OFFSET) == low_byte(value)
            &&& written.bank_peek(end_bank, 0) == high_byte(value)
            &&& !wrap ==> written.bank_peek(bank, 0) == s.bank_peek(bank, 0)
        }),
{
}

/// A 16-bit bank access anywhere else stays inside its bank: the high byte
/// lies at the offset after that of the low byte, and `wrap` plays no part.
pub proof fn lemma_bank_word_inside_bank(s: SnapshotView, bank: int, address: u16, wrap: bool)
    requires
        s.well_formed(),
        0 <= bank < s.banks.len(),
        address != LAST_OFFSET,
    ensures
        word_end_bank(bank, address, wrap) == bank,
        s.bank_peek_word(bank, address, wrap) == le16(
            s.banks[bank][bank_offset(address)],
            s.banks[bank][next_offset(address)],
        ),
        bank_offset(address) < BANK_SIZE - 1 ==> next_offset(address) == bank_offset(address) + 1,
        bank_offset(address) == BANK_SIZE - 1 ==> next_offset(address) == 0,
{
}

/// A 16-bit value written to a bank is the value read back from it.
pub proof fn lemma_bank_poke_word_then_peek_word(
    s: SnapshotView,
    bank: int,
    address: u16,
    value: u16,
    wrap: bool,
)
    requires
        s.well_formed(),
        0 <= bank,
        word_end_bank(bank, address, wrap) < s.banks.len(),
    ensures
        s.bank_poke_word(bank, address, value, wrap).bank_peek_word(bank, address, wrap) == value,
{
    lemma_le16_bytes(value, 0, 0);
}

/// A 16-bit value written to a logical address is the value read back from
/// it.
pub proof fn lemma_poke_word_then_peek_word(s: SnapshotView, address: u16, value: u16)
    requires
        s.well_formed(),
        RAM_BASE <= address < 0xFFFF,
    ensures
        s.poke_word(address, value).peek_word(address) == value,
{
    lemma_le16_bytes(value, 0, 0);
    let next = (address + 1) as u16;
    let low = s.poke(address, low_byte(value));
    lemma_poke_well_formed(s, address, low_byte(value));
    assert(bank_offset(next) != bank_offset(address));
    assert(low.poke(next, high_byte(value)).peek(address) == low_byte(value));
    assert(low.poke(next, high_byte(value)).peek(next) == high_byte(value));
}

/// A write to a logical address keeps the invariant.
pub proof fn lemma_poke_well_formed(s: SnapshotView, address: u16, value: u8)
    requires
        s.well_formed(),
        address >= RAM_BASE,
    ensures
        s.poke(address, value).well_formed(),
{
}

/// A 16-bit write to a logical address keeps the invariant.
pub proof fn lemma_poke_word_well_formed(s: SnapshotView, address: u16, value: u16)
    requires
        s.well_formed(),
        RAM_BASE <= address < 0xFFFF,
    ensures
        s.poke_word(address, value).well_formed(),
{
    lemma_poke_well_formed(s, address, low_byte(value));
}

/// A write to a bank keeps the invariant.
pub proof fn lemma_bank_poke_well_formed(s: SnapshotView, bank: int, address: u16, value: u8)
    requires
        s.well_formed(),
        0 <= bank < s.banks.len(),
    ensures
        s.bank_poke(bank, address, value).well_formed(),
{
}

/// A 16-bit write to a bank keeps the invariant.
pub proof fn lemma_bank_poke_word_well_formed(
    s: SnapshotView,
    bank: int,
    address: u16,
    value: u16,
    wrap: bool,
)
    requires
        s.well_formed(),
        0 <= bank,
        word_end_bank(bank, address, wrap) < s.banks.len(),
    ensures
        s.bank_poke_word(bank, address, value, wrap).well_formed(),
{
}

/// A write to the paging control keeps the invariant: slot 2 holds the
/// index of one of the eight banks.
pub proof fn lemma_write_0x7ffd_well_formed(s: SnapshotView, control: u8)
    requires
        s.well_formed(),
        s.snapshot_type == SnapshotType::Snapshot128,
    ensures
        s.write_0x7ffd(control).well_formed(),
        0 <= s.write_0x7ffd(control).mapping[2] < LARGER_BANKS,
{
}

} // verus!
