//! The memory of a snapshot: access by logical address through the page
//! table, access to a bank by its index, and the paging control that changes
//! what the topmost window shows.
//!
//! Each operation is first defined on `SnapshotView`, as a function of the
//! model, and then implemented on `Snapshot` with that function as its
//! contract. The operations that the hardware would answer with a fault (a
//! write below `RAM_BASE`, a 16-bit access at 0xFFFF, a bank that does not
//! exist, a paging write in the smaller format) are left out by `requires`.

use vstd::prelude::*;
use crate::layout::{
    bank_offset, high_byte, le16, lemma_address_bits, lemma_le16_bits, lemma_selected_bank_bits,
    low_byte, page_slot, selected_bank, BANK_SIZE, LAST_OFFSET, RAM_BASE, UNMAPPED_BYTE,
};
use crate::registers::{SnapshotExtension, SnapshotType};
use crate::snapshot::{Snapshot, SnapshotView};

verus! {

/// The offset of the byte that follows the byte at `address` of a bank: one
/// more, and 0 after the last offset.
pub open spec fn next_offset(address: u16) -> int {
    (bank_offset(address) + 1) % (BANK_SIZE as int)
}

/// The bank that holds the second byte of a 16-bit bank access at `address`
/// of `bank`. It is `bank` itself, except for an access at `LAST_OFFSET`
/// that does not wrap: its second byte lies in the next bank.
pub open spec fn word_end_bank(bank: int, address: u16, wrap: bool) -> int {
    if address == LAST_OFFSET && !wrap {
        bank + 1
    } else {
        bank
    }
}

/// The sum of the bytes of a sequence.
pub open spec fn byte_sum(bytes: Seq<u8>) -> nat
    decreases bytes.len(),
{
    if bytes.len() == 0 {
        0
    } else {
        byte_sum(bytes.drop_last()) + bytes.last() as nat
    }
}

impl SnapshotView {
    /// The bank that the page table shows at a logical address.
    pub open spec fn mapped_bank(self, address: u16) -> int
        recommends
            address >= RAM_BASE,
    {
        self.mapping[page_slot(address)] as int
    }

    /// The byte at a logical address. Below `RAM_BASE` no RAM is mapped and
    /// every address reads as `UNMAPPED_BYTE`.
    pub open spec fn peek(self, address: u16) -> u8 {
        if address < RAM_BASE {
            UNMAPPED_BYTE
        } else {
            self.banks[self.mapped_bank(address)][bank_offset(address)]
        }
    }

    /// The snapshot after a write to a logical address: one byte of the
    /// bank that the page table shows there has changed.
    pub open spec fn poke(self, address: u16, value: u8) -> SnapshotView
        recommends
            address >= RAM_BASE,
    {
        let bank = self.mapped_bank(address);
        SnapshotView {
            banks: self.banks.update(bank, self.banks[bank].update(bank_offset(address), value)),
            ..self
        }
    }

    /// The 16-bit value stored low byte first at a logical address.
    pub open spec fn peek_word(self, address: u16) -> u16
        recommends
            address < 0xFFFF,
    {
        le16(self.peek(address), self.peek((address + 1) as u16))
    }

    /// The snapshot after a 16-bit write to a logical address: the low byte
    /// goes to `address`, the high byte to the address after it.
    pub open spec fn poke_word(self, address: u16, value: u16) -> SnapshotView
        recommends
            RAM_BASE <= address < 0xFFFF,
    {
        self.poke(address, low_byte(value)).poke((address + 1) as u16, high_byte(value))
    }

    /// The byte of `bank` at the offset that `address` reduces to. The page
    /// table plays no part.
    pub open spec fn bank_peek(self, bank: int, address: u16) -> u8
        recommends
            0 <= bank < self.banks.len(),
    {
        self.banks[bank][bank_offset(address)]
    }

    /// The snapshot after a write to `bank` at the offset that `address`
    /// reduces to.
    pub open spec fn bank_poke(self, bank: int, address: u16, value: u8) -> SnapshotView
        recommends
            0 <= bank < self.banks.len(),
    {
        SnapshotView {
            banks: self.banks.update(bank, self.banks[bank].update(bank_offset(address), value)),
            ..self
        }
    }

    /// The 16-bit value whose low byte lies at `address` of `bank` and whose
    /// high byte lies at the next offset, in the bank that `word_end_bank`
    /// names.
    pub open spec fn bank_peek_word(self, bank: int, address: u16, wrap: bool) -> u16
        recommends
            0 <= bank,
            word_end_bank(bank, address, wrap) < self.banks.len(),
    {
        le16(
            self.banks[bank][bank_offset(address)],
            self.banks[word_end_bank(bank, address, wrap)][next_offset(address)],
        )
    }

    /// The snapshot after a 16-bit write to a bank: the low byte goes to
    /// `address` of `bank`, the high byte to the next offset, in the bank
    /// that `word_end_bank` names.
    pub open spec fn bank_poke_word(
        self,
        bank: int,
        address: u16,
        value: u16,
        wrap: bool,
    ) -> SnapshotView
        recommends
            0 <= bank,
            word_end_bank(bank, address, wrap) < self.banks.len(),
    {
        let end_bank = word_end_bank(bank, address, wrap);
        let low = self.banks.update(
            bank,
            self.banks[bank].update(bank_offset(address), low_byte(value)),
        );
        SnapshotView {
            banks: low.update(
                end_bank,
                low[end_bank].update(next_offset(address), high_byte(value)),
            ),
            ..self
        }
    }

    /// The snapshot after a write of `value` to the paging control: the
    /// extension records the value, and slot 2 of the page table shows the
    /// bank that its low three bits select.
    pub open spec fn write_0x7ffd(self, value: u8) -> SnapshotView
        recommends
            self.snapshot_type == SnapshotType::Snapshot128,
            self.extension is Some,
    {
        SnapshotView {
            extension: match self.extension {
                Some(extension) => Some(SnapshotExtension { x7ffd: value, ..extension }),
                None => None,
            },
            mapping: self.mapping.update(2, selected_bank(value) as u8),
            ..self
        }
    }

    /// The sum of the bytes of a bank, modulo 65536.
    pub open spec fn checksum(self, bank: int) -> u16
        recommends
            0 <= bank < self.banks.len(),
    {
        (byte_sum(self.banks[bank]) % 0x10000) as u16
    }
}

impl Snapshot {
    /// Writes a byte to the RAM that is mapped at `address`.
    pub fn poke(&mut self, address: u16, value: u8)
        requires
            old(self).well_formed(),
            address >= RAM_BASE,
        ensures
            final(self)@ == old(self)@.poke(address, value),
            final(self).well_formed(),
            final(self)@.peek(address) == value,
    {
        proof {
            lemma_address_bits(address);
        }
        let slot = ((address >> 14) & 0x03) - 1;
        let bank = self.mapping[slot as usize] as usize;
        self.banks[bank][(address & 0x3FFF) as usize] = value;
        assert(self@ =~~= old(self)@.poke(address, value));
    }

    /// Reads the byte at `address`: the RAM that is mapped there, or
    /// `UNMAPPED_BYTE` below `RAM_BASE`.
    pub fn peek(&self, address: u16) -> (value: u8)
        requires
            self.well_formed(),
        ensures
            value == self@.peek(address),
            address < RAM_BASE ==> value == 0xFF,
    {
        if address < 0x4000 {
            return 0xFF;
        }
        proof {
            lemma_address_bits(address);
        }
        let slot = ((address >> 14) & 0x03) - 1;
        let bank = self.mapping[slot as usize] as usize;
        assert(self@.banks[bank as int].len() == BANK_SIZE);
        self.banks[bank][(address & 0x3FFF) as usize]
    }

    /// Reads the 16-bit value stored low byte first at `address` and the
    /// address after it.
    pub fn peek_word(&self, address: u16) -> (value: u16)
        requires
            self.well_formed(),
            address != 0xFFFF,
        ensures
            value == self@.peek_word(address),
    {
        let low = self.peek(address);
        let high = self.peek(address + 1);
        proof {
            lemma_le16_bits(0, low, high);
        }
        (low as u16) | ((high as u16) << 8)
    }

    /// Writes a 16-bit value low byte first to `address` and the address
    /// after it.
    pub fn poke_word(&mut self, address: u16, value: u16)
        requires
            old(self).well_formed(),
            address >= RAM_BASE,
            address != 0xFFFF,
        ensures
            final(self)@ == old(self)@.poke_word(address, value),
            final(self).well_formed(),
    {
        proof {
            lemma_le16_bits(value, 0, 0);
        }
        self.poke(address, (value & 0xFF) as u8);
        self.poke(address + 1, ((value >> 8) & 0xFF) as u8);
    }

    /// Writes `value` to the paging control: the bank that its low three
    /// bits select is mapped at 0xC000..=0xFFFF from now on.
    pub fn write_0x7ffd(&mut self, value: u8)
        requires
            old(self).well_formed(),
            old(self).snapshot_type == SnapshotType::Snapshot128,
        ensures
            final(self)@ == old(self)@.write_0x7ffd(value),
            final(self).well_formed(),
            final(self).mapping@[2] == value & 0x07,
            final(self).extension matches Some(extension) && extension.x7ffd == value,
    {
        proof {
            lemma_selected_bank_bits(value);
        }
        match &mut self.extension {
            Some(extension) => {
                extension.x7ffd = value;
            },
            None => {},
        }
        self.mapping[2] = value & 0x07;
        assert(self@ =~~= old(self)@.write_0x7ffd(value));
    }

    /// Reads the byte of `bank` at the offset that `address` reduces to.
    pub fn bank_peek(&self, bank: usize, address: u16) -> (value: u8)
        requires
            self.well_formed(),
            bank < self.banks@.len(),
        ensures
            value == self@.bank_peek(bank as int, address),
    {
        proof {
            lemma_address_bits(address);
        }
        assert(self@.banks[bank as int].len() == BANK_SIZE);
        self.banks[bank][(address & 0x3FFF) as usize]
    }

    /// Writes a byte to `bank` at the offset that `address` reduces to.
    pub fn bank_poke(&mut self, bank: usize, address: u16, value: u8)
        requires
            old(self).well_formed(),
            bank < old(self).banks@.len(),
        ensures
            final(self)@ == old(self)@.bank_poke(bank as int, address, value),
            final(self).well_formed(),
    {
        proof {
            lemma_address_bits(address);
        }
        self.banks[bank][(address & 0x3FFF) as usize] = value;
        assert(self@ =~~= old(self)@.bank_poke(bank as int, address, value));
    }

    /// Writes a 16-bit value low byte first to `bank` at `address`. The high
    /// byte goes to the next offset of the same bank; after `LAST_OFFSET` it
    /// goes to offset 0, of the same bank if `wrap` is set and of the next
    /// bank if not.
    pub fn bank_poke_word(&mut self, bank: usize, address: u16, value: u16, wrap: bool)
        requires
            old(self).well_formed(),
            word_end_bank(bank as int, address, wrap) < old(self).banks@.len(),
        ensures
            final(self)@ == old(self)@.bank_poke_word(bank as int, address, value, wrap),
            final(self).well_formed(),
    {
        proof {
            lemma_le16_bits(value, 0, 0);
        }
        let end_bank = if address == LAST_OFFSET && !wrap {
            bank + 1
        } else {
            bank
        };
        let end_address = if address == 0xFFFF {
            0
        } else {
            address + 1
        };
        self.bank_poke(bank, address, (value & 0xFF) as u8);
        self.bank_poke(end_bank, end_address, ((value >> 8) & 0xFF) as u8);
        assert(self@ =~~= old(self)@.bank_poke_word(bank as int, address, value, wrap));
    }

    /// Reads the 16-bit value stored low byte first in `bank` at `address`.
    /// The high byte is read from the next offset of the same bank; after
    /// `LAST_OFFSET` it is read from offset 0, of the same bank if `wrap` is
    /// set and of the next bank if not. The snapshot is left as it was.
    pub fn bank_peek_word(&mut self, bank: usize, address: u16, wrap: bool) -> (value: u16)
        requires
            old(self).well_formed(),
            word_end_bank(bank as int, address, wrap) < old(self).banks@.len(),
        ensures
            value == old(self)@.bank_peek_word(bank as int, address, wrap),
            *final(self) == *old(self),
    {
        let end_bank = if address == LAST_OFFSET && !wrap {
            bank + 1
        } else {
            bank
        };
        let end_address = if address == 0xFFFF {
            0
        } else {
            address + 1
        };
        let low = self.bank_peek(bank, address);
        let high = self.bank_peek(end_bank, end_address);
        proof {
            lemma_le16_bits(0, low, high);
        }
        (low as u16) | ((high as u16) << 8)
    }

    /// The sum of the bytes of `bank`, modulo 65536.
    pub fn checksum(&self, bank: usize) -> (sum: u16)
        requires
            self.well_formed(),
            bank < self.banks@.len(),
        ensures
            sum == self@.checksum(bank as int),
    {
        let bytes = &self.banks[bank];
        let mut sum: u16 = 0;
        let mut i: usize = 0;
        while i < bytes.len()
            invariant
                i <= bytes@.len(),
                sum == byte_sum(bytes@.take(i as int)) % 0x10000,
            decreases bytes@.len() - i,
        {
            assert(bytes@.take(i + 1).drop_last() =~= bytes@.take(i as int));
            sum = sum.wrapping_add(bytes[i] as u16);
            i = i + 1;
        }
        assert(bytes@.take(i as int) =~= bytes@);
        sum
    }
}

} // verus!
