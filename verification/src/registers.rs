//! The register state that a snapshot carries: the processor's registers, and
//! the paging state that only the larger format records.

use vstd::prelude::*;
use crate::layout::{le16, lemma_le16_bits, HEADER_SIZE, SMALLER_LEN, SPARE_BANKS_OFFSET};

verus! {

/// The two formats of a snapshot.
#[derive(Debug, Clone, Copy, PartialEq, Eq, Structural)]
pub enum SnapshotType {
    /// Three banks of RAM under a fixed page table.
    Snapshot48,
    /// Eight banks of RAM, of which the paging-control byte selects one for
    /// the topmost window.
    Snapshot128,
}

/// The processor's registers, in the order in which a snapshot stores them.
#[derive(Debug, Clone, Copy, PartialEq, Eq, Structural)]
pub struct SnapshotHeader {
    /// The interrupt vector register I.
    pub i: u8,
    /// The alternate register pair HL'.
    pub hl_prime: u16,
    /// The alternate register pair DE'.
    pub de_prime: u16,
    /// The alternate register pair BC'.
    pub bc_prime: u16,
    /// The alternate accumulator and flags AF'.
    pub af_prime: u16,
    /// The register pair HL.
    pub hl: u16,
    /// The register pair DE.
    pub de: u16,
    /// The register pair BC.
    pub bc: u16,
    /// The index register IY.
    pub iy: u16,
    /// The index register IX.
    pub ix: u16,
    /// The interrupt-enable flag.
    pub interrupt: u8,
    /// The refresh register R.
    pub r: u8,
    /// The accumulator and flags AF.
    pub af: u16,
    /// The stack pointer.
    pub sp: u16,
    /// The interrupt mode.
    pub int_mode: u8,
    /// The colour of the border.
    pub border_color: u8,
}

/// The paging state of the larger format: the program counter, the
/// paging-control byte and the state byte of the disk controller.
#[derive(Debug, Clone, Copy, PartialEq, Eq, Structural)]
pub struct SnapshotExtension {
    /// The program counter.
    pub pc: u16,
    /// The paging-control byte: its low three bits select the bank that the
    /// topmost window shows.
    pub x7ffd: u8,
    /// The state of the disk controller.
    pub tr_dos: u8,
}

/// The register block with every register zero.
pub open spec fn zeroed_header() -> SnapshotHeader {
    SnapshotHeader {
        i: 0,
        hl_prime: 0,
        de_prime: 0,
        bc_prime: 0,
        af_prime: 0,
        hl: 0,
        de: 0,
        bc: 0,
        iy: 0,
        ix: 0,
        interrupt: 0,
        r: 0,
        af: 0,
        sp: 0,
        int_mode: 0,
        border_color: 0,
    }
}

/// The registers held by the first `HEADER_SIZE` bytes of a snapshot. Each
/// 16-bit register is stored low byte first.
pub open spec fn header_of(bytes: Seq<u8>) -> SnapshotHeader
    recommends
        bytes.len() >= HEADER_SIZE,
{
    SnapshotHeader {
        i: bytes[0],
        hl_prime: le16(bytes[1], bytes[2]),
        de_prime: le16(bytes[3], bytes[4]),
        bc_prime: le16(bytes[5], bytes[6]),
        af_prime: le16(bytes[7], bytes[8]),
        hl: le16(bytes[9], bytes[10]),
        de: le16(bytes[11], bytes[12]),
        bc: le16(bytes[13], bytes[14]),
        iy: le16(bytes[15], bytes[16]),
        ix: le16(bytes[17], bytes[18]),
        interrupt: bytes[19],
        r: bytes[20],
        af: le16(bytes[21], bytes[22]),
        sp: le16(bytes[23], bytes[24]),
        int_mode: bytes[25],
        border_color: bytes[26],
    }
}

/// The extension record of a snapshot in the larger format: the four bytes
/// that follow the first 48 KiB of RAM.
pub open spec fn extension_of(bytes: Seq<u8>) -> SnapshotExtension
    recommends
        bytes.len() >= SPARE_BANKS_OFFSET,
{
    SnapshotExtension {
        pc: le16(bytes[SMALLER_LEN as int], bytes[SMALLER_LEN + 1]),
        x7ffd: bytes[SMALLER_LEN + 2],
        tr_dos: bytes[SMALLER_LEN + 3],
    }
}

impl Default for SnapshotHeader {
    /// All registers zero.
    fn default() -> (header: Self)
        ensures
            header == zeroed_header(),
    {
        SnapshotHeader {
            i: 0,
            hl_prime: 0,
            de_prime: 0,
            bc_prime: 0,
            af_prime: 0,
            hl: 0,
            de: 0,
            bc: 0,
            iy: 0,
            ix: 0,
            interrupt: 0,
            r: 0,
            af: 0,
            sp: 0,
            int_mode: 0,
            border_color: 0,
        }
    }
}

/// Reads the 16-bit value stored low byte first at `at`.
pub(crate) fn read_le16(bytes: &[u8], at: usize) -> (value: u16)
    requires
        at + 1 < bytes@.len(),
    ensures
        value == le16(bytes@[at as int], bytes@[at + 1]),
{
    let lo = bytes[at];
    let hi = bytes[at + 1];
    proof {
        lemma_le16_bits(0, lo, hi);
    }
    (lo as u16) | ((hi as u16) << 8)
}

impl SnapshotHeader {
    /// Reads the registers from the start of a snapshot, field by field.
    pub(crate) fn read(bytes: &[u8]) -> (header: Self)
        requires
            bytes@.len() >= HEADER_SIZE,
        ensures
            header == header_of(bytes@),
    {
        SnapshotHeader {
            i: bytes[0],
            hl_prime: read_le16(bytes, 1),
            de_prime: read_le16(bytes, 3),
            bc_prime: read_le16(bytes, 5),
            af_prime: read_le16(bytes, 7),
            hl: read_le16(bytes, 9),
            de: read_le16(bytes, 11),
            bc: read_le16(bytes, 13),
            iy: read_le16(bytes, 15),
            ix: read_le16(bytes, 17),
            interrupt: bytes[19],
            r: bytes[20],
            af: read_le16(bytes, 21),
            sp: read_le16(bytes, 23),
            int_mode: bytes[25],
            border_color: bytes[26],
        }
    }
}

impl SnapshotExtension {
    /// Reads the extension record of a snapshot in the larger format.
    pub(crate) fn read(bytes: &[u8]) -> (extension: Self)
        requires
            bytes@.len() >= SPARE_BANKS_OFFSET,
        ensures
            extension == extension_of(bytes@),
    {
        SnapshotExtension {
            pc: read_le16(bytes, SMALLER_LEN),
            x7ffd: bytes[SMALLER_LEN + 2],
            tr_dos: bytes[SMALLER_LEN + 3],
        }
    }
}

} // verus!
