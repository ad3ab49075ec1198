//! The decoder: from the bytes of a snapshot to its registers, banks and
//! page table.
//!
//! The format of a buffer is told by its length alone. A buffer of
//! `SMALLER_LEN` bytes is in the smaller format: the registers, then three
//! banks. A longer one is in the larger format: the registers, the three
//! banks that the page table showed when the snapshot was taken, the
//! extension record, and then the banks that those three do not account
//! for, in ascending order.

use vstd::prelude::*;
use vstd::slice::{slice_subrange, slice_to_vec};
use std::convert::TryFrom;
use crate::layout::{
    lemma_selected_bank_bits, selected_bank, BANK_SIZE, HEADER_SIZE, LARGER_BANKS, SMALLER_BANKS,
    SMALLER_LEN, SPARE_BANKS_OFFSET,
};
use crate::registers::{
    extension_of, header_of, SnapshotExtension, SnapshotHeader, SnapshotType,
};
use crate::snapshot::{Snapshot, SnapshotView};

verus! {

/// Why a buffer could not be decoded.
#[derive(Debug, Clone, Copy, PartialEq, Eq, Structural)]
pub enum DecodeError {
    /// The buffer ends before the data that its format calls for.
    TruncatedInput,
}

/// Whether a buffer of `len` bytes is in the larger format.
pub open spec fn is_larger(len: nat) -> bool {
    len > SMALLER_LEN
}

/// Whether `bank` is stored after the extension record when slot 2 shows
/// bank `paged`: it is none of the three banks that the first 48 KiB hold.
pub open spec fn is_spare(bank: int, paged: int) -> bool {
    bank != 5 && bank != 2 && bank != paged
}

/// The number of spare banks with an index below `bank`.
pub open spec fn spare_below(bank: int, paged: int) -> int
    decreases bank,
{
    if bank <= 0 {
        0
    } else {
        spare_below(bank - 1, paged) + if is_spare(bank - 1, paged) {
            1int
        } else {
            0int
        }
    }
}

/// The `BANK_SIZE` bytes of a buffer that begin at `start`.
pub open spec fn chunk(bytes: Seq<u8>, start: int) -> Seq<u8> {
    bytes.subrange(start, start + BANK_SIZE)
}

/// Where in a buffer of the larger format the contents of `bank` begin, when
/// slot 2 shows bank `paged`. The third chunk belongs to the paged bank, also
/// where that is bank 5 or bank 2; the first and the second chunk belong to
/// bank 5 and bank 2 otherwise. A spare bank follows the extension record,
/// behind the spare banks of lower index.
pub open spec fn larger_bank_start(bank: int, paged: int) -> int {
    if bank == paged {
        HEADER_SIZE + 2 * BANK_SIZE
    } else if bank == 5 {
        HEADER_SIZE as int
    } else if bank == 2 {
        HEADER_SIZE + BANK_SIZE
    } else {
        SPARE_BANKS_OFFSET + BANK_SIZE * spare_below(bank, paged)
    }
}

/// The number of bytes that the format of a buffer calls for. In the larger
/// format this depends on the paging-control byte, which says how many spare
/// banks follow the extension record.
pub open spec fn required_len(bytes: Seq<u8>) -> int {
    if !is_larger(bytes.len()) {
        SMALLER_LEN as int
    } else if bytes.len() < SPARE_BANKS_OFFSET {
        SPARE_BANKS_OFFSET as int
    } else {
        SPARE_BANKS_OFFSET + BANK_SIZE * spare_below(
            LARGER_BANKS as int,
            selected_bank(extension_of(bytes).x7ffd),
        )
    }
}

/// Whether a buffer holds all the bytes that its format calls for.
pub open spec fn decodable(bytes: Seq<u8>) -> bool {
    bytes.len() >= required_len(bytes)
}

/// The snapshot that a decodable buffer holds.
pub open spec fn decoded(bytes: Seq<u8>) -> SnapshotView
    recommends
        decodable(bytes),
{
    if !is_larger(bytes.len()) {
        SnapshotView {
            snapshot_type: SnapshotType::Snapshot48,
            header: header_of(bytes),
            extension: None,
            banks: Seq::new(
                SMALLER_BANKS as nat,
                |bank: int| chunk(bytes, HEADER_SIZE + bank * BANK_SIZE),
            ),
            mapping: seq![0u8, 1u8, 2u8],
        }
    } else {
        let extension = extension_of(bytes);
        let paged = selected_bank(extension.x7ffd);
        SnapshotView {
            snapshot_type: SnapshotType::Snapshot128,
            header: header_of(bytes),
            extension: Some(extension),
            banks: Seq::new(
                LARGER_BANKS as nat,
                |bank: int| chunk(bytes, larger_bank_start(bank, paged)),
            ),
            mapping: seq![5u8, 2u8, paged as u8],
        }
    }
}

/// Five banks are spare, or six where the paged bank is bank 5 or bank 2 and
/// so takes the place of one of the banks of the first 48 KiB.
pub proof fn lemma_spare_count(paged: int)
    requires
        0 <= paged < LARGER_BANKS,
    ensures
        spare_below(LARGER_BANKS as int, paged) == if paged == 5 || paged == 2 {
            6int
        } else {
            5int
        },
{
    reveal_with_fuel(spare_below, 9);
}

/// The count of spare banks below an index grows with the index.
pub proof fn lemma_spare_below_monotonic(low: int, high: int, paged: int)
    requires
        low <= high,
    ensures
        0 <= spare_below(low, paged) <= spare_below(high, paged),
    decreases high - low,
{
    if low < high {
        lemma_spare_below_monotonic(low, high - 1, paged);
    } else {
        lemma_spare_below_nonnegative(low, paged);
    }
}

proof fn lemma_spare_below_nonnegative(bank: int, paged: int)
    ensures
        0 <= spare_below(bank, paged),
    decreases bank,
{
    if bank > 0 {
        lemma_spare_below_nonnegative(bank - 1, paged);
    }
}

/// Copies the `BANK_SIZE` bytes that begin at `start` into a bank of their own.
fn copy_bank(bytes: &[u8], start: usize) -> (bank: Vec<u8>)
    requires
        start + BANK_SIZE <= bytes@.len(),
    ensures
        bank@ == chunk(bytes@, start as int),
        bank@.len() == BANK_SIZE,
{
    assert(bytes.len() == bytes@.len());
    slice_to_vec(slice_subrange(bytes, start, start + BANK_SIZE))
}

/// Decodes a buffer in the smaller format, whose registers are `header`.
fn decode_smaller(bytes: &[u8], header: SnapshotHeader) -> (snapshot: Snapshot)
    requires
        bytes@.len() == SMALLER_LEN,
        header == header_of(bytes@),
    ensures
        snapshot@ == decoded(bytes@),
        snapshot.well_formed(),
{
    let mut banks: Vec<Vec<u8>> = Vec::with_capacity(SMALLER_BANKS);
    banks.push(copy_bank(bytes, HEADER_SIZE));
    banks.push(copy_bank(bytes, HEADER_SIZE + BANK_SIZE));
    banks.push(copy_bank(bytes, HEADER_SIZE + 2 * BANK_SIZE));
    let snapshot = Snapshot {
        snapshot_type: SnapshotType::Snapshot48,
        header,
        extension: None,
        banks,
        mapping: [0, 1, 2],
    };
    assert(snapshot@ =~~= decoded(bytes@));
    snapshot
}

/// Decodes a buffer in the larger format, whose registers are `header`, or
/// finds that it is too short.
fn decode_larger(bytes: &[u8], header: SnapshotHeader) -> (result: Result<Snapshot, DecodeError>)
    requires
        bytes@.len() > SMALLER_LEN,
        header == header_of(bytes@),
    ensures
        result is Ok <==> decodable(bytes@),
        result matches Ok(snapshot) ==> snapshot@ == decoded(bytes@) && snapshot.well_formed(),
{
    if bytes.len() < SPARE_BANKS_OFFSET {
        return Err(DecodeError::TruncatedInput);
    }
    let extension = SnapshotExtension::read(bytes);
    let paged: u8 = extension.x7ffd & 0x07;
    let spare: usize = if paged == 5 || paged == 2 {
        6
    } else {
        5
    };
    proof {
        lemma_selected_bank_bits(extension.x7ffd);
        lemma_spare_count(paged as int);
    }
    if bytes.len() < SPARE_BANKS_OFFSET + spare * BANK_SIZE {
        return Err(DecodeError::TruncatedInput);
    }
    let mut banks: Vec<Vec<u8>> = Vec::with_capacity(LARGER_BANKS);
    let mut next: usize = SPARE_BANKS_OFFSET;
    let mut bank: u8 = 0;
    while bank < 8
        invariant
            bank <= 8,
            paged < 8,
            banks@.len() == bank,
            forall|k: int| 0 <= k < bank ==> (#[trigger] banks@[k])@.len() == BANK_SIZE,
            next == SPARE_BANKS_OFFSET + BANK_SIZE * spare_below(bank as int, paged as int),
            bytes@.len() >= SPARE_BANKS_OFFSET + BANK_SIZE * spare_below(8, paged as int),
            forall|k: int|
                0 <= k < bank ==> (#[trigger] banks@[k])@ == chunk(
                    bytes@,
                    larger_bank_start(k, paged as int),
                ),
        decreases 8 - bank,
    {
        proof {
            lemma_spare_below_monotonic(bank as int + 1, 8, paged as int);
            lemma_spare_below_monotonic(0, bank as int, paged as int);
            assert(bytes.len() == bytes@.len());
            assert(spare_below(bank as int + 1, paged as int) == spare_below(
                bank as int,
                paged as int,
            ) + if is_spare(bank as int, paged as int) {
                1int
            } else {
                0int
            });
        }
        let start = if bank == paged {
            HEADER_SIZE + 2 * BANK_SIZE
        } else if bank == 5 {
            HEADER_SIZE
        } else if bank == 2 {
            HEADER_SIZE + BANK_SIZE
        } else {
            let start = next;
            next = next + BANK_SIZE;
            start
        };
        banks.push(copy_bank(bytes, start));
        bank = bank + 1;
    }
    let snapshot = Snapshot {
        snapshot_type: SnapshotType::Snapshot128,
        header,
        extension: Some(extension),
        banks,
        mapping: [5, 2, paged],
    };
    assert(snapshot@ =~~= decoded(bytes@));
    Ok(snapshot)
}

impl TryFrom<Vec<u8>> for Snapshot {
    type Error = DecodeError;

    /// Decodes a snapshot. The buffer is decoded exactly when it holds all
    /// the bytes that its format calls for; bytes beyond those are ignored.
    /// No value of a register or of the extension record is refused.
    ///
    /// A buffer of `SMALLER_LEN` bytes gives three banks under the page
    /// table [0, 1, 2]. A longer one gives eight banks under the page table
    /// [5, 2, control & 7], where `control` is its paging-control byte.
    fn try_from(bin: Vec<u8>) -> (result: Result<Self, DecodeError>)
        ensures
            result is Ok <==> decodable(bin@),
            result matches Err(error) ==> error == DecodeError::TruncatedInput,
            result matches Ok(snapshot) ==> snapshot@ == decoded(bin@) && snapshot.well_formed(),
            result matches Ok(snapshot) ==> (bin@.len() == SMALLER_LEN ==> {
                &&& snapshot.snapshot_type == SnapshotType::Snapshot48
                &&& snapshot.banks@.len() == 3
                &&& snapshot.mapping@ == seq![0u8, 1u8, 2u8]
            }),
            result matches Ok(snapshot) ==> (bin@.len() > SMALLER_LEN ==> {
                &&& snapshot.snapshot_type == SnapshotType::Snapshot128
                &&& snapshot.banks@.len() == 8
                &&& snapshot.mapping@ == seq![5u8, 2u8, (extension_of(bin@).x7ffd & 0x07)]
            }),
            bin@.len() == SMALLER_LEN ==> result is Ok,
            bin@.len() < SMALLER_LEN ==> result is Err,
    {
        let bytes = bin.as_slice();
        if bytes.len() < SMALLER_LEN {
            return Err(DecodeError::TruncatedInput);
        }
        let header = SnapshotHeader::read(bytes);
        if bytes.len() == SMALLER_LEN {
            Ok(decode_smaller(bytes, header))
        } else {
            proof {
                lemma_selected_bank_bits(extension_of(bin@).x7ffd);
            }
            let result = decode_larger(bytes, header);
            assert(result matches Ok(snapshot) ==> snapshot.mapping@ =~= seq![
                5u8,
                2u8,
                (extension_of(bin@).x7ffd & 0x07),
            ]);
            result
        }
    }
}

/// `try_from` promises a snapshot with a given model, not a given value:
/// its contract is stated on `try_from` itself, over `decoded`.
impl vstd::std_specs::convert::TryFromSpecImpl<Vec<u8>> for Snapshot {
    open spec fn obeys_try_from_spec() -> bool {
        false
    }

    open spec fn try_from_spec(bin: Vec<u8>) -> Result<Self, DecodeError> {
        arbitrary()
    }
}

} // verus!
