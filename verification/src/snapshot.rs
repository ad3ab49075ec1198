//! The snapshot itself, its mathematical model and its invariant.

use vstd::prelude::*;
use crate::layout::{
    lemma_selected_bank_bits, selected_bank, BANK_SIZE, LARGER_BANKS, SLOTS, SMALLER_BANKS,
};
use crate::registers::{zeroed_header, SnapshotExtension, SnapshotHeader, SnapshotType};

verus! {

/// The state of a machine: its registers, its banks of RAM and the page
/// table that maps the logical address space onto three of the banks.
///
/// The fields are public, so that a consumer can read and set the registers.
/// The memory operations ask for a snapshot that is `well_formed`; decoding
/// yields one and every operation keeps it so. Code that changes `banks`,
/// `mapping`, `extension` or `snapshot_type` by hand can test the invariant
/// with `is_well_formed`.
#[derive(Debug)]
pub struct Snapshot {
    /// The format that the snapshot was decoded from.
    pub snapshot_type: SnapshotType,
    /// The processor's registers.
    pub header: SnapshotHeader,
    /// The paging state; present exactly in the larger format.
    pub extension: Option<SnapshotExtension>,
    /// The banks of RAM, `BANK_SIZE` bytes each.
    pub banks: Vec<Vec<u8>>,
    /// The page table: the bank that each of the three slots shows.
    pub mapping: [u8; 3],
}

/// The mathematical model of a `Snapshot`: the same registers, the banks as
/// sequences of bytes and the page table as a sequence of bank indices.
#[verifier::ext_equal]
pub struct SnapshotView {
    pub snapshot_type: SnapshotType,
    pub header: SnapshotHeader,
    pub extension: Option<SnapshotExtension>,
    pub banks: Seq<Seq<u8>>,
    pub mapping: Seq<u8>,
}

impl SnapshotView {
    /// The invariant of a snapshot. Every bank holds `BANK_SIZE` bytes. The
    /// smaller format has three banks, no extension and the page table
    /// [0, 1, 2]. The larger format has eight banks and an extension; its
    /// page table shows banks 5 and 2 in the two lower slots and, in slot 2,
    /// the bank that the paging-control byte selects. So every slot holds the
    /// index of a bank.
    pub open spec fn well_formed(self) -> bool {
        &&& self.mapping.len() == SLOTS
        &&& forall|bank: int|
            0 <= bank < self.banks.len() ==> (#[trigger] self.banks[bank]).len() == BANK_SIZE
        &&& match self.snapshot_type {
            SnapshotType::Snapshot48 => {
                &&& self.banks.len() == SMALLER_BANKS
                &&& self.extension is None
                &&& self.mapping[0] == 0
                &&& self.mapping[1] == 1
                &&& self.mapping[2] == 2
            },
            SnapshotType::Snapshot128 => {
                &&& self.banks.len() == LARGER_BANKS
                &&& self.extension matches Some(extension)
                &&& self.mapping[0] == 5
                &&& self.mapping[1] == 2
                &&& self.mapping[2] == selected_bank(extension.x7ffd)
            },
        }
    }

    /// The snapshot of a machine in the smaller format whose registers and
    /// RAM are all zero.
    pub open spec fn blank() -> SnapshotView {
        SnapshotView {
            snapshot_type: SnapshotType::Snapshot48,
            header: zeroed_header(),
            extension: None,
            banks: Seq::new(SMALLER_BANKS as nat, |bank: int| Seq::new(BANK_SIZE as nat, |i: int| 0u8)),
            mapping: seq![0u8, 1u8, 2u8],
        }
    }
}

/// The contents of the banks as sequences of bytes.
pub open spec fn banks_view(banks: Vec<Vec<u8>>) -> Seq<Seq<u8>> {
    Seq::new(banks@.len(), |bank: int| banks@[bank]@)
}

impl View for Snapshot {
    type V = SnapshotView;

    open spec fn view(&self) -> SnapshotView {
        SnapshotView {
            snapshot_type: self.snapshot_type,
            header: self.header,
            extension: self.extension,
            banks: banks_view(self.banks),
            mapping: self.mapping@,
        }
    }
}

impl Snapshot {
    /// The invariant of a snapshot, stated on its model.
    pub open spec fn well_formed(&self) -> bool {
        self@.well_formed()
    }

    /// Tests the invariant at run time.
    pub fn is_well_formed(&self) -> (ok: bool)
        ensures
            ok == self.well_formed(),
    {
        let mut bank: usize = 0;
        while bank < self.banks.len()
            invariant
                bank <= self.banks@.len(),
                forall|k: int| 0 <= k < bank ==> (#[trigger] self.banks@[k])@.len() == BANK_SIZE,
            decreases self.banks@.len() - bank,
        {
            if self.banks[bank].len() != BANK_SIZE {
                assert(self@.banks[bank as int].len() != BANK_SIZE);
                return false;
            }
            bank += 1;
        }
        assert forall|k: int| 0 <= k < self@.banks.len() implies (#[trigger] self@.banks[k]).len()
            == BANK_SIZE by {
            assert(self.banks@[k]@.len() == BANK_SIZE);
        }
        match self.snapshot_type {
            SnapshotType::Snapshot48 => {
                self.banks.len() == SMALLER_BANKS && self.extension.is_none() && self.mapping[0]
                    == 0 && self.mapping[1] == 1 && self.mapping[2] == 2
            },
            SnapshotType::Snapshot128 => {
                match &self.extension {
                    Some(extension) => {
                        proof {
                            lemma_selected_bank_bits(extension.x7ffd);
                        }
                        self.banks.len() == LARGER_BANKS && self.mapping[0] == 5
                            && self.mapping[1] == 2 && self.mapping[2] == extension.x7ffd & 0x07
                    },
                    None => false,
                }
            },
        }
    }
}

impl Default for Snapshot {
    /// A machine in the smaller format with every register and every byte of
    /// RAM zero.
    fn default() -> (snapshot: Self)
        ensures
            snapshot@ == SnapshotView::blank(),
            snapshot.well_formed(),
    {
        let mut banks: Vec<Vec<u8>> = Vec::new();
        banks.push(vec![0u8; BANK_SIZE]);
        banks.push(vec![0u8; BANK_SIZE]);
        banks.push(vec![0u8; BANK_SIZE]);
        let snapshot = Snapshot {
            snapshot_type: SnapshotType::Snapshot48,
            header: SnapshotHeader::default(),
            extension: None,
            banks,
            mapping: [0, 1, 2],
        };
        assert(snapshot@ =~~= SnapshotView::blank());
        snapshot
    }
}

} // verus!
