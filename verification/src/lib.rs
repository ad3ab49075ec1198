//! Snapshots of an 8-bit home computer: the processor's registers and the
//! contents of its RAM, decoded from the fixed binary layout in which they are
//! stored, and the machine's paged memory on top of the decoded banks.
//!
//! A snapshot is decoded once from a byte buffer (`Snapshot::try_from`). From
//! then on its memory is read and written either by logical address, through
//! a page table of three slots, or bank by bank. Every operation has a
//! contract over [`SnapshotView`], the mathematical model of a snapshot, and
//! the module `laws` proves what the two ways of addressing owe each other.

pub mod decode;
pub mod laws;
pub mod layout;
pub mod memory;
pub mod registers;
pub mod snapshot;

pub use decode::DecodeError;
pub use registers::{SnapshotExtension, SnapshotHeader, SnapshotType};
pub use snapshot::{Snapshot, SnapshotView};
