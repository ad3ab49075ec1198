// Whole snapshot images, built in memory with known sums per bank, are
// decoded and then read back through both views of the memory.

use rand::Rng;
use zx_sna::{Snapshot, SnapshotType};

const BANK: usize = 0x4000;
const HEADER: usize = 27;

/// A bank whose bytes add up to `sum`: as many 0xFF as fit, one byte for
/// what is left, spread over the bank from its end.
fn bank_with_sum(sum: u16) -> Vec<u8> {
    let mut bank: Vec<u8> = vec![0u8; BANK];
    let full: usize = (sum / 255) as usize;
    let rest: u8 = (sum % 255) as u8;
    let mut at: usize = BANK - 1;
    for _ in 0..full {
        bank[at] = 0xFF;
        at -= 3;
    }
    bank[at] = rest;
    bank
}

fn header_bytes() -> Vec<u8> {
    let mut header: Vec<u8> = Vec::new();
    for i in 0..HEADER {
        header.push((i as u8).wrapping_mul(7).wrapping_add(1));
    }
    header
}

/// The image of a 48K machine whose three banks have the given sums.
fn image_48k(sums: [u16; 3]) -> Vec<u8> {
    let mut image: Vec<u8> = header_bytes();
    for sum in sums {
        image.extend_from_slice(&bank_with_sum(sum));
    }
    image
}

/// The image of a 128K machine whose eight banks have the given sums, taken
/// while `control` was the paging-control byte (its paged bank being neither
/// bank 5 nor bank 2).
fn image_128k(sums: [u16; 8], control: u8) -> Vec<u8> {
    let paged: usize = (control & 0x07) as usize;
    assert!(paged != 5 && paged != 2);
    let mut image: Vec<u8> = header_bytes();
    image.extend_from_slice(&bank_with_sum(sums[5]));
    image.extend_from_slice(&bank_with_sum(sums[2]));
    image.extend_from_slice(&bank_with_sum(sums[paged]));
    image.extend_from_slice(&[0x34, 0x12, control, 0x00]);
    for bank in [0usize, 1, 3, 4, 6, 7] {
        if bank != paged {
            image.extend_from_slice(&bank_with_sum(sums[bank]));
        }
    }
    image
}

const SUMS_128K: [u16; 8] = [12174, 0, 0, 0, 0, 46342, 0, 10827];

#[test]
fn test_48k_file() {
    let expected: [u16; 3] = [59066, 0, 11458];
    let image = image_48k(expected);
    assert_eq!(image.len(), 49179);
    let snapshot = Snapshot::try_from(image).expect("Failed to parse snapshot");
    assert_eq!(snapshot.snapshot_type, SnapshotType::Snapshot48);
    assert_eq!(snapshot.banks.len(), 3);
    assert_eq!(snapshot.mapping, [0, 1, 2]);
    for bank in 0..3 {
        let checksum = snapshot.checksum(bank);
        assert_eq!(checksum, expected[bank], "Checksum for bank {} is incorrect expected {}, got {}", bank, expected[bank], checksum);
    }
}

#[test]
fn test_128k_file() {
    let expected: [u16; 8] = [12174, 0, 0, 0, 0, 46342, 0, 10827];
    let image = image_128k(expected, 0x10);
    assert_eq!(image.len(), 131103);
    let snapshot = Snapshot::try_from(image).expect("Failed to parse snapshot");
    assert_eq!(snapshot.snapshot_type, SnapshotType::Snapshot128, "Snapshot type is not Snapshot128");
    assert_eq!(snapshot.banks.len(), 8);
    assert_eq!(snapshot.mapping, [5, 2, 0]);
    for bank in 0..=7 {
        let checksum = snapshot.checksum(bank);
        assert_eq!(checksum, expected[bank], "Checksum for bank {} is incorrect expected {}, got {}", bank, expected[bank], checksum);
    }
}

#[test]
fn test_128k_file_with_another_bank_paged() {
    let image = image_128k(SUMS_128K, 0x07);
    let snapshot = Snapshot::try_from(image).expect("Failed to parse snapshot");
    assert_eq!(snapshot.mapping, [5, 2, 7]);
    for bank in 0..=7 {
        assert_eq!(snapshot.checksum(bank), SUMS_128K[bank]);
    }
}

#[test]
fn test_port_7ffd() {
    let expected: [u16; 8] = [12174, 0, 0, 0, 0, 46342, 0, 10827];
    let mut snapshot = Snapshot::try_from(image_128k(expected, 0x10)).expect("Failed to parse snapshot");
    assert_eq!(snapshot.snapshot_type, SnapshotType::Snapshot128, "Snapshot type is not Snapshot128");
    for bank in 0..=7 {
        snapshot.write_0x7ffd(bank as u8);
        let checksum = snapshot.checksum(bank);
        assert_eq!(checksum, expected[bank], "Checksum for bank {} is incorrect expected {}, got {}", bank, expected[bank], checksum);
        let mapped_checksum = {
            let mut sum: u16 = 0;
            for i in 0xC000..=0xFFFF {
                sum = sum.wrapping_add(snapshot.peek(i) as u16);
            }
            sum
        };
        assert_eq!(checksum, mapped_checksum, "Checksum for bank {} is incorrect expected {}, got {}", bank, mapped_checksum, checksum);
    }
}

#[test]
fn test_bank_peek() {
    let mut rng = rand::rng();
    let mut snapshot = Snapshot::try_from(image_128k(SUMS_128K, 0x10)).expect("Failed to parse snapshot");

    assert_eq!(snapshot.snapshot_type, SnapshotType::Snapshot128, "Snapshot type is not Snapshot128");
    for bank in 0..=7 {
        let mut mapped_checksum: u16 = 0;
        snapshot.write_0x7ffd(bank as u8);
        for i in 0xC000..=0xFFFF {
            let random_number: u8 = rng.random();
            snapshot.poke(i, random_number);
            mapped_checksum = mapped_checksum.wrapping_add(random_number as u16);
        }

        let mut bank_checksum: u16 = 0;
        for i in 0..=0x3FFF {
            let value = snapshot.bank_peek(bank, i);
            bank_checksum = bank_checksum.wrapping_add(value as u16);
        }

        assert_eq!(bank_checksum, mapped_checksum, "Banked checksum for bank {} is incorrect expected {}, got {}", bank, mapped_checksum, bank_checksum);
    }
}

#[test]
fn test_bank_poke() {
    let mut rng = rand::rng();
    let mut snapshot = Snapshot::try_from(image_128k(SUMS_128K, 0x10)).expect("Failed to parse snapshot");

    assert_eq!(snapshot.snapshot_type, SnapshotType::Snapshot128, "Snapshot type is not Snapshot128");
    for bank in 0..=7 {
        let mut bank_checksum: u16 = 0;
        for i in 0..=0x3FFF {
            let random_number: u8 = rng.random();
            snapshot.bank_poke(bank, i, random_number);
            bank_checksum = bank_checksum.wrapping_add(random_number as u16);
        }

        let mut mapped_checksum: u16 = 0;
        snapshot.write_0x7ffd(bank as u8);
        for i in 0xC000..=0xFFFF {
            let value = snapshot.peek(i);
            mapped_checksum = mapped_checksum.wrapping_add(value as u16);
        }

        assert_eq!(bank_checksum, mapped_checksum, "Banked checksum for bank {} is incorrect expected {}, got {}", bank, mapped_checksum, bank_checksum);
    }
}

#[test]
fn paged_window_shows_each_bank_byte_for_byte() {
    let mut snapshot = Snapshot::try_from(image_128k(SUMS_128K, 0x10)).expect("Failed to parse snapshot");
    for control in 0u8..=7 {
        snapshot.write_0x7ffd(control);
        assert_eq!(snapshot.mapping[2], control);
        let shown: usize = snapshot.mapping[2] as usize;
        for address in 0xC000u16..=0xFFFF {
            assert_eq!(snapshot.peek(address), snapshot.bank_peek(shown, address & 0x3FFF));
        }
    }
}

#[test]
fn lower_windows_show_their_fixed_banks() {
    let mut snapshot = Snapshot::try_from(image_128k(SUMS_128K, 0x10)).expect("Failed to parse snapshot");
    for control in 0u8..=7 {
        snapshot.write_0x7ffd(control);
        for address in 0x4000u16..=0x7FFF {
            assert_eq!(snapshot.peek(address), snapshot.bank_peek(5, address & 0x3FFF));
        }
        for address in 0x8000u16..=0xBFFF {
            assert_eq!(snapshot.peek(address), snapshot.bank_peek(2, address & 0x3FFF));
        }
    }
    let small = Snapshot::try_from(image_48k([59066, 0, 11458])).expect("Failed to parse snapshot");
    for address in 0x4000u16..=0xFFFF {
        let bank: usize = (address >> 14) as usize - 1;
        assert_eq!(small.peek(address), small.bank_peek(bank, address & 0x3FFF));
    }
}
