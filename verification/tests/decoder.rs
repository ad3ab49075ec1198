// The decoder: which buffers it takes, and where each byte of a buffer goes.

use zx_sna::{DecodeError, Snapshot, SnapshotExtension, SnapshotHeader, SnapshotType};

const BANK: usize = 0x4000;
const SMALLER: usize = 27 + 3 * BANK;
const LARGER: usize = SMALLER + 4 + 5 * BANK;
const LARGEST: usize = SMALLER + 4 + 6 * BANK;

/// A buffer whose byte at each position is told by the position, so that two
/// chunks never look alike.
fn patterned(len: usize) -> Vec<u8> {
    let mut bytes: Vec<u8> = Vec::with_capacity(len);
    for i in 0..len {
        bytes.push(((i * 31 + i / BANK * 7 + 5) % 251) as u8);
    }
    bytes
}

fn patterned_larger(len: usize, control: u8) -> Vec<u8> {
    let mut bytes: Vec<u8> = patterned(len);
    bytes[SMALLER + 2] = control;
    bytes
}

#[test]
fn empty_buffer_is_truncated() {
    let result = Snapshot::try_from(Vec::new());
    assert_eq!(result.unwrap_err(), DecodeError::TruncatedInput);
}

#[test]
fn buffer_one_byte_short_of_smaller_is_truncated() {
    let result = Snapshot::try_from(patterned(SMALLER - 1));
    assert_eq!(result.unwrap_err(), DecodeError::TruncatedInput);
}

#[test]
fn header_alone_is_truncated() {
    let result = Snapshot::try_from(patterned(27));
    assert!(matches!(result, Err(DecodeError::TruncatedInput)));
}

#[test]
fn smaller_buffer_decodes_to_three_banks() {
    let bytes = patterned(SMALLER);
    let snapshot = Snapshot::try_from(bytes.clone()).unwrap();
    assert_eq!(snapshot.snapshot_type, SnapshotType::Snapshot48);
    assert!(snapshot.extension.is_none());
    assert_eq!(snapshot.mapping, [0, 1, 2]);
    assert_eq!(snapshot.banks.len(), 3);
    for bank in 0..3 {
        assert_eq!(snapshot.banks[bank].len(), BANK);
        assert_eq!(snapshot.banks[bank][..], bytes[27 + bank * BANK..27 + (bank + 1) * BANK]);
    }
    assert!(snapshot.is_well_formed());
}

#[test]
fn smaller_ram_is_the_image_of_the_buffer() {
    let bytes = patterned(SMALLER);
    let snapshot = Snapshot::try_from(bytes.clone()).unwrap();
    for address in 0x4000u16..=0xFFFF {
        assert_eq!(snapshot.peek(address), bytes[27 + (address as usize - 0x4000)]);
    }
}

#[test]
fn header_fields_are_read_low_byte_first() {
    let mut bytes: Vec<u8> = vec![0u8; SMALLER];
    let head: [u8; 27] = [
        0x3F, 0x01, 0x02, 0x03, 0x04, 0x05, 0x06, 0x07, 0x08, 0x09, 0x0A, 0x0B, 0x0C, 0x0D, 0x0E,
        0x0F, 0x10, 0x11, 0x12, 0x04, 0x7E, 0x13, 0x14, 0xFE, 0xFF, 0x01, 0x07,
    ];
    bytes[..27].copy_from_slice(&head);
    let snapshot = Snapshot::try_from(bytes).unwrap();
    let expected = SnapshotHeader {
        i: 0x3F,
        hl_prime: 0x0201,
        de_prime: 0x0403,
        bc_prime: 0x0605,
        af_prime: 0x0807,
        hl: 0x0A09,
        de: 0x0C0B,
        bc: 0x0E0D,
        iy: 0x100F,
        ix: 0x1211,
        interrupt: 0x04,
        r: 0x7E,
        af: 0x1413,
        sp: 0xFFFE,
        int_mode: 0x01,
        border_color: 0x07,
    };
    assert_eq!(snapshot.header, expected);
}

#[test]
fn buffer_one_byte_over_smaller_is_a_truncated_larger_one() {
    let result = Snapshot::try_from(patterned(SMALLER + 1));
    assert_eq!(result.unwrap_err(), DecodeError::TruncatedInput);
}

#[test]
fn larger_buffer_without_its_last_byte_is_truncated() {
    let result = Snapshot::try_from(patterned_larger(LARGER - 1, 0x00));
    assert_eq!(result.unwrap_err(), DecodeError::TruncatedInput);
}

#[test]
fn larger_buffer_decodes_to_eight_banks() {
    let bytes = patterned_larger(LARGER, 0x13);
    let snapshot = Snapshot::try_from(bytes.clone()).unwrap();
    assert_eq!(snapshot.snapshot_type, SnapshotType::Snapshot128);
    assert_eq!(snapshot.mapping, [5, 2, 3]);
    assert_eq!(snapshot.banks.len(), 8);
    let extension = SnapshotExtension {
        pc: (bytes[SMALLER] as u16) | ((bytes[SMALLER + 1] as u16) << 8),
        x7ffd: 0x13,
        tr_dos: bytes[SMALLER + 3],
    };
    assert_eq!(snapshot.extension, Some(extension));
    assert_eq!(snapshot.banks[5][..], bytes[27..27 + BANK]);
    assert_eq!(snapshot.banks[2][..], bytes[27 + BANK..27 + 2 * BANK]);
    assert_eq!(snapshot.banks[3][..], bytes[27 + 2 * BANK..27 + 3 * BANK]);
    let spare: [usize; 5] = [0, 1, 4, 6, 7];
    let mut start: usize = SMALLER + 4;
    for bank in spare {
        assert_eq!(snapshot.banks[bank][..], bytes[start..start + BANK]);
        start += BANK;
    }
    assert!(snapshot.is_well_formed());
}

#[test]
fn page_table_follows_the_low_bits_of_the_control_byte() {
    for control in [0x00u8, 0x01, 0x03, 0x04, 0x06, 0x07, 0x10, 0x1F, 0xF8, 0xFE] {
        let paged: u8 = control & 0x07;
        let snapshot = Snapshot::try_from(patterned_larger(LARGER, control)).unwrap();
        assert_eq!(snapshot.mapping, [5, 2, paged]);
        assert_eq!(snapshot.extension.unwrap().x7ffd, control);
    }
}

#[test]
fn spare_banks_are_filled_in_ascending_order() {
    for paged in [0usize, 1, 3, 4, 6, 7] {
        let bytes = patterned_larger(LARGER, paged as u8);
        let snapshot = Snapshot::try_from(bytes.clone()).unwrap();
        let mut start: usize = SMALLER + 4;
        for bank in [0usize, 1, 3, 4, 6, 7] {
            if bank != paged {
                assert_eq!(snapshot.banks[bank][..], bytes[start..start + BANK]);
                start += BANK;
            }
        }
        assert_eq!(start, LARGER);
        assert_eq!(snapshot.banks[paged][..], bytes[27 + 2 * BANK..27 + 3 * BANK]);
    }
}

#[test]
fn paged_bank_five_takes_the_third_chunk_and_six_banks_follow() {
    let bytes = patterned_larger(LARGEST, 0x05);
    let snapshot = Snapshot::try_from(bytes.clone()).unwrap();
    assert_eq!(snapshot.mapping, [5, 2, 5]);
    assert_eq!(snapshot.banks[5][..], bytes[27 + 2 * BANK..27 + 3 * BANK]);
    assert_eq!(snapshot.banks[2][..], bytes[27 + BANK..27 + 2 * BANK]);
    let mut start: usize = SMALLER + 4;
    for bank in [0usize, 1, 3, 4, 6, 7] {
        assert_eq!(snapshot.banks[bank][..], bytes[start..start + BANK]);
        start += BANK;
    }
    assert_eq!(start, LARGEST);
}

#[test]
fn paged_bank_two_takes_the_third_chunk_and_six_banks_follow() {
    let bytes = patterned_larger(LARGEST, 0x02);
    let snapshot = Snapshot::try_from(bytes.clone()).unwrap();
    assert_eq!(snapshot.mapping, [5, 2, 2]);
    assert_eq!(snapshot.banks[5][..], bytes[27..27 + BANK]);
    assert_eq!(snapshot.banks[2][..], bytes[27 + 2 * BANK..27 + 3 * BANK]);
    assert_eq!(snapshot.banks[7][..], bytes[LARGEST - BANK..LARGEST]);
}

#[test]
fn paged_bank_five_with_five_banks_following_is_truncated() {
    let result = Snapshot::try_from(patterned_larger(LARGER, 0x05));
    assert_eq!(result.unwrap_err(), DecodeError::TruncatedInput);
    let result = Snapshot::try_from(patterned_larger(LARGEST - 1, 0x02));
    assert_eq!(result.unwrap_err(), DecodeError::TruncatedInput);
}

#[test]
fn bytes_beyond_the_last_bank_are_ignored() {
    let short = Snapshot::try_from(patterned_larger(LARGER, 0x00)).unwrap();
    let long = Snapshot::try_from(patterned_larger(LARGER + 100, 0x00)).unwrap();
    assert_eq!(short.banks, long.banks);
    assert_eq!(short.mapping, long.mapping);
    assert_eq!(short.header, long.header);
}

#[test]
fn larger_top_window_shows_the_third_chunk() {
    for control in 0u8..=7 {
        let len: usize = if control == 5 || control == 2 { LARGEST } else { LARGER };
        let bytes = patterned_larger(len, control);
        let snapshot = Snapshot::try_from(bytes.clone()).unwrap();
        for address in 0xC000u16..=0xFFFF {
            assert_eq!(snapshot.peek(address), bytes[27 + (address as usize - 0x4000)]);
        }
    }
}

#[test]
fn default_is_a_blank_machine_in_the_smaller_format() {
    let snapshot = Snapshot::default();
    assert_eq!(snapshot.snapshot_type, SnapshotType::Snapshot48);
    assert_eq!(snapshot.header, SnapshotHeader::default());
    assert_eq!(snapshot.header.sp, 0);
    assert!(snapshot.extension.is_none());
    assert_eq!(snapshot.mapping, [0, 1, 2]);
    assert_eq!(snapshot.banks, vec![vec![0u8; BANK]; 3]);
    assert!(snapshot.is_well_formed());
    let decoded = Snapshot::try_from(vec![0u8; SMALLER]).unwrap();
    assert_eq!(snapshot.banks, decoded.banks);
    assert_eq!(snapshot.header, decoded.header);
}
