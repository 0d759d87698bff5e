use rtpeeker::crc::crc32;
use rtpeeker::pat::{FragmentaryProgramAssociationTable, ProgramAssociationItem, ProgramAssociationTable};
use rtpeeker::pat_buffer::PatBuffer;
use rtpeeker::pmt::ProgramMapTable;

fn section_zero() -> Vec<u8> {
    vec![
        0x00, 0x00, 0xb0, 0x15, 0x00, 0x07, 0xc3, 0x00, 0x01, 0x00, 0x01, 0xe1, 0x00, 0x00, 0x02,
        0xe2, 0x00,
    ]
}

fn section_one() -> Vec<u8> {
    vec![
        0x00, 0xb0, 0x15, 0x00, 0x07, 0xc3, 0x01, 0x01, 0x00, 0x00, 0xe0, 0x10, 0x29, 0x6b, 0x7a,
        0xe8, 0xff, 0xff, 0xff, 0xff,
    ]
}

fn expected_table() -> ProgramAssociationTable {
    ProgramAssociationTable {
        transport_stream_id: 7,
        programs: vec![
            ProgramAssociationItem { program_number: 1, network_pid: None, program_map_pid: Some(0x100) },
            ProgramAssociationItem { program_number: 2, network_pid: None, program_map_pid: Some(0x200) },
            ProgramAssociationItem { program_number: 0, network_pid: Some(0x10), program_map_pid: None },
        ],
        crc_32: 0x296b7ae8,
    }
}

#[test]
fn two_sections_out_of_order_build_the_same_table() {
    let f0 = FragmentaryProgramAssociationTable::unmarshall(&section_zero(), true).unwrap();
    let f1 = FragmentaryProgramAssociationTable::unmarshall(&section_one(), false).unwrap();
    assert_eq!(f0.header.last_section_number, 1);
    assert_eq!(f0.header.version_number, 1);

    let mut in_order = PatBuffer::new(1);
    in_order.add_fragment(f0.clone());
    assert!(!in_order.is_complete());
    assert_eq!(in_order.build(), None);
    in_order.add_fragment(f1.clone());

    let mut reversed = PatBuffer::new(1);
    reversed.add_fragment(f1);
    assert!(!reversed.is_complete());
    reversed.add_fragment(f0);

    assert!(in_order.is_complete());
    assert!(reversed.is_complete());
    assert_eq!(in_order.build(), Some(expected_table()));
    assert_eq!(reversed.build(), in_order.build());
}

#[test]
fn duplicate_section_overwrites_instead_of_completing() {
    let f0 = FragmentaryProgramAssociationTable::unmarshall(&section_zero(), true).unwrap();
    let mut buffer = PatBuffer::new(1);
    buffer.add_fragment(f0.clone());
    buffer.add_fragment(f0);
    assert!(!buffer.is_complete());
    assert_eq!(buffer.build(), None);
}

#[test]
fn new_version_discards_earlier_fragments() {
    let f0 = FragmentaryProgramAssociationTable::unmarshall(&section_zero(), true).unwrap();
    let f1 = FragmentaryProgramAssociationTable::unmarshall(&section_one(), false).unwrap();
    // same section 1, but version 2
    let mut newer_bytes = section_one();
    newer_bytes[5] = 0xc5;
    let newer = FragmentaryProgramAssociationTable::unmarshall(&newer_bytes, false).unwrap();
    assert_eq!(newer.header.version_number, 2);

    let mut buffer = PatBuffer::new(1);
    buffer.add_fragment(f0);
    buffer.add_fragment(newer);
    assert_eq!(buffer.version_number(), Some(2));
    assert!(!buffer.is_complete());
    let slots = buffer.get_fragments();
    assert!(slots[0].is_none());
    assert!(slots[1].is_some());

    // the old version's section 1 resets the buffer again
    buffer.add_fragment(f1);
    assert_eq!(buffer.version_number(), Some(1));
    assert!(!buffer.is_complete());
}

#[test]
fn every_single_bit_flip_is_rejected() {
    let f0 = FragmentaryProgramAssociationTable::unmarshall(&section_zero(), true).unwrap();
    let f1 = FragmentaryProgramAssociationTable::unmarshall(&section_one(), false).unwrap();
    let mut buffer = PatBuffer::new(1);
    buffer.add_fragment(f0);
    buffer.add_fragment(f1);
    let section = buffer.assemble();
    assert_eq!(section.len(), 24);
    assert!(ProgramAssociationTable::build(&section).is_some());
    for i in 0..section.len() {
        for bit in 0..8 {
            let mut corrupted = section.clone();
            corrupted[i] ^= 1 << bit;
            assert_eq!(ProgramAssociationTable::build(&corrupted), None, "byte {} bit {}", i, bit);
        }
    }
}

#[test]
fn crc_of_known_section() {
    let section = [0x00, 0xb0, 0x0d, 0x00, 0x03, 0xdf, 0x00, 0x00, 0x00, 0x23, 0xed, 0xad];
    assert_eq!(crc32(&section), 0x5ae97dda);
    let mut whole = section.to_vec();
    whole.extend_from_slice(&[0x5a, 0xe9, 0x7d, 0xda]);
    assert_eq!(crc32(&whole), 0);
    assert_eq!(crc32(&[]), 0xFFFF_FFFF);
}

#[test]
fn fragment_too_short_is_refused() {
    assert!(FragmentaryProgramAssociationTable::unmarshall(&[], true).is_none());
    assert!(FragmentaryProgramAssociationTable::unmarshall(&[0x00, 0x00, 0xb0], true).is_none());
    // pointer field pointing past the data
    assert!(FragmentaryProgramAssociationTable::unmarshall(&[0x20, 0x00, 0xb0, 0x0d, 0, 3, 0xdf, 0, 0], true).is_none());
    // section_length too small to hold the header
    assert!(FragmentaryProgramAssociationTable::unmarshall(&[0x00, 0xb0, 0x02, 0, 3, 0xdf, 0, 0, 1, 2], false).is_none());
}

#[test]
fn table_with_wrong_table_id_or_length_is_refused() {
    let mut section = vec![0x00, 0xb0, 0x0d, 0x00, 0x03, 0xdf, 0x00, 0x00, 0x00, 0x23, 0xed, 0xad, 0x5a, 0xe9, 0x7d, 0xda];
    assert!(ProgramAssociationTable::unmarshall(&section).is_some());
    section[0] = 0x02;
    assert!(ProgramAssociationTable::unmarshall(&section).is_none());
    section[0] = 0x00;
    section.push(0x01);
    assert!(ProgramAssociationTable::unmarshall(&section).is_none());
    assert!(ProgramAssociationTable::unmarshall(&section[..11]).is_none());
}

#[test]
fn program_map_section() {
    let pmt = [
        0x02, 0xb0, 0x15, 0x00, 0x23, 0xc1, 0x00, 0x00, 0xe1, 0x01, 0xf0, 0x00, 0x1b, 0xe1, 0x01, 0xf0,
        0x03, 0x0a, 0x01, 0x02, 0x86, 0x45, 0xfe, 0x74,
    ];
    let t = ProgramMapTable::build(&pmt).unwrap();
    assert_eq!(t.program_number, 0x23);
    assert_eq!(t.program_info, Vec::<u8>::new());
    assert_eq!(t.elementary_streams_info.len(), 1);
    assert_eq!(t.elementary_streams_info[0].elementary_pid, 0x101);
    let mut bad = pmt;
    bad[13] ^= 0x04;
    assert!(ProgramMapTable::build(&bad).is_none());
    assert!(ProgramMapTable::unmarshall(&bad).is_some());
    // descriptor length running past the stream loop
    let mut long = pmt;
    long[16] = 0x09;
    assert!(ProgramMapTable::unmarshall(&long).is_none());
    assert!(ProgramMapTable::unmarshall(&pmt[..15]).is_none());
}
