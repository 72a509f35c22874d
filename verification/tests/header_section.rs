use rust_tdf::entry::{COMMENT_SIZE, ENTRY_SIZE};
use rust_tdf::header::{expect_magic, HEADER_SIZE, MAGIC};
use rust_tdf::{
    TdfBlockType, TdfError, TdfFormat, TdfHeader, TdfHeaderInfo, TdfJumptableEntry, TimeT,
};

fn preamble(version: u32, n_entries: i32, dates: [u32; 3]) -> Vec<u8> {
    let mut b = vec![
        0x82, 0x4b, 0x60, 0x41, 0xd3, 0x11, 0x84, 0xca, 0x60, 0x00, 0xb6, 0xac, 0x16, 0x68, 0x0c,
        0x08,
    ];
    b.extend_from_slice(&version.to_be_bytes());
    b.extend_from_slice(&n_entries.to_be_bytes());
    b.extend_from_slice(&[0u8; 8]);
    for date in dates {
        b.extend_from_slice(&date.to_be_bytes());
    }
    b.extend_from_slice(&[0u8; 20]);
    b
}

fn record(block: u32, format: u32, offset: i32, size: i32, dates: [u32; 3], fill: u8) -> Vec<u8> {
    let mut b = Vec::new();
    b.extend_from_slice(&block.to_be_bytes());
    b.extend_from_slice(&format.to_be_bytes());
    b.extend_from_slice(&offset.to_be_bytes());
    b.extend_from_slice(&size.to_be_bytes());
    for date in dates {
        b.extend_from_slice(&date.to_be_bytes());
    }
    b.extend_from_slice(&[0u8; 4]);
    b.extend_from_slice(&[fill; 256]);
    b
}

fn every_byte() -> [u8; 256] {
    let mut comment = [0u8; 256];
    for (i, byte) in comment.iter_mut().enumerate() {
        *byte = (255 - i) as u8;
    }
    comment
}

fn sample_entry(block_type: TdfBlockType, raw: u32, comment: [u8; 256]) -> TdfJumptableEntry {
    TdfJumptableEntry::new(
        block_type,
        raw,
        1024,
        -77,
        TimeT::from_timestamp(946_684_800),
        TimeT::from_timestamp(1_000_000_000),
        TimeT::from_timestamp(u32::MAX),
        comment,
    )
}

fn sample_table() -> TdfHeader {
    let header = TdfHeaderInfo::new(
        3,
        2,
        TimeT::from_timestamp(10),
        TimeT::from_timestamp(20),
        TimeT::from_timestamp(30),
    )
    .unwrap();
    let entries = vec![
        sample_entry(TdfBlockType::Data3d, 4, every_byte()),
        sample_entry(TdfBlockType::AnalogData, 0xffff_ffff, [0u8; 256]),
    ];
    TdfHeader::new(header, entries).unwrap()
}

#[test]
fn sizes_are_those_of_the_layout() {
    assert_eq!(HEADER_SIZE, 16 + 4 + 4 + 8 + 4 + 4 + 4 + 20);
    assert_eq!(HEADER_SIZE, 64);
    assert_eq!(COMMENT_SIZE, 256);
    assert_eq!(ENTRY_SIZE, 4 + 4 + 4 + 4 + 3 * 4 + 4 + 256);
    assert_eq!(
        MAGIC,
        [
            0x82, 0x4b, 0x60, 0x41, 0xd3, 0x11, 0x84, 0xca, 0x60, 0x00, 0xb6, 0xac, 0x16, 0x68,
            0x0c, 0x08
        ]
    );
}

#[test]
fn empty_table_decodes_and_encodes_to_sixty_four_bytes() {
    let input = preamble(1, 0, [0, 0, 0]);
    assert_eq!(input.len(), 64);
    let (rest, table) = TdfHeader::from_bytes(&input).unwrap();
    assert!(rest.is_empty());
    assert_eq!(table.header().version(), 1);
    assert_eq!(table.header().n_entries(), 0);
    assert_eq!(table.header().creation_date().timestamp(), 0);
    assert_eq!(table.header().last_modification_date().timestamp(), 0);
    assert_eq!(table.header().last_access_date().timestamp(), 0);
    assert!(table.entries().is_empty());

    let epoch = TimeT::from_timestamp(0);
    let expected =
        TdfHeader::new(TdfHeaderInfo::new(1, 0, epoch, epoch, epoch).unwrap(), Vec::new()).unwrap();
    assert_eq!(table, expected);

    let bytes = table.to_bytes();
    assert_eq!(bytes.len(), 64);
    assert_eq!(bytes, input);
}

#[test]
fn table_round_trips() {
    let table = sample_table();
    let bytes = table.to_bytes();
    assert_eq!(bytes.len(), 64 + 2 * 288);
    let (rest, decoded) = TdfHeader::from_bytes(&bytes).unwrap();
    assert!(rest.is_empty());
    assert_eq!(decoded, table);
    assert_eq!(decoded.to_bytes(), bytes);
}

#[test]
fn table_bytes_are_laid_out_field_by_field() {
    let bytes = sample_table().to_bytes();
    let mut expected = preamble(3, 2, [10, 20, 30]);
    let mut first = record(5, 4, 1024, -77, [946_684_800, 1_000_000_000, u32::MAX], 0);
    first.truncate(32);
    first.extend_from_slice(&every_byte());
    expected.extend_from_slice(&first);
    expected.extend_from_slice(&record(
        14,
        0xffff_ffff,
        1024,
        -77,
        [946_684_800, 1_000_000_000, u32::MAX],
        0,
    ));
    assert_eq!(bytes, expected);

    assert_eq!(&bytes[0..16], &MAGIC[..]);
    assert_eq!(&bytes[16..20], &[0, 0, 0, 3]);
    assert_eq!(&bytes[20..24], &[0, 0, 0, 2]);
    assert_eq!(&bytes[24..32], &[0u8; 8]);
    assert_eq!(&bytes[32..36], &[0, 0, 0, 10]);
    assert_eq!(&bytes[36..40], &[0, 0, 0, 20]);
    assert_eq!(&bytes[40..44], &[0, 0, 0, 30]);
    assert_eq!(&bytes[44..64], &[0u8; 20]);
    assert_eq!(&bytes[64..68], &[0, 0, 0, 5]);
    assert_eq!(&bytes[68..72], &[0, 0, 0, 4]);
    assert_eq!(&bytes[72..76], &[0, 0, 4, 0]);
    assert_eq!(&bytes[76..80], &[0xff, 0xff, 0xff, 0xb3]);
    assert_eq!(&bytes[80..84], &[0x38, 0x6d, 0x43, 0x80]);
    assert_eq!(&bytes[84..88], &[0x3b, 0x9a, 0xca, 0x00]);
    assert_eq!(&bytes[88..92], &[0xff, 0xff, 0xff, 0xff]);
    assert_eq!(&bytes[92..96], &[0, 0, 0, 0]);
    assert_eq!(&bytes[96..352], &every_byte()[..]);
    assert_eq!(&bytes[352..356], &[0, 0, 0, 14]);
}

#[test]
fn decoded_fields_are_those_on_the_wire() {
    let mut input = preamble(0x0102_0304, 2, [100, 200, 300]);
    input.extend_from_slice(&record(2, 1, 640, 12, [1, 2, 3], 0x41));
    input.extend_from_slice(&record(10, 9, -5, i32::MAX, [4, 5, 6], 0xfe));
    let (rest, table) = TdfHeader::from_bytes(&input).unwrap();
    assert!(rest.is_empty());

    let header = table.header();
    assert_eq!(header.version(), 0x0102_0304);
    assert_eq!(header.n_entries(), 2);
    assert_eq!(header.creation_date().timestamp(), 100);
    assert_eq!(header.last_modification_date().timestamp(), 200);
    assert_eq!(header.last_access_date().timestamp(), 300);
    assert_eq!(header.creation_date(), TimeT::from_timestamp(100));
    assert_eq!(header.last_access_date().utc_offset(), 0);

    let entries = table.entries();
    assert_eq!(entries.len(), 2);
    assert_eq!(entries[0].block_type(), TdfBlockType::CalibrationData);
    assert_eq!(entries[0].format(), TdfFormat::TdfCalibFormat(1));
    assert_eq!(entries[0].offset(), 640);
    assert_eq!(entries[0].size(), 12);
    assert_eq!(entries[0].creation_date().timestamp(), 1);
    assert_eq!(entries[0].last_modification_date().timestamp(), 2);
    assert_eq!(entries[0].last_access_date().timestamp(), 3);
    assert_eq!(entries[0].last_access_date(), TimeT::from_timestamp(3));
    assert_eq!(entries[0].creation_date().utc_offset(), 0);
    assert_eq!(entries[0].comment(), &[0x41u8; 256]);
    assert_eq!(entries[1].block_type(), TdfBlockType::AnthropometricData);
    assert_eq!(entries[1].format(), TdfFormat::Unclassified(9));
    assert_eq!(entries[1].offset(), -5);
    assert_eq!(entries[1].size(), i32::MAX);
    assert_eq!(entries[1].creation_date().timestamp(), 4);
    assert_eq!(entries[1].last_modification_date().timestamp(), 5);
    assert_eq!(entries[1].last_access_date().timestamp(), 6);
    assert_eq!(entries[1].comment(), &[0xfeu8; 256]);
}

#[test]
fn wrong_signature_is_refused_whatever_follows() {
    let mut input = preamble(1, 0, [0, 0, 0]);
    input[0] = 0x83;
    assert_eq!(TdfHeader::from_bytes(&input), Err(TdfError::MagicMismatch));

    let mut last = preamble(1, 0, [0, 0, 0]);
    last[15] = 0x09;
    assert_eq!(TdfHeader::from_bytes(&last), Err(TdfError::MagicMismatch));

    let mut negative = preamble(1, -1, [0, 0, 0]);
    negative[7] = 0;
    assert_eq!(TdfHeader::from_bytes(&negative), Err(TdfError::MagicMismatch));

    let mut short = preamble(1, 0, [0, 0, 0]);
    short[3] = 0;
    short.truncate(16);
    assert_eq!(TdfHeader::from_bytes(&short), Err(TdfError::MagicMismatch));

    assert_eq!(TdfHeader::from_bytes(&[0u8; 64]), Err(TdfError::MagicMismatch));
    assert_eq!(TdfHeaderInfo::read(&[0u8; 64], 0), Err(TdfError::MagicMismatch));
}

#[test]
fn signature_on_a_short_input() {
    assert_eq!(TdfHeader::from_bytes(&[]), Err(TdfError::TruncatedInput { offset: 0 }));
    assert_eq!(
        TdfHeader::from_bytes(&[0x82, 0x4b, 0x60]),
        Err(TdfError::TruncatedInput { offset: 0 })
    );
    assert_eq!(TdfHeader::from_bytes(&MAGIC[..15]), Err(TdfError::TruncatedInput { offset: 0 }));
    assert_eq!(TdfHeader::from_bytes(&[0x82, 0x4c, 0x60]), Err(TdfError::MagicMismatch));
    assert_eq!(TdfHeader::from_bytes(&[0x00]), Err(TdfError::MagicMismatch));
}

#[test]
fn signature_is_looked_for_where_told() {
    let mut input = vec![0xaa, 0xbb];
    input.extend_from_slice(&MAGIC);
    assert_eq!(expect_magic(&input, 2), Ok(()));
    assert_eq!(expect_magic(&input, 0), Err(TdfError::MagicMismatch));
    assert_eq!(expect_magic(&input, 18), Err(TdfError::TruncatedInput { offset: 18 }));
    assert_eq!(expect_magic(&input, 400), Err(TdfError::TruncatedInput { offset: 400 }));
    assert_eq!(expect_magic(&MAGIC, 0), Ok(()));
}

#[test]
fn preamble_cut_short_names_the_field() {
    let full = preamble(1, 0, [7, 8, 9]);
    for len in 0..64usize {
        let offset = match len {
            0..=15 => 0,
            16..=19 => 16,
            20..=23 => 20,
            24..=31 => 24,
            32..=35 => 32,
            36..=39 => 36,
            40..=43 => 40,
            _ => 44,
        };
        assert_eq!(
            TdfHeader::from_bytes(&full[..len]),
            Err(TdfError::TruncatedInput { offset }),
            "length {}",
            len
        );
        assert_eq!(
            TdfHeaderInfo::read(&full[..len], 0),
            Err(TdfError::TruncatedInput { offset })
        );
    }
    assert!(TdfHeaderInfo::read(&full, 0).is_ok());
}

#[test]
fn record_cut_short_names_the_field() {
    let mut full = preamble(1, 1, [7, 8, 9]);
    full.extend_from_slice(&record(16, 1, 2, 3, [4, 5, 6], 0x20));
    assert_eq!(full.len(), 64 + 288);
    for len in 0..288usize {
        let field = match len {
            0..=3 => 0,
            4..=7 => 4,
            8..=11 => 8,
            12..=15 => 12,
            16..=19 => 16,
            20..=23 => 20,
            24..=27 => 24,
            28..=31 => 28,
            _ => 32,
        };
        assert_eq!(
            TdfHeader::from_bytes(&full[..64 + len]),
            Err(TdfError::TruncatedInput { offset: 64 + field }),
            "length {}",
            len
        );
        assert_eq!(
            TdfJumptableEntry::read(&full[64..64 + len], 0),
            Err(TdfError::TruncatedInput { offset: field })
        );
    }
    assert!(TdfHeader::from_bytes(&full).is_ok());
}

#[test]
fn three_declared_two_present_is_truncated() {
    let mut input = preamble(1, 3, [0, 0, 0]);
    input.extend_from_slice(&record(4, 1, 0, 0, [0, 0, 0], 0));
    input.extend_from_slice(&record(5, 1, 0, 0, [0, 0, 0], 0));
    assert_eq!(
        TdfHeader::from_bytes(&input),
        Err(TdfError::TruncatedInput { offset: 64 + 2 * 288 })
    );

    let third = record(6, 1, 0, 0, [0, 0, 0], 0);
    input.extend_from_slice(&third[..100]);
    assert_eq!(
        TdfHeader::from_bytes(&input),
        Err(TdfError::TruncatedInput { offset: 64 + 2 * 288 + 32 })
    );

    input.extend_from_slice(&third[100..]);
    let (rest, table) = TdfHeader::from_bytes(&input).unwrap();
    assert!(rest.is_empty());
    assert_eq!(table.entries().len(), 3);
}

#[test]
fn exactly_the_declared_records_are_taken() {
    let mut input = preamble(1, 1, [0, 0, 0]);
    input.extend_from_slice(&record(4, 1, 0, 0, [0, 0, 0], 0x11));
    input.extend_from_slice(&record(5, 2, 0, 0, [0, 0, 0], 0x22));
    input.extend_from_slice(&[1, 2, 3]);
    let (rest, table) = TdfHeader::from_bytes(&input).unwrap();
    assert_eq!(table.entries().len(), 1);
    assert_eq!(table.header().n_entries(), 1);
    assert_eq!(table.entries()[0].block_type(), TdfBlockType::Data2d);
    assert_eq!(rest.len(), 288 + 3);
    assert_eq!(rest, &input[64 + 288..]);
    assert_eq!(table.to_bytes(), input[..64 + 288].to_vec());

    let none = preamble(1, 0, [0, 0, 0]);
    let mut with_tail = none.clone();
    with_tail.extend_from_slice(&[0xffu8; 10]);
    let (rest, table) = TdfHeader::from_bytes(&with_tail).unwrap();
    assert_eq!(rest, &[0xffu8; 10]);
    assert!(table.entries().is_empty());
}

#[test]
fn negative_entry_count_is_refused() {
    let input = preamble(1, -1, [0, 0, 0]);
    assert_eq!(TdfHeader::from_bytes(&input), Err(TdfError::NegativeEntryCount { count: -1 }));
    assert_eq!(
        TdfHeader::from_bytes(&input[..24]),
        Err(TdfError::NegativeEntryCount { count: -1 })
    );
    assert_eq!(
        TdfHeader::from_bytes(&input[..23]),
        Err(TdfError::TruncatedInput { offset: 20 })
    );
    let lowest = preamble(1, i32::MIN, [0, 0, 0]);
    assert_eq!(
        TdfHeaderInfo::read(&lowest, 0),
        Err(TdfError::NegativeEntryCount { count: i32::MIN })
    );
    assert_eq!(
        TdfHeaderInfo::new(1, -5, TimeT::from_timestamp(0), TimeT::from_timestamp(0), TimeT::from_timestamp(0)),
        Err(TdfError::NegativeEntryCount { count: -5 })
    );
}

#[test]
fn huge_entry_count_on_a_short_input_is_truncated() {
    let input = preamble(1, i32::MAX, [0, 0, 0]);
    assert_eq!(TdfHeader::from_bytes(&input), Err(TdfError::TruncatedInput { offset: 64 }));
}

#[test]
fn unknown_block_type_names_its_record() {
    let mut input = preamble(1, 3, [0, 0, 0]);
    input.extend_from_slice(&record(0, 0, 0, 0, [0, 0, 0], 0));
    input.extend_from_slice(&record(17, 0, 0, 0, [0, 0, 0], 0));
    input.extend_from_slice(&record(99, 0, 0, 0, [0, 0, 0], 0));
    assert_eq!(
        TdfHeader::from_bytes(&input),
        Err(TdfError::InvalidDiscriminant { entry: 1, value: 17 })
    );
    assert_eq!(
        TdfHeader::from_bytes(&input[..64 + 288 + 4]),
        Err(TdfError::InvalidDiscriminant { entry: 1, value: 17 })
    );
    assert_eq!(
        TdfHeader::from_bytes(&input[..64 + 288 + 3]),
        Err(TdfError::TruncatedInput { offset: 64 + 288 })
    );
    assert_eq!(
        TdfJumptableEntry::read(&input, 64 + 288),
        Err(TdfError::InvalidDiscriminant { entry: 0, value: 17 })
    );
    assert_eq!(
        TdfJumptableEntry::read_all(&input, 64, 3),
        Err(TdfError::InvalidDiscriminant { entry: 1, value: 17 })
    );
    assert_eq!(
        TdfJumptableEntry::read_all(&input, 64 + 288, 2),
        Err(TdfError::InvalidDiscriminant { entry: 0, value: 17 })
    );
    assert_eq!(
        TdfJumptableEntry::read_all(&input, 64 + 2 * 288, 1),
        Err(TdfError::InvalidDiscriminant { entry: 0, value: 99 })
    );
    assert_eq!(TdfJumptableEntry::read_all(&input, 64, 1).unwrap().len(), 1);
}

#[test]
fn comment_of_any_bytes_is_kept() {
    let comment = every_byte();
    let entry = sample_entry(TdfBlockType::ForcePlatformsData, 3, comment);
    let mut bytes = Vec::new();
    entry.write(&mut bytes);
    assert_eq!(bytes.len(), 288);
    assert_eq!(&bytes[32..], &comment[..]);
    let decoded = TdfJumptableEntry::read(&bytes, 0).unwrap();
    assert_eq!(decoded.comment(), &comment);
    assert_eq!(decoded, entry);

    let mut no_end = [0xffu8; 256];
    no_end[0] = 0;
    no_end[255] = 0x80;
    let entry = sample_entry(TdfBlockType::UnusedSlot, 0, no_end);
    let mut bytes = Vec::new();
    entry.write(&mut bytes);
    assert_eq!(TdfJumptableEntry::read(&bytes, 0).unwrap().comment(), &no_end);
}

#[test]
fn padding_content_is_not_kept() {
    let mut input = preamble(2, 1, [1, 2, 3]);
    input.extend_from_slice(&record(5, 1, 2, 3, [4, 5, 6], 0x30));
    let clean = input.clone();
    for i in 24..32 {
        input[i] = 0xee;
    }
    for i in 44..64 {
        input[i] = 0xdd;
    }
    for i in 64 + 28..64 + 32 {
        input[i] = 0xcc;
    }
    let (_, noisy) = TdfHeader::from_bytes(&input).unwrap();
    let (_, plain) = TdfHeader::from_bytes(&clean).unwrap();
    assert_eq!(noisy, plain);
    assert_eq!(noisy.to_bytes(), clean);
}

#[test]
fn entry_round_trips_for_every_block_type() {
    for id in 0..17u32 {
        let block_type = TdfBlockType::from_u32(id).unwrap();
        let entry = sample_entry(block_type, id * 1000 + 1, every_byte());
        assert_eq!(entry.block_type(), block_type);
        assert_eq!(entry.format(), TdfFormat::from_raw(block_type, id * 1000 + 1));
        let mut bytes = vec![0xabu8; 5];
        entry.write(&mut bytes);
        assert_eq!(bytes.len(), 5 + 288);
        assert_eq!(TdfJumptableEntry::read(&bytes, 5), Ok(entry));
    }
}

#[test]
fn records_are_kept_in_their_order() {
    let entries: Vec<TdfJumptableEntry> = (0..5u32)
        .map(|i| sample_entry(TdfBlockType::from_u32(i + 2).unwrap(), i, [i as u8; 256]))
        .collect();
    let mut bytes = Vec::new();
    TdfJumptableEntry::write_all(&entries, &mut bytes);
    assert_eq!(bytes.len(), 5 * 288);
    for i in 0..5usize {
        assert_eq!(bytes[i * 288 + 3], i as u8 + 2);
        assert_eq!(bytes[i * 288 + 32], i as u8);
    }
    assert_eq!(TdfJumptableEntry::read_all(&bytes, 0, 5).unwrap(), entries);
    assert_eq!(TdfJumptableEntry::read_all(&bytes, 288, 4).unwrap(), entries[1..].to_vec());
    assert_eq!(TdfJumptableEntry::read_all(&bytes, 0, 0).unwrap(), Vec::new());
    assert_eq!(TdfJumptableEntry::read_all(&bytes, 9999, 0).unwrap(), Vec::new());
    assert_eq!(
        TdfJumptableEntry::read_all(&bytes, 0, 6),
        Err(TdfError::TruncatedInput { offset: 5 * 288 })
    );
    assert_eq!(
        TdfJumptableEntry::read_all(&bytes, 9999, 1),
        Err(TdfError::TruncatedInput { offset: 9999 })
    );
}

#[test]
fn zone_of_a_timestamp_is_not_written() {
    let east = TimeT::with_offset(1_000_000_000, 7200).unwrap();
    let utc = TimeT::from_timestamp(1_000_000_000);
    let shown = TdfHeader::new(
        TdfHeaderInfo::new(1, 1, east, east, east).unwrap(),
        vec![TdfJumptableEntry::new(TdfBlockType::Data3d, 1, 2, 3, east, east, east, every_byte())],
    )
    .unwrap();
    let plain = TdfHeader::new(
        TdfHeaderInfo::new(1, 1, utc, utc, utc).unwrap(),
        vec![TdfJumptableEntry::new(TdfBlockType::Data3d, 1, 2, 3, utc, utc, utc, every_byte())],
    )
    .unwrap();
    assert_eq!(shown.header().creation_date().utc_offset(), 7200);
    assert_eq!(shown.to_bytes(), plain.to_bytes());
    let (_, decoded) = TdfHeader::from_bytes(&shown.to_bytes()).unwrap();
    assert_eq!(decoded, plain);
    assert_eq!(decoded.entries()[0].creation_date().timestamp(), east.timestamp());
}

#[test]
fn table_needs_as_many_records_as_declared() {
    let epoch = TimeT::from_timestamp(0);
    let two = TdfHeaderInfo::new(1, 2, epoch, epoch, epoch).unwrap();
    let entry = sample_entry(TdfBlockType::Data2d, 1, [0u8; 256]);
    assert_eq!(TdfHeader::new(two, vec![entry]), None);
    assert_eq!(TdfHeader::new(two, Vec::new()), None);
    assert_eq!(TdfHeader::new(two, vec![entry, entry, entry]), None);
    let table = TdfHeader::new(two, vec![entry, entry]).unwrap();
    assert_eq!(table.header(), &two);
    assert_eq!(table.entries(), &[entry, entry]);
}

#[test]
fn preamble_round_trips_where_it_stands() {
    let header = TdfHeaderInfo::new(
        u32::MAX,
        i32::MAX,
        TimeT::from_timestamp(1),
        TimeT::from_timestamp(0x8000_0000),
        TimeT::from_timestamp(u32::MAX),
    )
    .unwrap();
    let mut bytes = vec![1u8, 2, 3];
    header.write(&mut bytes);
    assert_eq!(bytes.len(), 3 + 64);
    assert_eq!(&bytes[3..19], &MAGIC[..]);
    assert_eq!(&bytes[19..23], &[0xff, 0xff, 0xff, 0xff]);
    assert_eq!(&bytes[23..27], &[0x7f, 0xff, 0xff, 0xff]);
    assert_eq!(TdfHeaderInfo::read(&bytes, 3), Ok(header));
    assert_eq!(TdfHeaderInfo::read(&bytes, 4), Err(TdfError::MagicMismatch));
}
