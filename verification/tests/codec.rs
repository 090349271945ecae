use tinydancer::codec::{decode, encode, CorruptRecordError, StatType};
use tinydancer::section::Section;

#[test]
fn slot_record_has_count_then_slots() {
    let bytes = encode(&StatType::SlotStats(vec![5, 258]));
    let expected: Vec<u8> = vec![
        2, 0, 0, 0, 0, 0, 0, 0, //
        5, 0, 0, 0, 0, 0, 0, 0, //
        2, 1, 0, 0, 0, 0, 0, 0,
    ];
    assert_eq!(bytes, expected);
}

#[test]
fn sampling_record_lays_fields_in_order() {
    let bytes = encode(&StatType::SampleStats(vec![(1, 2, 3, 4)]));
    let expected: Vec<u8> = vec![
        1, 0, 0, 0, 0, 0, 0, 0, //
        1, 0, 0, 0, 0, 0, 0, 0, //
        2, 0, 0, 0, 0, 0, 0, 0, //
        3, 0, 0, 0, 0, 0, 0, 0, //
        4, 0, 0, 0, 0, 0, 0, 0,
    ];
    assert_eq!(bytes, expected);
}

#[test]
fn verification_record_lays_fields_in_order() {
    let bytes = encode(&StatType::VerifiedStats(vec![(7, 8, 9)]));
    let expected: Vec<u8> = vec![
        1, 0, 0, 0, 0, 0, 0, 0, //
        7, 0, 0, 0, 0, 0, 0, 0, //
        8, 0, 0, 0, 0, 0, 0, 0, //
        9, 0, 0, 0, 0, 0, 0, 0,
    ];
    assert_eq!(bytes, expected);
}

#[test]
fn empty_record_is_one_word() {
    assert_eq!(encode(&StatType::SlotStats(vec![])), vec![0u8; 8]);
    assert_eq!(
        decode(Section::Sampling, &[0u8; 8]),
        Ok(StatType::SampleStats(vec![]))
    );
}

#[test]
fn every_variant_round_trips() {
    let records = vec![
        (Section::SlotProgress, StatType::SlotStats(vec![0, 1, 2, usize::MAX])),
        (
            Section::Sampling,
            StatType::SampleStats(vec![(10, 9, 4096, 1), (0, 0, 0, 0), (usize::MAX, 1, 2, 3)]),
        ),
        (
            Section::Verification,
            StatType::VerifiedStats(vec![(3, 0, 1), (usize::MAX, usize::MAX, usize::MAX)]),
        ),
    ];
    for (section, record) in records {
        assert_eq!(decode(section, &encode(&record)), Ok(record));
    }
}

#[test]
fn decoding_goes_by_the_section() {
    // Twelve fields after the count: three sampling entries, four
    // verification entries, and no slot record at all.
    let bytes = encode(&StatType::SampleStats(vec![(1, 2, 3, 4), (5, 6, 7, 8), (9, 10, 11, 12)]));
    assert_eq!(decode(Section::SlotProgress, &bytes), Err(CorruptRecordError));
    assert_eq!(decode(Section::Verification, &bytes), Err(CorruptRecordError));
    let six = encode(&StatType::VerifiedStats(vec![(1, 2, 3), (4, 5, 6)]));
    assert_eq!(decode(Section::Sampling, &six), Err(CorruptRecordError));
}

#[test]
fn truncated_or_padded_bytes_are_corrupt() {
    let bytes = encode(&StatType::SlotStats(vec![1, 2, 3]));
    assert_eq!(decode(Section::SlotProgress, &bytes[..bytes.len() - 1]), Err(CorruptRecordError));
    assert_eq!(decode(Section::SlotProgress, &bytes[..bytes.len() - 8]), Err(CorruptRecordError));
    let mut padded = bytes.clone();
    padded.extend_from_slice(&[0u8; 8]);
    assert_eq!(decode(Section::SlotProgress, &padded), Err(CorruptRecordError));
    assert_eq!(decode(Section::SlotProgress, &[]), Err(CorruptRecordError));
    assert_eq!(decode(Section::SlotProgress, &[1, 2, 3]), Err(CorruptRecordError));
}

#[test]
fn count_larger_than_the_payload_is_corrupt() {
    let mut bytes = vec![0u8; 16];
    bytes[0] = 2;
    assert_eq!(decode(Section::SlotProgress, &bytes), Err(CorruptRecordError));
    bytes[0] = 0xff;
    bytes[7] = 0xff;
    assert_eq!(decode(Section::SlotProgress, &bytes), Err(CorruptRecordError));
}

#[test]
fn decode_reads_little_endian_words() {
    let bytes: Vec<u8> = vec![
        1, 0, 0, 0, 0, 0, 0, 0, //
        0x34, 0x12, 0, 0, 0, 0, 0, 0,
    ];
    assert_eq!(decode(Section::SlotProgress, &bytes), Ok(StatType::SlotStats(vec![0x1234])));
}
