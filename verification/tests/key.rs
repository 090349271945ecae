use tinydancer::key::{decode_key, encode_key};
use tinydancer::section::Section;
use tinydancer::store::SectionStore;

#[test]
fn key_is_eight_bytes_most_significant_first() {
    assert_eq!(encode_key(0), vec![0u8; 8]);
    assert_eq!(encode_key(1), vec![0, 0, 0, 0, 0, 0, 0, 1]);
    assert_eq!(encode_key(0x0102030405060708), vec![1, 2, 3, 4, 5, 6, 7, 8]);
    assert_eq!(encode_key(u64::MAX), vec![0xffu8; 8]);
}

#[test]
fn key_round_trips() {
    for slot in [0u64, 1, 255, 256, 65_535, 1 << 32, u64::MAX - 1, u64::MAX] {
        assert_eq!(decode_key(&encode_key(slot)), Some(slot));
    }
    assert_eq!(decode_key(&[0, 0, 0, 0, 0, 0, 1, 0]), Some(256));
}

#[test]
fn key_of_another_length_is_refused() {
    assert_eq!(decode_key(&[]), None);
    assert_eq!(decode_key(&[1, 2, 3, 4, 5, 6, 7]), None);
    assert_eq!(decode_key(&[1, 2, 3, 4, 5, 6, 7, 8, 9]), None);
}

#[test]
fn stored_keys_sort_as_their_slots() {
    let slots = [0u64, 1, 2, 255, 256, 257, 65_536, 1 << 40, (1 << 40) + 1, u64::MAX];
    for a in slots {
        for b in slots {
            assert_eq!(encode_key(a) < encode_key(b), a < b);
        }
    }
}

#[test]
fn put_raw_stores_under_the_decoded_slot() {
    let mut store = SectionStore::new();
    assert!(store.put_raw(Section::Sampling, &encode_key(300), vec![7]));
    assert!(store.put_raw(Section::Sampling, &encode_key(2), vec![8]));
    assert_eq!(store.get(Section::Sampling, 300), Some(&vec![7u8]));
    assert_eq!(store.iterate(Section::Sampling), vec![(2, vec![8u8]), (300, vec![7u8])]);
}

#[test]
fn put_raw_refuses_a_key_that_is_no_slot() {
    let mut store = SectionStore::new();
    store.put(Section::Sampling, 1, vec![1]);
    assert!(!store.put_raw(Section::Sampling, &[1, 2, 3], vec![9]));
    assert!(!store.put_raw(Section::SlotProgress, &[], vec![9]));
    assert_eq!(store.len(Section::Sampling), 1);
    assert_eq!(store.len(Section::SlotProgress), 0);
    assert_eq!(store.get(Section::Sampling, 1), Some(&vec![1u8]));
}
