use cal2::codec::{decode, decode_entry, decode_legacy, encode, read_u32, read_u64};
use cal2::holidays::{HolidayEntry, HolidayKind, HolidayMap};
use std::collections::HashMap;

fn as_tuples(map: &HolidayMap) -> HashMap<(u32, u32), (String, u32)> {
    map.to_vec()
        .into_iter()
        .map(|holiday| {
            let kind = match holiday.entry.kind {
                HolidayKind::Official => 0,
                HolidayKind::Custom => 1,
            };
            ((holiday.day, holiday.month), (holiday.entry.name, kind))
        })
        .collect()
}

fn sample() -> HolidayMap {
    let mut hm = HolidayMap::new();
    hm.insert((1, 1), HolidayEntry::official("Año Nuevo".to_string()));
    hm.insert((24, 12), HolidayEntry::custom("Family dinner".to_string()));
    hm.insert((31, 2), HolidayEntry::custom(String::new()));
    hm
}

#[test]
fn encode_writes_the_documented_bytes() {
    let mut hm = HolidayMap::new();
    hm.insert((25, 12), HolidayEntry::custom("Xmas".to_string()));
    let expected: Vec<u8> = vec![
        1, 0, 0, 0, 0, 0, 0, 0, // one entry
        25, 0, 0, 0, // day
        12, 0, 0, 0, // month
        4, 0, 0, 0, 0, 0, 0, 0, // length of the name
        b'X', b'm', b'a', b's', // name
        1, 0, 0, 0, // custom
    ];
    assert_eq!(encode(&hm), expected);
    assert_eq!(encode(&HolidayMap::new()), vec![0u8; 8]);
}

#[test]
fn encode_agrees_with_bincode_on_one_entry() {
    let mut hm = HolidayMap::new();
    hm.insert((1, 1), HolidayEntry::official("Año Nuevo".to_string()));
    let theirs = bincode::serialize(&as_tuples(&hm)).expect("serialize");
    assert_eq!(encode(&hm), theirs);
}

#[test]
fn bincode_reads_what_encode_writes() {
    let hm = sample();
    let read: HashMap<(u32, u32), (String, u32)> =
        bincode::deserialize(&encode(&hm)).expect("deserialize");
    assert_eq!(read, as_tuples(&hm));
}

#[test]
fn decode_reads_what_bincode_writes() {
    let hm = sample();
    let theirs = bincode::serialize(&as_tuples(&hm)).expect("serialize");
    let read = decode(&theirs).expect("decode");
    assert_eq!(read, hm);
}

#[test]
fn decode_reads_back_what_encode_writes() {
    let hm = sample();
    let read = decode(&encode(&hm)).expect("decode");
    assert_eq!(read, hm);
    assert_eq!(read.to_vec().len(), 3);
    assert_eq!(decode(&encode(&HolidayMap::new())).expect("decode"), HolidayMap::new());
}

#[test]
fn decode_allows_bytes_after_the_entries() {
    let hm = sample();
    let mut bytes = encode(&hm);
    bytes.extend_from_slice(&[7, 7, 7]);
    assert_eq!(decode(&bytes).expect("decode"), hm);
}

#[test]
fn decode_keeps_the_later_of_two_entries() {
    let mut bytes: Vec<u8> = vec![2, 0, 0, 0, 0, 0, 0, 0];
    for name in ["a", "b"] {
        bytes.extend_from_slice(&[5, 0, 0, 0, 6, 0, 0, 0, 1, 0, 0, 0, 0, 0, 0, 0]);
        bytes.extend_from_slice(name.as_bytes());
        bytes.extend_from_slice(&[0, 0, 0, 0]);
    }
    let read = decode(&bytes).expect("decode");
    assert_eq!(read.len(), 1);
    assert_eq!(read.get(&(5, 6)).expect("entry").name, "b");
}

#[test]
fn decode_refuses_malformed_bytes() {
    let good = encode(&sample());
    // cut short anywhere
    for cut in 0..good.len() {
        assert!(decode(&good[..cut]).is_none(), "cut at {cut}");
    }
    // a kind that is neither official nor custom
    let mut bad_kind = good.clone();
    let last = bad_kind.len() - 4;
    bad_kind[last] = 2;
    assert!(decode(&bad_kind).is_none());
    // a name that is not UTF-8
    let bytes: Vec<u8> = vec![
        1, 0, 0, 0, 0, 0, 0, 0, 1, 0, 0, 0, 1, 0, 0, 0, 2, 0, 0, 0, 0, 0, 0, 0, 0xc3, 0x28, 0, 0, 0, 0,
    ];
    assert!(decode(&bytes).is_none());
    // a length that reaches past the end
    let bytes: Vec<u8> = vec![
        1, 0, 0, 0, 0, 0, 0, 0, 1, 0, 0, 0, 1, 0, 0, 0, 0xff, 0xff, 0xff, 0xff, 0xff, 0xff, 0xff, 0xff,
        0, 0, 0, 0,
    ];
    assert!(decode(&bytes).is_none());
    // more entries promised than held
    let mut bytes = encode(&sample());
    bytes[0] = 4;
    assert!(decode(&bytes).is_none());
}

#[test]
fn decode_and_bincode_refuse_the_same_bytes() {
    let good = encode(&sample());
    for cut in 0..=good.len() {
        let ours = decode(&good[..cut]).is_some();
        let theirs: Result<HashMap<(u32, u32), (String, u32)>, _> =
            bincode::deserialize(&good[..cut]);
        assert_eq!(ours, theirs.is_ok(), "cut at {cut}");
    }
}

#[test]
fn decode_entry_says_how_far_it_read() {
    let bytes: Vec<u8> =
        vec![25, 0, 0, 0, 12, 0, 0, 0, 2, 0, 0, 0, 0, 0, 0, 0, b'o', b'k', 0, 0, 0, 0, 9, 9];
    let (holiday, used) = decode_entry(&bytes).expect("entry");
    assert_eq!((holiday.day, holiday.month), (25, 12));
    assert_eq!(holiday.entry.name, "ok");
    assert_eq!(holiday.entry.kind, HolidayKind::Official);
    assert_eq!(used, 22);
    assert!(decode_entry(&bytes[..21]).is_none());
}

#[test]
fn read_numbers_little_endian() {
    let bytes: Vec<u8> = vec![0, 1, 2, 3, 4, 5, 6, 7, 8];
    assert_eq!(read_u32(&bytes, 0), Some(0x03020100));
    assert_eq!(read_u32(&bytes, 5), Some(0x08070605));
    assert_eq!(read_u32(&bytes, 6), None);
    assert_eq!(read_u32(&bytes, usize::MAX), None);
    assert_eq!(read_u64(&bytes, 1), Some(0x0807060504030201));
    assert_eq!(read_u64(&bytes, 2), None);
}

#[test]
fn decode_legacy_reads_what_bincode_writes() {
    let mut legacy: HashMap<(u32, u32), bool> = HashMap::new();
    legacy.insert((9, 7), true);
    legacy.insert((25, 5), true);
    legacy.insert((2, 1), false);
    let bytes = bincode::serialize(&legacy).expect("serialize");
    let read = decode_legacy(&bytes).expect("decode");
    assert_eq!(read.len(), 2);
    let entry = read.get(&(9, 7)).expect("entry");
    assert_eq!(entry.name, "Legacy holiday (09/07)");
    assert_eq!(entry.kind, HolidayKind::Custom);
    assert_eq!(read.get(&(25, 5)).expect("entry").name, "Legacy holiday (25/05)");
    assert!(read.get(&(2, 1)).is_none());
}

#[test]
fn decode_legacy_lets_the_later_record_decide() {
    let record = |day: u8, flag: u8| vec![day, 0, 0, 0, 3, 0, 0, 0, flag];
    let mut bytes: Vec<u8> = vec![4, 0, 0, 0, 0, 0, 0, 0];
    bytes.extend(record(1, 1));
    bytes.extend(record(1, 0));
    bytes.extend(record(2, 0));
    bytes.extend(record(2, 1));
    let read = decode_legacy(&bytes).expect("decode");
    assert_eq!(read.len(), 1);
    assert!(read.contains_key(&(2, 3)));
    assert!(!read.contains_key(&(1, 3)));
}

#[test]
fn decode_legacy_refuses_malformed_bytes() {
    assert!(decode_legacy(&[1, 0, 0, 0, 0, 0, 0, 0, 1, 0, 0, 0, 1, 0, 0, 0, 2]).is_none());
    assert!(decode_legacy(&[1, 0, 0, 0, 0, 0, 0, 0, 1, 0, 0, 0, 1, 0, 0, 0]).is_none());
    assert!(decode_legacy(&[0, 0, 0]).is_none());
    assert_eq!(decode_legacy(&[0u8; 8]).expect("empty").len(), 0);
}
