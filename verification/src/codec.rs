//! The format of a cache file: a holiday map as bytes, and back.
//!
//! A file starts with the number of entries in eight bytes. Each entry is
//! the day and the month in four bytes each, the length of the name in
//! eight bytes, the name in UTF-8, and the kind in four bytes: 0 for an
//! official holiday, 1 for a custom one. All numbers are little-endian.
//! Bytes after the last entry are not read.
//!
//! This is the encoding that the `bincode` crate, in its version 1 with
//! integers of fixed width, gives a map from a pair of `u32` to a struct of
//! a string and an enum without fields: files that it wrote are read, and
//! it reads the files written here.
//!
//! An earlier format held, for each day and month, one byte that says
//! whether the day is a holiday. Such a file is still read: its holidays
//! become custom entries with a name made from the date.

use crate::holidays::{EntryView, Holiday, HolidayEntry, HolidayKind, HolidayMap};
use crate::model::{lemma_map_of_push, map_of, unique_keys, DateKey, KeyedEntry};
use crate::text::{push_char, push_two_digits, two_digits, utf8_len};
use vstd::bytes::{
    lemma_auto_spec_u32_to_from_le_bytes, lemma_auto_spec_u64_to_from_le_bytes,
    spec_u32_from_le_bytes, spec_u32_to_le_bytes, spec_u64_from_le_bytes, spec_u64_to_le_bytes,
    u32_from_le_bytes, u32_to_le_bytes, u64_from_le_bytes, u64_to_le_bytes,
};
use vstd::prelude::*;
use vstd::slice::{slice_subrange, slice_to_vec};
use vstd::string::*;
use vstd::utf8::{decode_utf8, encode_utf8, valid_utf8};

verus! {

/// The number that stands for a kind in a file.
pub open spec fn kind_index(kind: HolidayKind) -> u32 {
    match kind {
        HolidayKind::Official => 0,
        HolidayKind::Custom => 1,
    }
}

/// The day of an entry.
pub open spec fn day_of(entry: KeyedEntry) -> u32 {
    let key = entry.0;
    key.0
}

/// The month of an entry.
pub open spec fn month_of(entry: KeyedEntry) -> u32 {
    let key = entry.0;
    key.1
}

/// The bytes of one entry.
pub open spec fn encoded_entry(entry: KeyedEntry) -> Seq<u8> {
    spec_u32_to_le_bytes(day_of(entry)) + spec_u32_to_le_bytes(month_of(entry))
        + spec_u64_to_le_bytes(utf8_len(entry.1.name) as u64) + encode_utf8(entry.1.name)
        + spec_u32_to_le_bytes(kind_index(entry.1.kind))
}

/// The bytes of the entries, one after the other.
pub open spec fn encoded_entries(entries: Seq<KeyedEntry>) -> Seq<u8>
    decreases entries.len(),
{
    if entries.len() == 0 {
        Seq::empty()
    } else {
        encoded_entry(entries.first()) + encoded_entries(entries.drop_first())
    }
}

/// The bytes of a file that holds the entries: their number, then each of them.
pub open spec fn encoded(entries: Seq<KeyedEntry>) -> Seq<u8> {
    spec_u64_to_le_bytes(entries.len() as u64) + encoded_entries(entries)
}

/// The number of entries and the length of each name fit in eight bytes.
pub open spec fn encodable(entries: Seq<KeyedEntry>) -> bool {
    &&& entries.len() <= u64::MAX
    &&& forall|i: int|
        0 <= i < entries.len() ==> utf8_len((#[trigger] entries[i]).1.name) <= u64::MAX
}

/// The entry that stands at the start of the bytes, with the number of
/// bytes that it takes; nothing where the bytes end too early, the name is
/// not UTF-8, or the kind is neither 0 nor 1.
pub open spec fn decoded_entry(bytes: Seq<u8>) -> Option<(KeyedEntry, int)> {
    if bytes.len() < 16 {
        None
    } else {
        let day = spec_u32_from_le_bytes(bytes.subrange(0, 4));
        let month = spec_u32_from_le_bytes(bytes.subrange(4, 8));
        let length = spec_u64_from_le_bytes(bytes.subrange(8, 16)) as int;
        if bytes.len() < 16 + length + 4 {
            None
        } else {
            let name = bytes.subrange(16, 16 + length);
            let kind = spec_u32_from_le_bytes(bytes.subrange(16 + length, 16 + length + 4));
            if !valid_utf8(name) || kind > 1 {
                None
            } else {
                Some(
                    (
                        (
                            (day, month),
                            EntryView {
                                name: decode_utf8(name),
                                kind: if kind == 0 {
                                    HolidayKind::Official
                                } else {
                                    HolidayKind::Custom
                                },
                            },
                        ),
                        16 + length + 4,
                    ),
                )
            }
        }
    }
}

/// The `count` entries that stand at the start of the bytes, in order;
/// nothing where one of them is missing or malformed.
pub open spec fn decoded_entries(bytes: Seq<u8>, count: nat) -> Option<Seq<KeyedEntry>>
    decreases count,
{
    if count == 0 {
        Some(Seq::empty())
    } else {
        match decoded_entry(bytes) {
            None => None,
            Some((entry, used)) => match decoded_entries(bytes.skip(used), (count - 1) as nat) {
                None => None,
                Some(rest) => Some(seq![entry] + rest),
            },
        }
    }
}

/// The map that entries read one after the other denote: of two entries
/// under one key the later stays.
pub open spec fn later_wins(entries: Seq<KeyedEntry>) -> Map<DateKey, EntryView>
    decreases entries.len(),
{
    if entries.len() == 0 {
        Map::empty()
    } else {
        later_wins(entries.drop_last()).insert(entries.last().0, entries.last().1)
    }
}

/// The map that a file holds; nothing where the bytes are no file of the format.
pub open spec fn decoded(bytes: Seq<u8>) -> Option<Map<DateKey, EntryView>> {
    if bytes.len() < 8 {
        None
    } else {
        match decoded_entries(bytes.skip(8), spec_u64_from_le_bytes(bytes.subrange(0, 8)) as nat) {
            None => None,
            Some(entries) => Some(later_wins(entries)),
        }
    }
}

/// The bytes of entries followed by one more are the bytes of the entries
/// followed by the bytes of that one.
pub proof fn lemma_encoded_push(entries: Seq<KeyedEntry>, entry: KeyedEntry)
    ensures
        encoded_entries(entries.push(entry)) == encoded_entries(entries) + encoded_entry(entry),
    decreases entries.len(),
{
    let all = entries.push(entry);
    if entries.len() == 0 {
        assert(all.drop_first() =~= Seq::<KeyedEntry>::empty());
        assert(all.first() == entry);
        assert(encoded_entries(all.drop_first()) =~= Seq::<u8>::empty());
        assert(encoded_entries(entries) =~= Seq::<u8>::empty());
        assert(encoded_entries(all) =~= encoded_entries(entries) + encoded_entry(entry));
    } else {
        lemma_encoded_push(entries.drop_first(), entry);
        assert(all.drop_first() =~= entries.drop_first().push(entry));
        assert(all.first() == entries.first());
        assert(encoded_entries(all) =~= encoded_entries(entries) + encoded_entry(entry));
    }
}

/// The bytes of entries are at least twenty for each entry, and at least
/// as many as any of the names takes. So entries whose file is of a size
/// that fits in eight bytes can be written.
pub proof fn lemma_encoded_size(entries: Seq<KeyedEntry>)
    ensures
        encoded_entries(entries).len() >= 20 * entries.len(),
        forall|i: int|
            0 <= i < entries.len() ==> utf8_len((#[trigger] entries[i]).1.name) <= encoded_entries(
                entries,
            ).len(),
        encoded(entries).len() == 8 + encoded_entries(entries).len(),
        encoded(entries).len() <= u64::MAX ==> encodable(entries),
    decreases entries.len(),
{
    lemma_auto_spec_u32_to_from_le_bytes();
    lemma_auto_spec_u64_to_from_le_bytes();
    if entries.len() > 0 {
        let first = entries.first();
        let rest = entries.drop_first();
        lemma_encoded_size(rest);
        assert(encoded_entry(first).len() == 20 + utf8_len(first.1.name));
        assert forall|i: int| 0 <= i < entries.len() implies utf8_len(
            (#[trigger] entries[i]).1.name,
        ) <= encoded_entries(entries).len() by {
            if i > 0 {
                assert(entries[i] == rest[i - 1]);
            }
        }
    }
}

/// An entry is read back from its bytes, whatever follows them.
pub proof fn lemma_decode_encoded_entry(entry: KeyedEntry, tail: Seq<u8>)
    requires
        utf8_len(entry.1.name) <= u64::MAX,
    ensures
        decoded_entry(encoded_entry(entry) + tail) == Some(
            (entry, encoded_entry(entry).len() as int),
        ),
{
    lemma_auto_spec_u32_to_from_le_bytes();
    lemma_auto_spec_u64_to_from_le_bytes();
    vstd::utf8::encode_utf8_valid_utf8(entry.1.name);
    vstd::utf8::encode_utf8_decode_utf8(entry.1.name);
    let day = spec_u32_to_le_bytes(day_of(entry));
    let month = spec_u32_to_le_bytes(month_of(entry));
    let length = utf8_len(entry.1.name) as int;
    let size = spec_u64_to_le_bytes(length as u64);
    let name = encode_utf8(entry.1.name);
    let kind = spec_u32_to_le_bytes(kind_index(entry.1.kind));
    let bytes = encoded_entry(entry) + tail;
    assert(bytes.subrange(0, 4) =~= day);
    assert(bytes.subrange(4, 8) =~= month);
    assert(bytes.subrange(8, 16) =~= size);
    assert(bytes.subrange(16, 16 + length) =~= name);
    assert(bytes.subrange(16 + length, 16 + length + 4) =~= kind);
    assert(encoded_entry(entry).len() == 16 + length + 4);
    let got = decoded_entry(bytes);
    assert(got is Some);
    let read = got.unwrap();
    let value = read.0;
    assert(value.1.name == entry.1.name);
    assert(value.1.kind == entry.1.kind);
    assert(value.1 == entry.1);
    assert(value == entry);
}

/// Entries are read back from their bytes, whatever follows them.
pub proof fn lemma_decode_encoded_entries(entries: Seq<KeyedEntry>, tail: Seq<u8>)
    requires
        encodable(entries),
    ensures
        decoded_entries(encoded_entries(entries) + tail, entries.len()) == Some(entries),
    decreases entries.len(),
{
    if entries.len() == 0 {
    } else {
        let first = entries.first();
        let rest = entries.drop_first();
        let bytes = encoded_entries(entries) + tail;
        let after = encoded_entries(rest) + tail;
        assert(bytes =~= encoded_entry(first) + after);
        lemma_decode_encoded_entry(first, after);
        assert(bytes.skip(encoded_entry(first).len() as int) =~= after);
        assert forall|i: int| 0 <= i < rest.len() implies utf8_len((#[trigger] rest[i]).1.name)
            <= u64::MAX by {
            assert(rest[i] == entries[i + 1]);
        }
        lemma_decode_encoded_entries(rest, tail);
        assert(seq![first] + rest =~= entries);
    }
}

/// Where no key occurs twice, reading the entries one after the other
/// gives the map that they denote.
pub proof fn lemma_later_wins_unique(entries: Seq<KeyedEntry>)
    requires
        unique_keys(entries),
    ensures
        later_wins(entries) == map_of(entries),
    decreases entries.len(),
{
    if entries.len() == 0 {
        assert(map_of(entries) =~= Map::<DateKey, EntryView>::empty());
    } else {
        let before = entries.drop_last();
        let last = entries.last();
        assert forall|i: int, j: int| 0 <= i < j < before.len() implies (#[trigger] before[i]).0
            != (#[trigger] before[j]).0 by {
            assert(before[i] == entries[i] && before[j] == entries[j]);
        }
        lemma_later_wins_unique(before);
        if crate::model::has_key(before, last.0) {
            let i = crate::model::index_of_key(before, last.0);
            assert(before[i] == entries[i]);
            assert(entries[i].0 != entries[entries.len() - 1].0);
        }
        lemma_map_of_push(before, last);
        assert(before.push(last) =~= entries);
    }
}

/// What is saved is what is loaded: a map that is written to a file in
/// this format is read back from the file's bytes as it was, also where
/// other bytes follow.
pub proof fn lemma_save_load_round_trip(entries: Seq<KeyedEntry>, tail: Seq<u8>)
    requires
        unique_keys(entries),
        encodable(entries),
    ensures
        decoded(encoded(entries) + tail) == Some(map_of(entries)),
{
    lemma_auto_spec_u64_to_from_le_bytes();
    let bytes = encoded(entries) + tail;
    let count = spec_u64_to_le_bytes(entries.len() as u64);
    assert(bytes.subrange(0, 8) =~= count);
    assert(bytes.skip(8) =~= encoded_entries(entries) + tail);
    lemma_decode_encoded_entries(entries, tail);
    lemma_later_wins_unique(entries);
}

/// One record of the earlier format at the start of the bytes: the day,
/// the month and whether the day is a holiday, with the nine bytes that it
/// takes; nothing where the bytes end too early or the last byte is neither
/// 0 nor 1.
pub open spec fn decoded_legacy_record(bytes: Seq<u8>) -> Option<(DateKey, bool)> {
    if bytes.len() < 9 || bytes[8] > 1 {
        None
    } else {
        Some(
            (
                (
                    spec_u32_from_le_bytes(bytes.subrange(0, 4)),
                    spec_u32_from_le_bytes(bytes.subrange(4, 8)),
                ),
                bytes[8] == 1,
            ),
        )
    }
}

/// The `count` records of the earlier format at the start of the bytes.
pub open spec fn decoded_legacy_records(bytes: Seq<u8>, count: nat) -> Option<
    Seq<(DateKey, bool)>,
>
    decreases count,
{
    if count == 0 {
        Some(Seq::empty())
    } else {
        match decoded_legacy_record(bytes) {
            None => None,
            Some(record) => match decoded_legacy_records(bytes.skip(9), (count - 1) as nat) {
                None => None,
                Some(rest) => Some(seq![record] + rest),
            },
        }
    }
}

/// The name of an entry that stands for a holiday of the earlier format.
pub open spec fn legacy_name(key: DateKey) -> Seq<char> {
    "Legacy holiday ("@ + two_digits(key.0 as nat) + seq!['/'] + two_digits(key.1 as nat) + seq![
        ')',
    ]
}

/// The entry that stands for a holiday of the earlier format.
pub open spec fn legacy_entry(key: DateKey) -> EntryView {
    EntryView { name: legacy_name(key), kind: HolidayKind::Custom }
}

/// The map that records of the earlier format become: a day is held, with
/// a custom entry, exactly when the last record for it says that it is a
/// holiday.
pub open spec fn migrated(records: Seq<(DateKey, bool)>) -> Map<DateKey, EntryView>
    decreases records.len(),
{
    if records.len() == 0 {
        Map::empty()
    } else {
        let before = migrated(records.drop_last());
        let key = records.last().0;
        if records.last().1 {
            before.insert(key, legacy_entry(key))
        } else {
            before.remove(key)
        }
    }
}

/// The last record for `key` is at `i`, and says that the day is a holiday.
pub open spec fn last_says_holiday(records: Seq<(DateKey, bool)>, key: DateKey, i: int) -> bool {
    &&& 0 <= i < records.len()
    &&& records[i] == (key, true)
    &&& forall|j: int| i < j < records.len() ==> (#[trigger] records[j]).0 != key
}

/// A map made from records of the earlier format holds a day exactly when
/// the last record for it says that it is a holiday, and holds it with the
/// custom entry that is named after the day.
pub proof fn lemma_migrated_entries(records: Seq<(DateKey, bool)>, key: DateKey)
    ensures
        migrated(records).dom().contains(key) <==> exists|i: int|
            last_says_holiday(records, key, i),
        migrated(records).dom().contains(key) ==> migrated(records)[key] == legacy_entry(key),
    decreases records.len(),
{
    if records.len() > 0 {
        let before = records.drop_last();
        let last = records.last();
        let end = records.len() - 1;
        lemma_migrated_entries(before, key);
        if last.0 == key {
            if last.1 {
                assert(last_says_holiday(records, key, end));
            } else {
                assert forall|i: int| !last_says_holiday(records, key, i) by {
                    if last_says_holiday(records, key, i) && i < end {
                        assert(records[end].0 != key);
                    }
                }
            }
        } else {
            if exists|i: int| last_says_holiday(before, key, i) {
                let i = choose|i: int| last_says_holiday(before, key, i);
                assert(records[i] == before[i]);
                assert forall|j: int| i < j < records.len() implies (#[trigger] records[j]).0
                    != key by {
                    if j < end {
                        assert(records[j] == before[j]);
                        assert(before[j].0 != key);
                    }
                }
                assert(last_says_holiday(records, key, i));
            }
            if exists|i: int| last_says_holiday(records, key, i) {
                let i = choose|i: int| last_says_holiday(records, key, i);
                assert(i < end);
                assert(before[i] == records[i]);
                assert forall|j: int| i < j < before.len() implies (#[trigger] before[j]).0
                    != key by {
                    assert(before[j] == records[j]);
                    assert(records[j].0 != key);
                }
                assert(last_says_holiday(before, key, i));
            }
        }
    } else {
        assert forall|i: int| !last_says_holiday(records, key, i) by {}
    }
}

/// The map that a file of the earlier format becomes; nothing where the
/// bytes are no file of that format.
pub open spec fn decoded_legacy(bytes: Seq<u8>) -> Option<Map<DateKey, EntryView>> {
    if bytes.len() < 8 {
        None
    } else {
        match decoded_legacy_records(
            bytes.skip(8),
            spec_u64_from_le_bytes(bytes.subrange(0, 8)) as nat,
        ) {
            None => None,
            Some(records) => Some(migrated(records)),
        }
    }
}

/// `String::from_utf8`: a string of the characters that the bytes encode,
/// exactly when the bytes are valid UTF-8.
#[verifier::external_body]
fn string_from_utf8(bytes: Vec<u8>) -> (text: Option<String>)
    ensures
        text is Some <==> valid_utf8(bytes@),
        text matches Some(s) ==> s@ == decode_utf8(bytes@),
{
    String::from_utf8(bytes).ok()
}

/// The number in the four bytes at `at`, if the bytes reach that far.
pub fn read_u32(bytes: &[u8], at: usize) -> (value: Option<u32>)
    ensures
        value is Some <==> at + 4 <= bytes@.len(),
        value matches Some(v) ==> v == spec_u32_from_le_bytes(
            bytes@.subrange(at as int, at + 4),
        ),
{
    if bytes.len() < 4 || at > bytes.len() - 4 {
        return None;
    }
    Some(u32_from_le_bytes(slice_subrange(bytes, at, at + 4)))
}

/// The number in the eight bytes at `at`, if the bytes reach that far.
pub fn read_u64(bytes: &[u8], at: usize) -> (value: Option<u64>)
    ensures
        value is Some <==> at + 8 <= bytes@.len(),
        value matches Some(v) ==> v == spec_u64_from_le_bytes(
            bytes@.subrange(at as int, at + 8),
        ),
{
    if bytes.len() < 8 || at > bytes.len() - 8 {
        return None;
    }
    Some(u64_from_le_bytes(slice_subrange(bytes, at, at + 8)))
}

/// Reads the entry at the start of the bytes, and says how many bytes it takes.
pub fn decode_entry(bytes: &[u8]) -> (read: Option<(Holiday, usize)>)
    ensures
        match read {
            Some((holiday, used)) => decoded_entry(bytes@) == Some((holiday@, used as int)),
            None => decoded_entry(bytes@) is None,
        },
{
    let day = match read_u32(bytes, 0) {
        Some(v) => v,
        None => {
            return None;
        },
    };
    let month = match read_u32(bytes, 4) {
        Some(v) => v,
        None => {
            return None;
        },
    };
    let length = match read_u64(bytes, 8) {
        Some(v) => v,
        None => {
            return None;
        },
    };
    let left = bytes.len() - 16;
    if length > left as u64 {
        return None;
    }
    let length = length as usize;
    if left - length < 4 {
        return None;
    }
    let name_bytes = slice_to_vec(slice_subrange(bytes, 16, 16 + length));
    let kind = match read_u32(bytes, 16 + length) {
        Some(v) => v,
        None => {
            return None;
        },
    };
    let name = match string_from_utf8(name_bytes) {
        Some(s) => s,
        None => {
            return None;
        },
    };
    if kind > 1 {
        return None;
    }
    let kind = if kind == 0 {
        HolidayKind::Official
    } else {
        HolidayKind::Custom
    };
    Some((Holiday { day, month, entry: HolidayEntry { name, kind } }, 16 + length + 4))
}

/// The entries read so far, before what the rest of the bytes gives.
pub open spec fn continued<T>(done: Seq<T>, rest: Option<Seq<T>>) -> Option<Seq<T>> {
    match rest {
        None => None,
        Some(more) => Some(done + more),
    }
}

/// Reads a file of the format.
pub fn decode(bytes: &[u8]) -> (read: Option<HolidayMap>)
    ensures
        match read {
            Some(map) => decoded(bytes@) == Some(map@),
            None => decoded(bytes@) is None,
        },
{
    let count = match read_u64(bytes, 0) {
        Some(v) => v,
        None => {
            return None;
        },
    };
    let size = bytes.len();
    let mut map = HolidayMap::new();
    let mut at: usize = 8;
    let mut i: u64 = 0;
    let ghost all = bytes@.skip(8);
    let ghost mut done: Seq<KeyedEntry> = Seq::empty();
    proof {
        assert(bytes@.skip(at as int) =~= all);
        assert(continued(done, decoded_entries(all, count as nat)) =~= decoded_entries(
            all,
            count as nat,
        ));
    }
    while i < count
        invariant
            8 <= at <= size,
            size == bytes@.len(),
            i <= count,
            all == bytes@.skip(8),
            count == spec_u64_from_le_bytes(bytes@.subrange(0, 8)),
            map@ == later_wins(done),
            decoded_entries(all, count as nat) == continued(
                done,
                decoded_entries(bytes@.skip(at as int), (count - i) as nat),
            ),
        decreases count - i,
    {
        let rest = slice_subrange(bytes, at, size);
        proof {
            assert(rest@ =~= bytes@.skip(at as int));
        }
        match decode_entry(rest) {
            None => {
                return None;
            },
            Some((holiday, used)) => {
                let ghost entry = holiday@;
                proof {
                    let after = decoded_entries(
                        bytes@.skip(at as int).skip(used as int),
                        (count - i - 1) as nat,
                    );
                    assert(bytes@.skip(at as int).skip(used as int) =~= bytes@.skip(at + used));
                    assert(continued(done, continued(seq![entry], after)) =~= continued(
                        done.push(entry),
                        after,
                    )) by {
                        if after is Some {
                            assert(done + (seq![entry] + after->0) =~= done.push(entry) + after->0);
                        }
                    }
                    assert(done.push(entry).drop_last() =~= done);
                }
                map.insert((holiday.day, holiday.month), holiday.entry);
                at = at + used;
                i = i + 1;
                proof {
                    done = done.push(entry);
                }
            },
        }
    }
    proof {
        assert(continued(done, Some(Seq::<KeyedEntry>::empty())) =~= Some(done));
    }
    Some(map)
}

/// The name of the entry that stands for a holiday of the earlier format.
pub fn legacy_name_of(day: u32, month: u32) -> (name: String)
    ensures
        name@ == legacy_name((day, month)),
{
    let mut name = String::from_str("Legacy holiday (");
    push_two_digits(&mut name, day);
    push_char(&mut name, '/');
    push_two_digits(&mut name, month);
    push_char(&mut name, ')');
    proof {
        assert(name@ =~= legacy_name((day, month)));
    }
    name
}

/// Reads a file of the earlier format, and makes its holidays custom entries.
pub fn decode_legacy(bytes: &[u8]) -> (read: Option<HolidayMap>)
    ensures
        match read {
            Some(map) => decoded_legacy(bytes@) == Some(map@),
            None => decoded_legacy(bytes@) is None,
        },
{
    let count = match read_u64(bytes, 0) {
        Some(v) => v,
        None => {
            return None;
        },
    };
    let size = bytes.len();
    let mut map = HolidayMap::new();
    let mut at: usize = 8;
    let mut i: u64 = 0;
    let ghost all = bytes@.skip(8);
    let ghost mut done: Seq<(DateKey, bool)> = Seq::empty();
    proof {
        assert(bytes@.skip(at as int) =~= all);
        assert(continued(done, decoded_legacy_records(all, count as nat))
            =~= decoded_legacy_records(all, count as nat));
    }
    while i < count
        invariant
            8 <= at <= size,
            size == bytes@.len(),
            i <= count,
            all == bytes@.skip(8),
            count == spec_u64_from_le_bytes(bytes@.subrange(0, 8)),
            map@ == migrated(done),
            decoded_legacy_records(all, count as nat) == continued(
                done,
                decoded_legacy_records(bytes@.skip(at as int), (count - i) as nat),
            ),
        decreases count - i,
    {
        let ghost here = bytes@.skip(at as int);
        if size - at < 9 {
            return None;
        }
        let day = u32_from_le_bytes(slice_subrange(bytes, at, at + 4));
        let month = u32_from_le_bytes(slice_subrange(bytes, at + 4, at + 8));
        let flag = bytes[at + 8];
        proof {
            assert(here.subrange(0, 4) =~= bytes@.subrange(at as int, at + 4));
            assert(here.subrange(4, 8) =~= bytes@.subrange(at + 4, at + 8));
            assert(here[8] == flag);
        }
        if flag > 1 {
            return None;
        }
        let ghost record = ((day, month), flag == 1);
        proof {
            let after = decoded_legacy_records(here.skip(9), (count - i - 1) as nat);
            assert(here.skip(9) =~= bytes@.skip(at + 9));
            assert(continued(done, continued(seq![record], after)) =~= continued(
                done.push(record),
                after,
            )) by {
                if after is Some {
                    assert(done + (seq![record] + after->0) =~= done.push(record) + after->0);
                }
            }
            assert(done.push(record).drop_last() =~= done);
        }
        if flag == 1 {
            map.insert((day, month), HolidayEntry::custom(legacy_name_of(day, month)));
        } else {
            map.remove(&(day, month));
        }
        at = at + 9;
        i = i + 1;
        proof {
            done = done.push(record);
        }
    }
    proof {
        assert(continued(done, Some(Seq::<(DateKey, bool)>::empty())) =~= Some(done));
    }
    Some(map)
}

/// Writes the map as a file of the format, its entries in the order of `entries()`.
pub fn encode(map: &HolidayMap) -> (bytes: Vec<u8>)
    ensures
        bytes@ == encoded(map.entries()),
        unique_keys(map.entries()),
        encodable(map.entries()),
{
    let count = map.len();
    let mut bytes = u64_to_le_bytes(count as u64);
    let ghost head = bytes@;
    let ghost entries = map.entries();
    let mut i: usize = 0;
    proof {
        assert(bytes@ =~= head + encoded_entries(entries.take(0)));
    }
    while i < count
        invariant
            i <= count,
            count == entries.len(),
            entries == map.entries(),
            head == spec_u64_to_le_bytes(count as u64),
            bytes@ == head + encoded_entries(entries.take(i as int)),
            forall|k: int| 0 <= k < i ==> utf8_len((#[trigger] entries[k]).1.name) <= u64::MAX,
        decreases count - i,
    {
        let key = map.key_at(i);
        let entry = map.entry_at(i);
        let ghost before = bytes@;
        let ghost keyed = entries[i as int];
        let mut day = u32_to_le_bytes(key.0);
        let mut month = u32_to_le_bytes(key.1);
        let name = entry.name.as_str().as_bytes();
        let mut length = u64_to_le_bytes(name.len() as u64);
        let mut name = slice_to_vec(name);
        let mut kind = u32_to_le_bytes(
            match entry.kind {
                HolidayKind::Official => 0,
                HolidayKind::Custom => 1,
            },
        );
        bytes.append(&mut day);
        bytes.append(&mut month);
        bytes.append(&mut length);
        bytes.append(&mut name);
        bytes.append(&mut kind);
        proof {
            assert(bytes@ =~= before + encoded_entry(keyed));
            lemma_encoded_push(entries.take(i as int), keyed);
            assert(entries.take(i + 1) =~= entries.take(i as int).push(keyed));
        }
        i += 1;
    }
    proof {
        assert(entries.take(i as int) =~= entries);
    }
    bytes
}

} // verus!
