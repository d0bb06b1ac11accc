//! From a provider's decoded response to a holiday map: the dates are
//! parsed, the names chosen, and every entry is marked official.

use crate::holidays::{EntryView, HolidayEntry, HolidayKind, HolidayMap};
use crate::model::DateKey;
use crate::text::chars_of;
use vstd::prelude::*;
use vstd::string::*;

verus! {

/// One holiday of the default provider's response.
#[derive(Debug)]
pub struct ArgentinaResp {
    /// The date, as `YYYY-MM-DD`.
    pub fecha: String,
    /// The name.
    pub nombre: String,
}

/// One name of a holiday in one language.
#[derive(Debug)]
pub struct OpenHolidayName {
    pub language: String,
    pub text: String,
}

/// One holiday of a country provider's response.
#[derive(Debug)]
pub struct OpenHolidayResp {
    /// The date, as `YYYY-MM-DD`.
    pub start_date: String,
    /// The names, one per language.
    pub name: Vec<OpenHolidayName>,
}

/// A decimal digit.
pub open spec fn is_digit(c: char) -> bool {
    '0' <= c <= '9'
}

/// Every character of the text is a decimal digit.
pub open spec fn all_digits(text: Seq<char>) -> bool {
    forall|i: int| 0 <= i < text.len() ==> is_digit(#[trigger] text[i])
}

/// The number that a text of decimal digits denotes.
pub open spec fn numeral_value(digits: Seq<char>) -> nat
    decreases digits.len(),
{
    if digits.len() == 0 {
        0
    } else {
        (numeral_value(digits.drop_last()) * 10 + (digits.last() as int - '0' as int)) as nat
    }
}

/// The digits of a numeral: the text without a plus sign at its start.
pub open spec fn unsigned_part(text: Seq<char>) -> Seq<char> {
    if text.len() > 0 && text[0] == '+' {
        text.skip(1)
    } else {
        text
    }
}

/// The number that a text denotes as an unsigned 32-bit numeral: an
/// optional plus sign, then at least one decimal digit and nothing else,
/// with a value in range.
pub open spec fn parsed_u32(text: Seq<char>) -> Option<u32> {
    let digits = unsigned_part(text);
    if digits.len() > 0 && all_digits(digits) && numeral_value(digits) <= u32::MAX {
        Some(numeral_value(digits) as u32)
    } else {
        None
    }
}

/// `i` and `j` are the places of the first two hyphens of the text.
pub open spec fn first_hyphens(text: Seq<char>, i: int, j: int) -> bool {
    &&& 0 <= i < j < text.len()
    &&& text[i] == '-'
    &&& text[j] == '-'
    &&& forall|k: int| 0 <= k < j && k != i ==> #[trigger] text[k] != '-'
}

/// The day and month that a date text names. The text is cut at its first
/// two hyphens: what stands before the first is not read, what stands
/// between them is the month, and all that follows the second is the day.
/// A text with fewer than two hyphens, or with a month or day that is no
/// numeral, names nothing. Month and day are not held to any range.
pub open spec fn parsed_date(text: Seq<char>) -> Option<DateKey> {
    if exists|i: int, j: int| first_hyphens(text, i, j) {
        let (i, j) = choose|i: int, j: int| first_hyphens(text, i, j);
        let month = parsed_u32(text.subrange(i + 1, j));
        let day = parsed_u32(text.subrange(j + 1, text.len() as int));
        if month is Some && day is Some {
            Some((day->0, month->0))
        } else {
            None
        }
    } else {
        None
    }
}

/// The map built from dated names: each name goes under the day and month
/// that its date names, marked official; a date that names nothing drops
/// its entry; of two entries for one day the later stays.
pub open spec fn built_map(entries: Seq<(Seq<char>, Seq<char>)>) -> Map<DateKey, EntryView>
    decreases entries.len(),
{
    if entries.len() == 0 {
        Map::empty()
    } else {
        let before = built_map(entries.drop_last());
        match parsed_date(entries.last().0) {
            Some(key) => before.insert(
                key,
                EntryView { name: entries.last().1, kind: HolidayKind::Official },
            ),
            None => before,
        }
    }
}

/// A language tag that reads `EN`, in capital or small letters.
pub open spec fn is_english(language: Seq<char>) -> bool {
    &&& language.len() == 2
    &&& (language[0] == 'E' || language[0] == 'e')
    &&& (language[1] == 'N' || language[1] == 'n')
}

/// The view of a list of names: language and text of each.
pub open spec fn name_views(names: Seq<OpenHolidayName>) -> Seq<(Seq<char>, Seq<char>)> {
    names.map_values(|name: OpenHolidayName| (name.language@, name.text@))
}

/// `i` is the place of the first English name.
pub open spec fn first_english(names: Seq<(Seq<char>, Seq<char>)>, i: int) -> bool {
    &&& 0 <= i < names.len()
    &&& is_english(names[i].0)
    &&& forall|k: int| 0 <= k < i ==> !is_english(#[trigger] names[k].0)
}

/// The name shown for a holiday: the first English one; where there is
/// none, the first; where there is no name at all, a general label.
pub open spec fn chosen_name(names: Seq<(Seq<char>, Seq<char>)>) -> Seq<char> {
    if exists|i: int| first_english(names, i) {
        names[choose|i: int| first_english(names, i)].1
    } else if names.len() > 0 {
        names[0].1
    } else {
        "Public holiday"@
    }
}

/// The dated names of the default provider's response.
pub open spec fn argentina_entries(response: Seq<ArgentinaResp>) -> Seq<(Seq<char>, Seq<char>)> {
    response.map_values(|holiday: ArgentinaResp| (holiday.fecha@, holiday.nombre@))
}

/// The dated names of a country provider's response.
pub open spec fn openholidays_entries(response: Seq<OpenHolidayResp>) -> Seq<
    (Seq<char>, Seq<char>),
> {
    response.map_values(
        |holiday: OpenHolidayResp| (holiday.start_date@, chosen_name(name_views(holiday.name@))),
    )
}

/// The views of dated names held as strings.
pub open spec fn entry_views(entries: Seq<(String, String)>) -> Seq<(Seq<char>, Seq<char>)> {
    entries.map_values(|entry: (String, String)| (entry.0@, entry.1@))
}

/// The value of digits does not shrink when more digits follow.
proof fn lemma_value_grows(digits: Seq<char>, k: int)
    requires
        all_digits(digits),
        0 <= k <= digits.len(),
    ensures
        numeral_value(digits.take(k)) <= numeral_value(digits),
    decreases digits.len(),
{
    if k == digits.len() {
        assert(digits.take(k) =~= digits);
    } else {
        let shorter = digits.drop_last();
        assert(is_digit(digits.last()));
        assert forall|i: int| 0 <= i < shorter.len() implies is_digit(#[trigger] shorter[i]) by {
            assert(shorter[i] == digits[i]);
        }
        lemma_value_grows(shorter, k);
        assert(shorter.take(k) =~= digits.take(k));
    }
}

/// The number that the characters from `from` up to `to` denote.
pub fn parse_number(chars: &Vec<char>, from: usize, to: usize) -> (number: Option<u32>)
    requires
        from <= to <= chars@.len(),
    ensures
        number == parsed_u32(chars@.subrange(from as int, to as int)),
{
    let ghost text = chars@.subrange(from as int, to as int);
    let start = if from < to && chars[from] == '+' {
        from + 1
    } else {
        from
    };
    let ghost digits = unsigned_part(text);
    proof {
        if from < to {
            assert(text[0] == chars@[from as int]);
        }
        assert(digits =~= chars@.subrange(start as int, to as int));
    }
    if start == to {
        return None;
    }
    let mut value: u64 = 0;
    let mut i: usize = start;
    proof {
        assert(digits.take(0) =~= Seq::<char>::empty());
    }
    while i < to
        invariant
            from <= start <= i <= to,
            to <= chars@.len(),
            digits == chars@.subrange(start as int, to as int),
            digits == unsigned_part(chars@.subrange(from as int, to as int)),
            all_digits(digits.take(i - start)),
            value == numeral_value(digits.take(i - start)),
            value <= u32::MAX,
        decreases to - i,
    {
        let c = chars[i];
        let ghost seen = digits.take(i - start);
        let ghost more = digits.take(i - start + 1);
        proof {
            assert(digits[i - start] == c);
            assert(more.drop_last() =~= seen);
            assert(more.last() == c);
        }
        if !('0' <= c && c <= '9') {
            proof {
                assert(!is_digit(digits[i - start]));
            }
            return None;
        }
        value = value * 10 + ((c as u32 - '0' as u32) as u64);
        proof {
            assert forall|k: int| 0 <= k < more.len() implies is_digit(#[trigger] more[k]) by {
                if k < seen.len() {
                    assert(more[k] == seen[k]);
                }
            }
        }
        if value > 0xffff_ffff {
            proof {
                if all_digits(digits) {
                    lemma_value_grows(digits, i - start + 1);
                }
            }
            return None;
        }
        i += 1;
    }
    proof {
        assert(digits.take(i - start) =~= digits);
    }
    Some(value as u32)
}

/// The place of the first hyphen at or after `from`, if there is one.
pub fn find_hyphen(chars: &Vec<char>, from: usize) -> (found: Option<usize>)
    requires
        from <= chars@.len(),
    ensures
        found matches Some(i) ==> from <= i < chars@.len() && chars@[i as int] == '-',
        found matches Some(i) ==> forall|k: int| from <= k < i ==> chars@[k] != '-',
        found is None ==> forall|k: int| from <= k < chars@.len() ==> chars@[k] != '-',
{
    let mut i: usize = from;
    while i < chars.len()
        invariant
            from <= i <= chars@.len(),
            forall|k: int| from <= k < i ==> chars@[k] != '-',
        decreases chars@.len() - i,
    {
        if chars[i] == '-' {
            return Some(i);
        }
        i += 1;
    }
    None
}

/// The day and month that a date text names, if it names any.
pub fn parse_date(date: &str) -> (key: Option<DateKey>)
    ensures
        key == parsed_date(date@),
{
    let chars = chars_of(date);
    let count = chars.len();
    let first = match find_hyphen(&chars, 0) {
        Some(i) => i,
        None => {
            proof {
                assert forall|i: int, j: int| !first_hyphens(date@, i, j) by {
                    if first_hyphens(date@, i, j) {
                        assert(chars@[i] == '-');
                    }
                }
            }
            return None;
        },
    };
    let second = match find_hyphen(&chars, first + 1) {
        Some(j) => j,
        None => {
            proof {
                assert forall|i: int, j: int| !first_hyphens(date@, i, j) by {
                    if first_hyphens(date@, i, j) {
                        if i < first {
                            assert(chars@[i] == '-');
                        } else if i > first {
                            assert(chars@[first as int] != '-');
                        } else {
                            assert(chars@[j] == '-');
                        }
                    }
                }
            }
            return None;
        },
    };
    proof {
        assert(first_hyphens(date@, first as int, second as int));
        let (i, j) = choose|i: int, j: int| first_hyphens(date@, i, j);
        assert(first_hyphens(date@, i, j));
        if i < first {
            assert(chars@[i] == '-');
        } else if i > first {
            assert(date@[first as int] != '-');
        }
        assert(i == first);
        if j < second {
            assert(chars@[j] == '-');
        } else if j > second {
            assert(date@[second as int] != '-');
        }
        assert(j == second);
    }
    let month = parse_number(&chars, first + 1, second);
    let day = parse_number(&chars, second + 1, count);
    match (month, day) {
        (Some(m), Some(d)) => Some((d, m)),
        _ => None,
    }
}

/// The holiday map of dated names, each marked official.
pub fn build_holidays(entries: Vec<(String, String)>) -> (map: HolidayMap)
    ensures
        map@ == built_map(entry_views(entries@)),
{
    let mut map = HolidayMap::new();
    let ghost all = entry_views(entries@);
    let mut i: usize = 0;
    proof {
        assert(all.take(0) =~= Seq::<(Seq<char>, Seq<char>)>::empty());
    }
    while i < entries.len()
        invariant
            i <= entries@.len(),
            all == entry_views(entries@),
            map@ == built_map(all.take(i as int)),
        decreases entries@.len() - i,
    {
        let entry = &entries[i];
        proof {
            assert(all.take(i + 1).drop_last() =~= all.take(i as int));
            assert(all.take(i + 1).last() == (entry.0@, entry.1@));
        }
        match parse_date(entry.0.as_str()) {
            Some(key) => {
                map.insert(key, HolidayEntry::official(entry.1.clone()));
            },
            None => {},
        }
        i += 1;
    }
    proof {
        assert(all.take(i as int) =~= all);
    }
    map
}

/// Whether a language tag reads `EN`, in capital or small letters.
pub fn reads_english(language: &str) -> (english: bool)
    ensures
        english == is_english(language@),
{
    let chars = chars_of(language);
    chars.len() == 2 && (chars[0] == 'E' || chars[0] == 'e') && (chars[1] == 'N' || chars[1] == 'n')
}

/// The name shown for a holiday with these names.
pub fn choose_name(names: &Vec<OpenHolidayName>) -> (name: String)
    ensures
        name@ == chosen_name(name_views(names@)),
{
    let ghost views = name_views(names@);
    let mut i: usize = 0;
    while i < names.len()
        invariant
            i <= names@.len(),
            views == name_views(names@),
            forall|k: int| 0 <= k < i ==> !is_english(#[trigger] views[k].0),
        decreases names@.len() - i,
    {
        if reads_english(names[i].language.as_str()) {
            proof {
                assert(first_english(views, i as int));
                let chosen = choose|k: int| first_english(views, k);
                assert(first_english(views, chosen));
                if chosen < i {
                    assert(!is_english(views[chosen].0));
                } else if chosen > i {
                    assert(!is_english(views[i as int].0));
                }
            }
            return names[i].text.clone();
        }
        i += 1;
    }
    proof {
        assert forall|k: int| !first_english(views, k) by {
            if first_english(views, k) {
                assert(!is_english(views[k].0));
            }
        }
    }
    if names.len() > 0 {
        names[0].text.clone()
    } else {
        String::from_str("Public holiday")
    }
}

/// The holiday map of the default provider's response.
pub fn fetch_argentina(response: Vec<ArgentinaResp>) -> (map: HolidayMap)
    ensures
        map@ == built_map(argentina_entries(response@)),
{
    let mut entries: Vec<(String, String)> = Vec::new();
    let mut i: usize = 0;
    while i < response.len()
        invariant
            i <= response@.len(),
            entries@.len() == i,
            forall|k: int|
                0 <= k < i ==> ((#[trigger] entries@[k]).0@, entries@[k].1@) == (
                    response@[k].fecha@,
                    response@[k].nombre@,
                ),
        decreases response@.len() - i,
    {
        entries.push((response[i].fecha.clone(), response[i].nombre.clone()));
        i += 1;
    }
    proof {
        assert(entry_views(entries@) =~= argentina_entries(response@));
    }
    build_holidays(entries)
}

/// The holiday map of a country provider's response.
pub fn fetch_openholidays(response: Vec<OpenHolidayResp>) -> (map: HolidayMap)
    ensures
        map@ == built_map(openholidays_entries(response@)),
{
    let mut entries: Vec<(String, String)> = Vec::new();
    let mut i: usize = 0;
    while i < response.len()
        invariant
            i <= response@.len(),
            entries@.len() == i,
            forall|k: int|
                0 <= k < i ==> ((#[trigger] entries@[k]).0@, entries@[k].1@) == (
                    response@[k].start_date@,
                    chosen_name(name_views(response@[k].name@)),
                ),
        decreases response@.len() - i,
    {
        let chosen = choose_name(&response[i].name);
        entries.push((response[i].start_date.clone(), chosen));
        i += 1;
    }
    proof {
        assert(entry_views(entries@) =~= openholidays_entries(response@));
    }
    build_holidays(entries)
}

} // verus!
