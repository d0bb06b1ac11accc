//! Holiday entries and the per-year holiday map.
//!
//! A `HolidayMap` maps a `(day, month)` pair to one entry. Its model is a
//! sequence of keyed entries without repeated keys, in the order in which the
//! keys were first inserted, and the mathematical map that this sequence
//! denotes.

use crate::model::{
    date_before, date_ordered, has_key, in_date_order, index_of_key, lemma_date_ordered_unique,
    lemma_in_date_order, lemma_map_of_absent, lemma_map_of_index, lemma_map_of_insert_at,
    lemma_map_of_len, lemma_map_of_push, lemma_map_of_remove, lemma_map_of_update, map_of,
    unique_keys, DateKey, KeyedEntry,
};
use vstd::prelude::*;
use vstd::string::*;

verus! {

/// Where a holiday entry came from.
#[derive(Clone, Copy, Debug, PartialEq, Eq, Structural)]
pub enum HolidayKind {
    /// Supplied by a remote provider.
    Official,
    /// Added by the user.
    Custom,
}

/// One date's holiday record.
#[derive(Debug)]
pub struct HolidayEntry {
    pub name: String,
    pub kind: HolidayKind,
}

/// The view of an entry: its name as characters, and its kind.
pub struct EntryView {
    pub name: Seq<char>,
    pub kind: HolidayKind,
}

impl View for HolidayEntry {
    type V = EntryView;

    open spec fn view(&self) -> EntryView {
        EntryView { name: self.name@, kind: self.kind }
    }
}

impl Clone for HolidayEntry {
    fn clone(&self) -> (copy: Self)
        ensures
            copy == *self,
    {
        HolidayEntry { name: self.name.clone(), kind: self.kind }
    }
}

impl PartialEq for HolidayEntry {
    fn eq(&self, other: &Self) -> (same: bool) {
        self.name == other.name && self.kind == other.kind
    }
}

impl vstd::std_specs::cmp::PartialEqSpecImpl for HolidayEntry {
    open spec fn obeys_eq_spec() -> bool {
        true
    }

    open spec fn eq_spec(&self, other: &Self) -> bool {
        self@ == other@
    }
}

impl HolidayEntry {
    /// An entry supplied by a provider.
    pub fn official(name: String) -> (entry: Self)
        ensures
            entry@ == (EntryView { name: name@, kind: HolidayKind::Official }),
    {
        HolidayEntry { name, kind: HolidayKind::Official }
    }

    /// An entry added by the user.
    pub fn custom(name: String) -> (entry: Self)
        ensures
            entry@ == (EntryView { name: name@, kind: HolidayKind::Custom }),
    {
        HolidayEntry { name, kind: HolidayKind::Custom }
    }
}

/// One entry together with the day and month it is held under.
#[derive(Debug)]
pub struct Holiday {
    pub day: u32,
    pub month: u32,
    pub entry: HolidayEntry,
}

impl View for Holiday {
    type V = KeyedEntry;

    open spec fn view(&self) -> KeyedEntry {
        ((self.day, self.month), self.entry@)
    }
}

impl Clone for Holiday {
    fn clone(&self) -> (copy: Self)
        ensures
            copy == *self,
    {
        Holiday { day: self.day, month: self.month, entry: self.entry.clone() }
    }
}

/// The keyed entries that a sequence of holidays stands for.
pub open spec fn keyed(holidays: Seq<Holiday>) -> Seq<KeyedEntry> {
    holidays.map_values(|holiday: Holiday| holiday@)
}

/// The holidays of one year: at most one entry per `(day, month)`.
///
/// Days and months are not checked against the calendar here; the pair
/// `(31, 2)` is a key like any other.
///
/// The entries are kept in the order in which their keys were first
/// inserted, and a lookup walks them: the map is made for the holidays of
/// one year, a few hundred at most.
#[derive(Debug)]
pub struct HolidayMap {
    slots: Vec<Holiday>,
}

impl View for HolidayMap {
    type V = Map<DateKey, EntryView>;

    /// The map from `(day, month)` to the entry held for it.
    open spec fn view(&self) -> Map<DateKey, EntryView> {
        map_of(self.entries())
    }
}

impl HolidayMap {
    /// The keyed entries in the order in which their keys were first inserted.
    pub closed spec fn entries(&self) -> Seq<KeyedEntry> {
        keyed(self.slots@)
    }

    /// What every map satisfies: no key is held twice.
    #[verifier::type_invariant]
    pub closed spec fn inv(&self) -> bool {
        unique_keys(self.entries())
    }

    /// The empty map.
    pub fn new() -> (map: Self)
        ensures
            map.entries() == Seq::<KeyedEntry>::empty(),
            map@ == Map::<DateKey, EntryView>::empty(),
    {
        let map = HolidayMap { slots: Vec::new() };
        proof {
            assert(map.entries() =~= Seq::<KeyedEntry>::empty());
            assert(map@ =~= Map::<DateKey, EntryView>::empty());
        }
        map
    }

    /// The number of entries.
    pub fn len(&self) -> (n: usize)
        ensures
            n == self.entries().len(),
            n == self@.len(),
            unique_keys(self.entries()),
            self@.dom().finite(),
    {
        proof {
            use_type_invariant(self);
            lemma_map_of_len(self.entries());
        }
        self.slots.len()
    }

    /// Whether the map holds no entry.
    pub fn is_empty(&self) -> (empty: bool)
        ensures
            empty == (self.entries().len() == 0),
            empty == (self@ == Map::<DateKey, EntryView>::empty()),
    {
        proof {
            use_type_invariant(self);
            if self.entries().len() == 0 {
                assert(self@ =~= Map::<DateKey, EntryView>::empty());
            } else {
                lemma_map_of_index(self.entries(), 0);
            }
        }
        self.slots.len() == 0
    }

    /// The key of the entry at position `i` of `entries()`.
    pub fn key_at(&self, i: usize) -> (key: DateKey)
        requires
            i < self.entries().len(),
        ensures
            key == self.entries()[i as int].0,
            self@.dom().contains(key),
    {
        proof {
            use_type_invariant(self);
            lemma_map_of_index(self.entries(), i as int);
        }
        (self.slots[i].day, self.slots[i].month)
    }

    /// The entry at position `i` of `entries()`.
    pub fn entry_at(&self, i: usize) -> (entry: &HolidayEntry)
        requires
            i < self.entries().len(),
        ensures
            entry@ == self.entries()[i as int].1,
            entry@ == self@[self.entries()[i as int].0],
    {
        proof {
            use_type_invariant(self);
            lemma_map_of_index(self.entries(), i as int);
        }
        &self.slots[i].entry
    }

    /// The position of `key` in `entries()`, if the map holds it.
    pub fn position(&self, key: &DateKey) -> (found: Option<usize>)
        ensures
            found is Some <==> self@.dom().contains(*key),
            found matches Some(i) ==> i < self.entries().len() && self.entries()[i as int].0
                == *key,
    {
        proof {
            use_type_invariant(self);
        }
        let mut i: usize = 0;
        while i < self.slots.len()
            invariant
                i <= self.slots.len(),
                unique_keys(self.entries()),
                forall|j: int| 0 <= j < i ==> (#[trigger] self.entries()[j]).0 != *key,
            decreases self.slots.len() - i,
        {
            if self.slots[i].day == key.0 && self.slots[i].month == key.1 {
                proof {
                    lemma_map_of_index(self.entries(), i as int);
                }
                return Some(i);
            }
            i += 1;
        }
        proof {
            lemma_map_of_absent(self.entries(), *key);
        }
        None
    }

    /// Whether the map holds an entry under `key`.
    pub fn contains_key(&self, key: &DateKey) -> (held: bool)
        ensures
            held == self@.dom().contains(*key),
    {
        self.position(key).is_some()
    }

    /// The entry held under `key`, if any.
    pub fn get(&self, key: &DateKey) -> (found: Option<&HolidayEntry>)
        ensures
            found is Some <==> self@.dom().contains(*key),
            found matches Some(entry) ==> entry@ == self@[*key],
    {
        match self.position(key) {
            Some(i) => Some(self.entry_at(i)),
            None => None,
        }
    }

    /// Puts `entry` under `key`. An entry already held under `key` is replaced
    /// in place and handed back; a new key goes to the end of `entries()`.
    pub fn insert(&mut self, key: DateKey, entry: HolidayEntry) -> (previous: Option<HolidayEntry>)
        ensures
            final(self)@ == old(self)@.insert(key, entry@),
            previous is Some <==> old(self)@.dom().contains(key),
            previous matches Some(p) ==> p@ == old(self)@[key],
            old(self)@.dom().contains(key) ==> final(self).entries() == old(self).entries().update(
                index_of_key(old(self).entries(), key),
                (key, entry@),
            ),
            !old(self)@.dom().contains(key) ==> final(self).entries() == old(self).entries().push(
                (key, entry@),
            ),
    {
        proof {
            use_type_invariant(&*self);
        }
        let ghost before = self.entries();
        let ghost added = entry@;
        let found = self.position(&key);
        let mut slots: Vec<Holiday> = Vec::new();
        proof {
            assert(keyed(slots@) =~= Seq::<KeyedEntry>::empty());
        }
        std::mem::swap(&mut self.slots, &mut slots);
        let previous = match found {
            Some(i) => {
                proof {
                    lemma_map_of_index(before, i as int);
                    lemma_map_of_update(before, i as int, added);
                }
                let taken = slots.remove(i);
                slots.insert(i, Holiday { day: key.0, month: key.1, entry });
                proof {
                    assert(keyed(slots@) =~= before.update(i as int, (key, added)));
                }
                Some(taken.entry)
            },
            None => {
                proof {
                    lemma_map_of_push(before, (key, added));
                }
                slots.push(Holiday { day: key.0, month: key.1, entry });
                proof {
                    assert(keyed(slots@) =~= before.push((key, added)));
                }
                None
            },
        };
        self.slots = slots;
        previous
    }

    /// Takes out the entry held under `key`, if any, and hands it back. The
    /// other entries keep their order.
    pub fn remove(&mut self, key: &DateKey) -> (previous: Option<HolidayEntry>)
        ensures
            final(self)@ == old(self)@.remove(*key),
            previous is Some <==> old(self)@.dom().contains(*key),
            previous matches Some(p) ==> p@ == old(self)@[*key],
            old(self)@.dom().contains(*key) ==> final(self).entries() == old(self).entries().remove(
                index_of_key(old(self).entries(), *key),
            ),
            !old(self)@.dom().contains(*key) ==> final(self).entries() == old(self).entries(),
            !old(self)@.dom().contains(*key) ==> final(self)@ == old(self)@,
    {
        proof {
            use_type_invariant(&*self);
        }
        let ghost before = self.entries();
        match self.position(key) {
            Some(i) => {
                let mut slots: Vec<Holiday> = Vec::new();
                proof {
                    assert(keyed(slots@) =~= Seq::<KeyedEntry>::empty());
                    lemma_map_of_index(before, i as int);
                    lemma_map_of_remove(before, i as int);
                }
                std::mem::swap(&mut self.slots, &mut slots);
                let taken = slots.remove(i);
                proof {
                    assert(keyed(slots@) =~= before.remove(i as int));
                }
                self.slots = slots;
                Some(taken.entry)
            },
            None => {
                proof {
                    assert(self@ =~= old(self)@.remove(*key));
                }
                None
            },
        }
    }
}

/// Whether `a` comes before `b` in the year.
pub fn comes_before(a: DateKey, b: DateKey) -> (before: bool)
    ensures
        before == date_before(a, b),
{
    a.1 < b.1 || (a.1 == b.1 && a.0 < b.0)
}

impl HolidayMap {
    /// Copies of the entries in the order of `entries()`.
    pub fn to_vec(&self) -> (out: Vec<Holiday>)
        ensures
            keyed(out@) == self.entries(),
            unique_keys(self.entries()),
    {
        proof {
            use_type_invariant(self);
        }
        let mut out: Vec<Holiday> = Vec::new();
        let mut i: usize = 0;
        while i < self.slots.len()
            invariant
                i <= self.slots.len(),
                out@.len() == i,
                forall|j: int| 0 <= j < i ==> (#[trigger] out@[j])@ == self.slots@[j]@,
            decreases self.slots.len() - i,
        {
            out.push(self.slots[i].clone());
            i += 1;
        }
        proof {
            assert(keyed(out@) =~= self.entries());
        }
        out
    }

    /// Copies of the entries in ascending order of month, then day.
    pub fn sorted_by_date(&self) -> (out: Vec<Holiday>)
        ensures
            keyed(out@) == in_date_order(self@),
            date_ordered(keyed(out@)),
            map_of(keyed(out@)) == self@,
    {
        proof {
            use_type_invariant(self);
        }
        let mut out: Vec<Holiday> = Vec::new();
        let mut i: usize = 0;
        proof {
            assert(map_of(keyed(out@)) =~= map_of(self.entries().take(0)));
        }
        while i < self.slots.len()
            invariant
                i <= self.slots.len(),
                unique_keys(self.entries()),
                self.entries().len() == self.slots.len(),
                date_ordered(keyed(out@)),
                map_of(keyed(out@)) == map_of(self.entries().take(i as int)),
            decreases self.slots.len() - i,
        {
            let item = self.slots[i].clone();
            let ghost before = keyed(out@);
            let ghost seen = self.entries().take(i as int);
            proof {
                assert(item@ == self.entries()[i as int]);
                if has_key(seen, item@.0) {
                    let j = index_of_key(seen, item@.0);
                    assert(seen[j] == self.entries()[j]);
                    assert(self.entries()[j].0 != self.entries()[i as int].0);
                }
                assert(!map_of(seen).dom().contains(item@.0));
                assert(!has_key(before, item@.0));
            }
            let mut p: usize = 0;
            while p < out.len() && comes_before((out[p].day, out[p].month), (item.day, item.month))
                invariant
                    p <= out.len(),
                    before == keyed(out@),
                    forall|j: int| 0 <= j < p ==> date_before((#[trigger] before[j]).0, item@.0),
                decreases out.len() - p,
            {
                p += 1;
            }
            proof {
                lemma_date_ordered_unique(before);
                lemma_map_of_insert_at(before, p as int, item@);
                let after = before.insert(p as int, item@);
                if p < before.len() {
                    assert(!date_before(before[p as int].0, item@.0));
                    if before[p as int].0 == item@.0 {
                        assert(has_key(before, item@.0));
                    }
                    assert(date_before(item@.0, before[p as int].0));
                }
                assert forall|a: int, b: int| 0 <= a < b < after.len() implies date_before(
                    (#[trigger] after[a]).0,
                    (#[trigger] after[b]).0,
                ) by {
                    let a2 = if a < p {
                        a
                    } else {
                        a - 1
                    };
                    let b2 = if b < p {
                        b
                    } else {
                        b - 1
                    };
                    if a == p {
                        assert(after[b] == before[b2]);
                        if b2 > p {
                            assert(date_before(before[p as int].0, before[b2].0));
                        }
                    } else if b == p {
                        assert(after[a] == before[a2]);
                    } else {
                        assert(after[a] == before[a2] && after[b] == before[b2]);
                        assert(date_before(before[a2].0, before[b2].0));
                    }
                }
            }
            out.insert(p, item);
            i += 1;
            proof {
                assert(keyed(out@) =~= before.insert(p as int, item@));
                assert(self.entries().take(i as int) =~= seen.push(self.entries()[i - 1]));
                assert forall|a: int, b: int| 0 <= a < b < seen.len() implies (#[trigger] seen[a]).0
                    != (#[trigger] seen[b]).0 by {
                    assert(seen[a] == self.entries()[a] && seen[b] == self.entries()[b]);
                }
                lemma_map_of_push(seen, self.entries()[i - 1]);
            }
        }
        proof {
            assert(self.entries().take(i as int) =~= self.entries());
            lemma_in_date_order(keyed(out@));
        }
        out
    }
}

impl Default for HolidayMap {
    fn default() -> (map: Self)
        ensures
            map@ == Map::<DateKey, EntryView>::empty(),
    {
        HolidayMap::new()
    }
}

impl Clone for HolidayMap {
    fn clone(&self) -> (copy: Self)
        ensures
            copy.entries() == self.entries(),
            copy@ == self@,
    {
        proof {
            use_type_invariant(self);
        }
        let mut slots: Vec<Holiday> = Vec::new();
        let mut i: usize = 0;
        while i < self.slots.len()
            invariant
                i <= self.slots.len(),
                slots@.len() == i,
                forall|j: int| 0 <= j < i ==> (#[trigger] slots@[j])@ == self.slots@[j]@,
            decreases self.slots.len() - i,
        {
            let slot = &self.slots[i];
            slots.push(Holiday { day: slot.day, month: slot.month, entry: slot.entry.clone() });
            i += 1;
        }
        proof {
            assert(keyed(slots@) =~= self.entries());
        }
        HolidayMap { slots }
    }
}

impl PartialEq for HolidayMap {
    /// Two maps are equal when they hold the same entries under the same
    /// keys, in whatever order.
    fn eq(&self, other: &Self) -> (same: bool) {
        let n = self.len();
        let m = other.len();
        if n != m {
            return false;
        }
        let mut i: usize = 0;
        while i < n
            invariant
                i <= n,
                n == self.entries().len(),
                unique_keys(self.entries()),
                forall|j: int|
                    0 <= j < i ==> other@.dom().contains((#[trigger] self.entries()[j]).0)
                        && other@[self.entries()[j].0] == self.entries()[j].1,
            decreases n - i,
        {
            let key = self.key_at(i);
            let entry = self.entry_at(i);
            match other.get(&key) {
                Some(held) => {
                    if !(held == entry) {
                        proof {
                            lemma_map_of_index(self.entries(), i as int);
                        }
                        return false;
                    }
                },
                None => {
                    return false;
                },
            }
            i += 1;
        }
        proof {
            let s = self.entries();
            assert forall|key: DateKey| self@.dom().contains(key) implies other@.dom().contains(
                key,
            ) && other@[key] == self@[key] by {
                let j = index_of_key(s, key);
                lemma_map_of_index(s, j);
            }
            assert(self@.dom().subset_of(other@.dom()));
            vstd::set_lib::lemma_subset_equality(self@.dom(), other@.dom());
            assert(self@ =~= other@);
        }
        true
    }
}

impl vstd::std_specs::cmp::PartialEqSpecImpl for HolidayMap {
    open spec fn obeys_eq_spec() -> bool {
        true
    }

    open spec fn eq_spec(&self, other: &Self) -> bool {
        self@ == other@
    }
}

} // verus!
