//! The model of a holiday map: a sequence of keyed entries without
//! repeated keys, the map that such a sequence denotes, and the listing of
//! a map in the order of the year.

use crate::holidays::EntryView;
use vstd::prelude::*;

verus! {

/// A key of the map: the day, then the month.
pub type DateKey = (u32, u32);

/// A keyed entry of the model.
pub type KeyedEntry = (DateKey, EntryView);

/// No key occurs twice in `s`.
pub open spec fn unique_keys(s: Seq<KeyedEntry>) -> bool {
    forall|i: int, j: int| 0 <= i < j < s.len() ==> (#[trigger] s[i]).0 != (#[trigger] s[j]).0
}

/// `s` holds an entry under `key`.
pub open spec fn has_key(s: Seq<KeyedEntry>, key: DateKey) -> bool {
    exists|i: int| 0 <= i < s.len() && (#[trigger] s[i]).0 == key
}

/// An index at which `s` holds `key`, if it holds it.
pub open spec fn index_of_key(s: Seq<KeyedEntry>, key: DateKey) -> int {
    choose|i: int| 0 <= i < s.len() && (#[trigger] s[i]).0 == key
}

/// The map that a sequence of keyed entries denotes.
pub open spec fn map_of(s: Seq<KeyedEntry>) -> Map<DateKey, EntryView> {
    Map::new(|key: DateKey| has_key(s, key), |key: DateKey| s[index_of_key(s, key)].1)
}

/// Where keys are unique, the entry at an index is the one the map holds under its key.
pub proof fn lemma_map_of_index(s: Seq<KeyedEntry>, i: int)
    requires
        unique_keys(s),
        0 <= i < s.len(),
    ensures
        map_of(s).dom().contains(s[i].0),
        map_of(s)[s[i].0] == s[i].1,
        index_of_key(s, s[i].0) == i,
{
    let key = s[i].0;
    assert(has_key(s, key));
    let j = index_of_key(s, key);
    assert(0 <= j < s.len() && s[j].0 == key);
    if j < i {
        assert(s[j].0 != s[i].0);
    } else if i < j {
        assert(s[i].0 != s[j].0);
    }
}

/// A key that no entry of `s` has is outside the map.
pub proof fn lemma_map_of_absent(s: Seq<KeyedEntry>, key: DateKey)
    requires
        forall|i: int| 0 <= i < s.len() ==> (#[trigger] s[i]).0 != key,
    ensures
        !map_of(s).dom().contains(key),
{
}

/// Appending an entry under a new key inserts it into the map.
pub proof fn lemma_map_of_push(s: Seq<KeyedEntry>, e: KeyedEntry)
    requires
        unique_keys(s),
        !has_key(s, e.0),
    ensures
        unique_keys(s.push(e)),
        map_of(s.push(e)) == map_of(s).insert(e.0, e.1),
{
    let t = s.push(e);
    assert forall|i: int, j: int| 0 <= i < j < t.len() implies (#[trigger] t[i]).0 != (
    #[trigger] t[j]).0 by {
        if j == s.len() {
            assert(t[i] == s[i]);
            if s[i].0 == e.0 {
                assert(has_key(s, e.0));
            }
        } else {
            assert(t[i] == s[i] && t[j] == s[j]);
        }
    }
    assert forall|key: DateKey| #[trigger]
        map_of(t).dom().contains(key) == map_of(s).insert(e.0, e.1).dom().contains(key) by {
        if has_key(t, key) {
            let i = index_of_key(t, key);
            if i < s.len() {
                assert(s[i] == t[i]);
                assert(has_key(s, key));
            }
        }
        if has_key(s, key) {
            let i = index_of_key(s, key);
            assert(t[i] == s[i]);
            assert(has_key(t, key));
        }
        if key == e.0 {
            assert(t[s.len() as int] == e);
            assert(has_key(t, key));
        }
    }
    assert forall|key: DateKey| #[trigger] map_of(t).dom().contains(key) implies map_of(t)[key]
        == map_of(s).insert(e.0, e.1)[key] by {
        let i = index_of_key(t, key);
        lemma_map_of_index(t, i);
        if i < s.len() {
            assert(t[i] == s[i]);
            lemma_map_of_index(s, i);
        }
    }
    assert(map_of(t) =~= map_of(s).insert(e.0, e.1));
}

/// Replacing the entry at an index, under the same key, replaces it in the map.
pub proof fn lemma_map_of_update(s: Seq<KeyedEntry>, i: int, v: EntryView)
    requires
        unique_keys(s),
        0 <= i < s.len(),
    ensures
        unique_keys(s.update(i, (s[i].0, v))),
        map_of(s.update(i, (s[i].0, v))) == map_of(s).insert(s[i].0, v),
{
    let k = s[i].0;
    let t = s.update(i, (k, v));
    assert forall|a: int, b: int| 0 <= a < b < t.len() implies (#[trigger] t[a]).0 != (
    #[trigger] t[b]).0 by {
        assert(t[a].0 == s[a].0 && t[b].0 == s[b].0);
    }
    assert forall|key: DateKey| #[trigger]
        map_of(t).dom().contains(key) == map_of(s).insert(k, v).dom().contains(key) by {
        if has_key(t, key) {
            let a = index_of_key(t, key);
            assert(s[a].0 == key);
            assert(has_key(s, key));
        }
        if has_key(s, key) {
            let a = index_of_key(s, key);
            assert(t[a].0 == key);
            assert(has_key(t, key));
        }
        if key == k {
            assert(t[i].0 == key);
            assert(has_key(t, key));
        }
    }
    assert forall|key: DateKey| #[trigger] map_of(t).dom().contains(key) implies map_of(t)[key]
        == map_of(s).insert(k, v)[key] by {
        let a = index_of_key(t, key);
        lemma_map_of_index(t, a);
        if a != i {
            assert(t[a] == s[a]);
            lemma_map_of_index(s, a);
        }
    }
    assert(map_of(t) =~= map_of(s).insert(k, v));
}

/// Taking out the entry at an index removes its key from the map.
pub proof fn lemma_map_of_remove(s: Seq<KeyedEntry>, i: int)
    requires
        unique_keys(s),
        0 <= i < s.len(),
    ensures
        unique_keys(s.remove(i)),
        map_of(s.remove(i)) == map_of(s).remove(s[i].0),
{
    let k = s[i].0;
    let t = s.remove(i);
    assert forall|a: int| 0 <= a < t.len() implies #[trigger] t[a] == s[if a < i {
        a
    } else {
        a + 1
    }] by {}
    assert forall|a: int, b: int| 0 <= a < b < t.len() implies (#[trigger] t[a]).0 != (
    #[trigger] t[b]).0 by {
        let a2 = if a < i {
            a
        } else {
            a + 1
        };
        let b2 = if b < i {
            b
        } else {
            b + 1
        };
        assert(t[a] == s[a2] && t[b] == s[b2]);
        assert(s[a2].0 != s[b2].0);
    }
    assert forall|key: DateKey| #[trigger]
        map_of(t).dom().contains(key) == map_of(s).remove(k).dom().contains(key) by {
        if has_key(t, key) {
            let a = index_of_key(t, key);
            let a2 = if a < i {
                a
            } else {
                a + 1
            };
            assert(t[a] == s[a2]);
            assert(has_key(s, key));
            if key == k {
                if a2 < i {
                    assert(s[a2].0 != s[i].0);
                } else {
                    assert(s[i].0 != s[a2].0);
                }
            }
        }
        if has_key(s, key) && key != k {
            let a = index_of_key(s, key);
            let a1 = if a < i {
                a
            } else {
                a - 1
            };
            assert(t[a1] == s[a]);
            assert(has_key(t, key));
        }
    }
    assert forall|key: DateKey| #[trigger] map_of(t).dom().contains(key) implies map_of(t)[key]
        == map_of(s).remove(k)[key] by {
        let a = index_of_key(t, key);
        lemma_map_of_index(t, a);
        let a2 = if a < i {
            a
        } else {
            a + 1
        };
        assert(t[a] == s[a2]);
        lemma_map_of_index(s, a2);
    }
    assert(map_of(t) =~= map_of(s).remove(k));
}

/// A sequence with unique keys denotes a finite map with as many keys.
pub proof fn lemma_map_of_len(s: Seq<KeyedEntry>)
    requires
        unique_keys(s),
    ensures
        map_of(s).dom().finite(),
        map_of(s).len() == s.len(),
    decreases s.len(),
{
    if s.len() == 0 {
        assert(map_of(s) =~= Map::<DateKey, EntryView>::empty());
    } else {
        let t = s.drop_last();
        let e = s.last();
        assert forall|i: int, j: int| 0 <= i < j < t.len() implies (#[trigger] t[i]).0 != (
        #[trigger] t[j]).0 by {
            assert(t[i] == s[i] && t[j] == s[j]);
        }
        lemma_map_of_len(t);
        if has_key(t, e.0) {
            let i = index_of_key(t, e.0);
            assert(t[i] == s[i]);
            assert(s[i].0 != s[s.len() - 1].0);
        }
        lemma_map_of_push(t, e);
        assert(t.push(e) =~= s);
    }
}

/// `a` comes before `b` in the year: an earlier month, or the same month and an earlier day.
pub open spec fn date_before(a: DateKey, b: DateKey) -> bool {
    a.1 < b.1 || (a.1 == b.1 && a.0 < b.0)
}

/// The entries of `s` are in strictly ascending order of date.
pub open spec fn date_ordered(s: Seq<KeyedEntry>) -> bool {
    forall|i: int, j: int|
        0 <= i < j < s.len() ==> date_before((#[trigger] s[i]).0, (#[trigger] s[j]).0)
}

/// The entries of a map in ascending order of month, then day.
pub open spec fn in_date_order(m: Map<DateKey, EntryView>) -> Seq<KeyedEntry> {
    choose|s: Seq<KeyedEntry>| date_ordered(s) && map_of(s) == m
}

/// Entries in strictly ascending order of date have unique keys.
pub proof fn lemma_date_ordered_unique(s: Seq<KeyedEntry>)
    requires
        date_ordered(s),
    ensures
        unique_keys(s),
{
    assert forall|i: int, j: int| 0 <= i < j < s.len() implies (#[trigger] s[i]).0 != (
    #[trigger] s[j]).0 by {
        assert(date_before(s[i].0, s[j].0));
    }
}

/// A map has at most one listing in ascending order of date.
pub proof fn lemma_date_order_determined(s1: Seq<KeyedEntry>, s2: Seq<KeyedEntry>)
    requires
        date_ordered(s1),
        date_ordered(s2),
        map_of(s1) == map_of(s2),
    ensures
        s1 == s2,
    decreases s1.len(),
{
    lemma_date_ordered_unique(s1);
    lemma_date_ordered_unique(s2);
    lemma_map_of_len(s1);
    lemma_map_of_len(s2);
    assert(s1.len() == s2.len());
    if s1.len() == 0 {
        assert(s1 =~= s2);
    } else {
        let n = s1.len() as int;
        let e1 = s1[n - 1];
        let e2 = s2[n - 1];
        lemma_map_of_index(s1, n - 1);
        lemma_map_of_index(s2, n - 1);
        // each last key occurs in the other sequence, at or before its end
        let i2 = index_of_key(s2, e1.0);
        let i1 = index_of_key(s1, e2.0);
        assert(has_key(s2, e1.0));
        assert(has_key(s1, e2.0));
        assert(0 <= i2 < n && s2[i2].0 == e1.0);
        assert(0 <= i1 < n && s1[i1].0 == e2.0);
        if i2 < n - 1 {
            assert(date_before(s2[i2].0, s2[n - 1].0));
            if i1 < n - 1 {
                assert(date_before(s1[i1].0, s1[n - 1].0));
            }
        }
        assert(e1.0 == e2.0);
        assert(e1 == e2);
        let t1 = s1.drop_last();
        let t2 = s2.drop_last();
        assert forall|i: int, j: int| 0 <= i < j < t1.len() implies date_before(
            (#[trigger] t1[i]).0,
            (#[trigger] t1[j]).0,
        ) by {
            assert(t1[i] == s1[i] && t1[j] == s1[j]);
        }
        assert forall|i: int, j: int| 0 <= i < j < t2.len() implies date_before(
            (#[trigger] t2[i]).0,
            (#[trigger] t2[j]).0,
        ) by {
            assert(t2[i] == s2[i] && t2[j] == s2[j]);
        }
        lemma_date_ordered_unique(t1);
        lemma_date_ordered_unique(t2);
        if has_key(t1, e1.0) {
            let a = index_of_key(t1, e1.0);
            assert(t1[a] == s1[a]);
            assert(s1[a].0 != s1[n - 1].0);
        }
        if has_key(t2, e2.0) {
            let a = index_of_key(t2, e2.0);
            assert(t2[a] == s2[a]);
            assert(s2[a].0 != s2[n - 1].0);
        }
        lemma_map_of_push(t1, e1);
        lemma_map_of_push(t2, e2);
        assert(t1.push(e1) =~= s1);
        assert(t2.push(e2) =~= s2);
        assert(map_of(t1) =~= map_of(s1).remove(e1.0));
        assert(map_of(t2) =~= map_of(s2).remove(e2.0));
        lemma_date_order_determined(t1, t2);
    }
}

/// A listing in ascending order of date is the listing of its map.
pub proof fn lemma_in_date_order(s: Seq<KeyedEntry>)
    requires
        date_ordered(s),
    ensures
        in_date_order(map_of(s)) == s,
{
    let m = map_of(s);
    let chosen = in_date_order(m);
    assert(date_ordered(s) && map_of(s) == m);
    assert(date_ordered(chosen) && map_of(chosen) == m);
    lemma_date_order_determined(chosen, s);
}

/// Putting an entry under a new key anywhere into a sequence inserts it into the map.
pub proof fn lemma_map_of_insert_at(s: Seq<KeyedEntry>, p: int, e: KeyedEntry)
    requires
        unique_keys(s),
        !has_key(s, e.0),
        0 <= p <= s.len(),
    ensures
        unique_keys(s.insert(p, e)),
        map_of(s.insert(p, e)) == map_of(s).insert(e.0, e.1),
{
    let t = s.insert(p, e);
    assert forall|a: int| 0 <= a < t.len() && a != p implies #[trigger] t[a] == s[if a < p {
        a
    } else {
        a - 1
    }] by {}
    assert(t[p] == e);
    assert forall|a: int, b: int| 0 <= a < b < t.len() implies (#[trigger] t[a]).0 != (
    #[trigger] t[b]).0 by {
        let a2 = if a < p {
            a
        } else {
            a - 1
        };
        let b2 = if b < p {
            b
        } else {
            b - 1
        };
        if a == p {
            assert(t[b] == s[b2]);
            if s[b2].0 == e.0 {
                assert(has_key(s, e.0));
            }
        } else if b == p {
            assert(t[a] == s[a2]);
            if s[a2].0 == e.0 {
                assert(has_key(s, e.0));
            }
        } else {
            assert(t[a] == s[a2] && t[b] == s[b2]);
            assert(s[a2].0 != s[b2].0);
        }
    }
    assert forall|key: DateKey| #[trigger]
        map_of(t).dom().contains(key) == map_of(s).insert(e.0, e.1).dom().contains(key) by {
        if has_key(t, key) {
            let a = index_of_key(t, key);
            if a != p {
                let a2 = if a < p {
                    a
                } else {
                    a - 1
                };
                assert(t[a] == s[a2]);
                assert(has_key(s, key));
            }
        }
        if has_key(s, key) {
            let a = index_of_key(s, key);
            let a1 = if a < p {
                a
            } else {
                a + 1
            };
            assert(t[a1] == s[a]);
            assert(has_key(t, key));
        }
        if key == e.0 {
            assert(has_key(t, key));
        }
    }
    assert forall|key: DateKey| #[trigger] map_of(t).dom().contains(key) implies map_of(t)[key]
        == map_of(s).insert(e.0, e.1)[key] by {
        let a = index_of_key(t, key);
        lemma_map_of_index(t, a);
        if a != p {
            let a2 = if a < p {
                a
            } else {
                a - 1
            };
            assert(t[a] == s[a2]);
            lemma_map_of_index(s, a2);
        }
    }
    assert(map_of(t) =~= map_of(s).insert(e.0, e.1));
}

} // verus!
