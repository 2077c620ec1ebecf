//! Lists of strings and of string-keyed entries that are kept in order.
//!
//! A map with string keys is a list of entries whose keys strictly increase. A
//! set of strings is a list that strictly increases.

use crate::text;
use vstd::prelude::*;

verus! {

/// The texts strictly increase.
pub open spec fn increasing(list: Seq<Seq<char>>) -> bool {
    forall|i: int, j: int|
        0 <= i < j < list.len() ==> text::less(#[trigger] list[i], #[trigger] list[j])
}

/// The keys of a list of entries.
pub open spec fn keys<V>(map: Seq<(Seq<char>, V)>) -> Seq<Seq<char>> {
    Seq::new(map.len(), |i: int| map[i].0)
}

/// The entries form a map: their keys strictly increase.
pub open spec fn is_map<V>(map: Seq<(Seq<char>, V)>) -> bool {
    increasing(keys(map))
}

/// The list with a text put in its place. A list that holds it stays the same.
pub open spec fn with_key(list: Seq<Seq<char>>, key: Seq<char>) -> Seq<Seq<char>>
    decreases list.len(),
{
    if list.len() == 0 {
        seq![key]
    } else if key == list[0] {
        list
    } else if text::less(key, list[0]) {
        seq![key] + list
    } else {
        seq![list[0]] + with_key(list.skip(1), key)
    }
}

/// The texts in order, each of them once.
pub open spec fn sorted_unique(list: Seq<Seq<char>>) -> Seq<Seq<char>>
    decreases list.len(),
{
    if list.len() == 0 {
        Seq::empty()
    } else {
        with_key(sorted_unique(list.drop_last()), list.last())
    }
}

/// The map with the entry of a key set to a value.
pub open spec fn put<V>(map: Seq<(Seq<char>, V)>, key: Seq<char>, value: V) -> Seq<(Seq<char>, V)>
    decreases map.len(),
{
    if map.len() == 0 {
        seq![(key, value)]
    } else if key == map[0].0 {
        seq![(key, value)] + map.skip(1)
    } else if text::less(key, map[0].0) {
        seq![(key, value)] + map
    } else {
        seq![map[0]] + put(map.skip(1), key, value)
    }
}

/// The map without the first entry of a key.
pub open spec fn without<V>(map: Seq<(Seq<char>, V)>, key: Seq<char>) -> Seq<(Seq<char>, V)>
    decreases map.len(),
{
    if map.len() == 0 {
        map
    } else if key == map[0].0 {
        map.skip(1)
    } else {
        seq![map[0]] + without(map.skip(1), key)
    }
}

/// The map with every entry of a list put into it, from first to last.
pub open spec fn put_all<V>(map: Seq<(Seq<char>, V)>, entries: Seq<(Seq<char>, V)>) -> Seq<
    (Seq<char>, V),
>
    decreases entries.len(),
{
    if entries.len() == 0 {
        map
    } else {
        put(put_all(map, entries.drop_last()), entries.last().0, entries.last().1)
    }
}

/// The value of the first entry with a key.
pub open spec fn lookup<V>(map: Seq<(Seq<char>, V)>, key: Seq<char>) -> Option<V>
    decreases map.len(),
{
    if map.len() == 0 {
        None
    } else if map[0].0 == key {
        Some(map[0].1)
    } else {
        lookup(map.skip(1), key)
    }
}

// ---------------------------------------------------------------------------
// Laws
// ---------------------------------------------------------------------------

/// Putting a text into an increasing list adds the text, and nothing else, and
/// the list still increases.
pub proof fn law_with_key(list: Seq<Seq<char>>, key: Seq<char>)
    requires
        increasing(list),
    ensures
        increasing(with_key(list, key)),
        forall|x: Seq<char>|
            #[trigger] with_key(list, key).contains(x) <==> (list.contains(x) || x == key),
    decreases list.len(),
{
    let r = with_key(list, key);
    if list.len() == 0 {
        assert(r[0] == key);
        assert forall|x: Seq<char>| r.contains(x) <==> (list.contains(x) || x == key) by {
            if x == key {
                assert(r[0] == x);
            }
        }
    } else if key == list[0] {
        assert(list.contains(key));
    } else if text::less(key, list[0]) {
        assert forall|i: int, j: int| 0 <= i < j < r.len() implies text::less(
            #[trigger] r[i],
            #[trigger] r[j],
        ) by {
            if i == 0 {
                if j > 1 {
                    assert(text::less(list[0], list[j - 1]));
                    text::lemma_less_transitive(key, list[0], list[j - 1]);
                }
            } else {
                assert(text::less(list[i - 1], list[j - 1]));
            }
        }
        assert forall|x: Seq<char>| r.contains(x) <==> (list.contains(x) || x == key) by {
            if x == key {
                assert(r[0] == x);
            }
            if list.contains(x) {
                let k = choose|k: int| 0 <= k < list.len() && list[k] == x;
                assert(r[k + 1] == x);
            }
            if r.contains(x) {
                let k = choose|k: int| 0 <= k < r.len() && r[k] == x;
                if k > 0 {
                    assert(list[k - 1] == x);
                }
            }
        }
    } else {
        let rest = list.skip(1);
        assert forall|i: int, j: int| 0 <= i < j < rest.len() implies text::less(
            #[trigger] rest[i],
            #[trigger] rest[j],
        ) by {
            assert(text::less(list[i + 1], list[j + 1]));
        }
        law_with_key(rest, key);
        let inner = with_key(rest, key);
        text::lemma_less_total(key, list[0]);
        assert forall|i: int, j: int| 0 <= i < j < r.len() implies text::less(
            #[trigger] r[i],
            #[trigger] r[j],
        ) by {
            if i == 0 {
                assert(inner.contains(inner[j - 1]));
                if rest.contains(inner[j - 1]) {
                    let k = choose|k: int| 0 <= k < rest.len() && rest[k] == inner[j - 1];
                    assert(text::less(list[0], list[k + 1]));
                }
            } else {
                assert(text::less(inner[i - 1], inner[j - 1]));
            }
        }
        assert forall|x: Seq<char>| r.contains(x) <==> (list.contains(x) || x == key) by {
            if r.contains(x) {
                let k = choose|k: int| 0 <= k < r.len() && r[k] == x;
                if k == 0 {
                    assert(list[0] == x);
                } else {
                    assert(inner[k - 1] == x);
                    assert(inner.contains(x));
                    if rest.contains(x) {
                        let m = choose|m: int| 0 <= m < rest.len() && rest[m] == x;
                        assert(list[m + 1] == x);
                    }
                }
            }
            if list.contains(x) {
                let k = choose|k: int| 0 <= k < list.len() && list[k] == x;
                if k == 0 {
                    assert(r[0] == x);
                } else {
                    assert(rest[k - 1] == x);
                    assert(rest.contains(x));
                    assert(inner.contains(x));
                    let m = choose|m: int| 0 <= m < inner.len() && inner[m] == x;
                    assert(r[m + 1] == x);
                }
            }
            if x == key {
                assert(inner.contains(x));
                let m = choose|m: int| 0 <= m < inner.len() && inner[m] == x;
                assert(r[m + 1] == x);
            }
        }
    }
}

/// Sorting without repeats gives an increasing list of exactly the same texts.
pub proof fn law_sorted_unique(list: Seq<Seq<char>>)
    ensures
        increasing(sorted_unique(list)),
        forall|x: Seq<char>| #[trigger] sorted_unique(list).contains(x) <==> list.contains(x),
    decreases list.len(),
{
    if list.len() > 0 {
        law_sorted_unique(list.drop_last());
        law_with_key(sorted_unique(list.drop_last()), list.last());
        assert forall|x: Seq<char>| sorted_unique(list).contains(x) <==> list.contains(x) by {
            if list.contains(x) {
                let k = choose|k: int| 0 <= k < list.len() && list[k] == x;
                if k < list.len() - 1 {
                    assert(list.drop_last()[k] == x);
                }
            }
            if list.drop_last().contains(x) {
                let k = choose|k: int| 0 <= k < list.drop_last().len() && list.drop_last()[k] == x;
                assert(list[k] == x);
            }
            assert(list[list.len() - 1] == list.last());
        }
    }
}

proof fn lemma_tail_is_map<V>(map: Seq<(Seq<char>, V)>)
    requires
        is_map(map),
        map.len() > 0,
    ensures
        is_map(map.skip(1)),
{
    let rest = map.skip(1);
    assert forall|i: int, j: int| 0 <= i < j < keys(rest).len() implies text::less(
        #[trigger] keys(rest)[i],
        #[trigger] keys(rest)[j],
    ) by {
        assert(text::less(keys(map)[i + 1], keys(map)[j + 1]));
    }
}

/// Putting an entry into a map adds its key to the keys.
pub proof fn law_put_keys<V>(map: Seq<(Seq<char>, V)>, key: Seq<char>, value: V)
    ensures
        keys(put(map, key, value)) == with_key(keys(map), key),
    decreases map.len(),
{
    if map.len() == 0 {
        assert(keys(put(map, key, value)) =~= with_key(keys(map), key));
    } else if key == map[0].0 {
        assert(keys(put(map, key, value)) =~= keys(map));
    } else if text::less(key, map[0].0) {
        assert(keys(put(map, key, value)) =~= seq![key] + keys(map));
    } else {
        law_put_keys(map.skip(1), key, value);
        assert(keys(map.skip(1)) =~= keys(map).skip(1));
        assert(keys(put(map, key, value)) =~= seq![map[0].0] + keys(
            put(map.skip(1), key, value),
        ));
    }
}

/// A map stays a map when an entry is put into it.
pub proof fn law_put_map<V>(map: Seq<(Seq<char>, V)>, key: Seq<char>, value: V)
    requires
        is_map(map),
    ensures
        is_map(put(map, key, value)),
{
    law_put_keys(map, key, value);
    law_with_key(keys(map), key);
}

/// A read gives back what was last put under the key, and every other key
/// keeps its value.
pub proof fn law_put_lookup<V>(
    map: Seq<(Seq<char>, V)>,
    key: Seq<char>,
    value: V,
    other: Seq<char>,
)
    requires
        is_map(map),
    ensures
        lookup(put(map, key, value), other) == (if other == key {
            Some(value)
        } else {
            lookup(map, other)
        }),
    decreases map.len(),
{
    let r = put(map, key, value);
    if map.len() == 0 {
        assert(r.skip(1) =~= map);
    } else if key == map[0].0 {
        assert(r.skip(1) =~= map.skip(1));
    } else if text::less(key, map[0].0) {
        assert(r.skip(1) =~= map);
    } else {
        lemma_tail_is_map(map);
        law_put_lookup(map.skip(1), key, value, other);
        assert(r.skip(1) =~= put(map.skip(1), key, value));
    }
}

/// A map stays a map when a list of entries is put into it.
pub proof fn law_put_all_map<V>(map: Seq<(Seq<char>, V)>, entries: Seq<(Seq<char>, V)>)
    requires
        is_map(map),
    ensures
        is_map(put_all(map, entries)),
    decreases entries.len(),
{
    if entries.len() > 0 {
        law_put_all_map(map, entries.drop_last());
        law_put_map(put_all(map, entries.drop_last()), entries.last().0, entries.last().1);
    }
}

/// After a list of entries was put into a map, a read gives back the last entry of the
/// list under the key, and what the map held where the list has none.
pub proof fn law_put_all_lookup<V>(
    map: Seq<(Seq<char>, V)>,
    entries: Seq<(Seq<char>, V)>,
    key: Seq<char>,
)
    requires
        is_map(map),
    ensures
        forall|i: int|
            0 <= i < entries.len() && (#[trigger] entries[i]).0 == key && (forall|j: int|
                i < j < entries.len() ==> (#[trigger] entries[j]).0 != key) ==> lookup(
                put_all(map, entries),
                key,
            ) == Some(entries[i].1),
        (forall|i: int| 0 <= i < entries.len() ==> (#[trigger] entries[i]).0 != key) ==> lookup(
            put_all(map, entries),
            key,
        ) == lookup(map, key),
    decreases entries.len(),
{
    if entries.len() > 0 {
        let front = entries.drop_last();
        law_put_all_lookup(map, front, key);
        law_put_all_map(map, front);
        law_put_lookup(put_all(map, front), entries.last().0, entries.last().1, key);
        assert forall|i: int|
            0 <= i < entries.len() && (#[trigger] entries[i]).0 == key && (forall|j: int|
                i < j < entries.len() ==> (#[trigger] entries[j]).0 != key) implies lookup(
            put_all(map, entries),
            key,
        ) == Some(entries[i].1) by {
            if i < front.len() {
                assert(front[i] == entries[i]);
                assert forall|j: int| i < j < front.len() implies (#[trigger] front[j]).0
                    != key by {
                    assert(front[j] == entries[j]);
                }
                assert(entries[entries.len() - 1].0 != key);
            }
        }
        if forall|i: int| 0 <= i < entries.len() ==> (#[trigger] entries[i]).0 != key {
            assert forall|i: int| 0 <= i < front.len() implies (#[trigger] front[i]).0 != key by {
                assert(front[i] == entries[i]);
            }
            assert(entries[entries.len() - 1].0 != key);
        }
    }
}

/// A read finds a value exactly where the key is one of the map's keys, and the value
/// stands with the key.
pub proof fn law_lookup<V>(map: Seq<(Seq<char>, V)>, key: Seq<char>)
    ensures
        lookup(map, key) is Some <==> keys(map).contains(key),
        lookup(map, key) matches Some(v) ==> map.contains((key, v)),
    decreases map.len(),
{
    if map.len() > 0 {
        law_lookup(map.skip(1), key);
        if map[0].0 == key {
            assert(keys(map)[0] == key);
            assert(map[0] == (key, map[0].1));
        } else {
            if keys(map).contains(key) {
                let k = choose|k: int| 0 <= k < keys(map).len() && keys(map)[k] == key;
                assert(keys(map.skip(1))[k - 1] == key);
            }
            if keys(map.skip(1)).contains(key) {
                let k = choose|k: int|
                    0 <= k < keys(map.skip(1)).len() && keys(map.skip(1))[k] == key;
                assert(keys(map)[k + 1] == key);
            }
            if lookup(map.skip(1), key) is Some {
                let v = lookup(map.skip(1), key)->0;
                let k = choose|k: int| 0 <= k < map.skip(1).len() && map.skip(1)[k] == (key, v);
                assert(map[k + 1] == (key, v));
            }
        }
    }
}

proof fn lemma_with_key_shift(list: Seq<Seq<char>>, key: Seq<char>, i: int)
    requires
        0 <= i <= list.len(),
        forall|j: int| 0 <= j < i ==> #[trigger] list[j] != key && !text::less(key, list[j]),
    ensures
        with_key(list, key) == list.take(i) + with_key(list.skip(i), key),
    decreases i,
{
    if i == 0 {
        assert(list.skip(0) =~= list);
        assert(list.take(0) + with_key(list, key) =~= with_key(list, key));
    } else {
        let rest = list.skip(1);
        assert forall|j: int| 0 <= j < i - 1 implies #[trigger] rest[j] != key && !text::less(
            key,
            rest[j],
        ) by {
            assert(list[j + 1] == rest[j]);
        }
        lemma_with_key_shift(rest, key, i - 1);
        assert(list[0] != key && !text::less(key, list[0]));
        assert(rest.skip(i - 1) =~= list.skip(i));
        assert(seq![list[0]] + (rest.take(i - 1) + with_key(list.skip(i), key)) =~= list.take(i)
            + with_key(list.skip(i), key));
    }
}

proof fn lemma_put_shift<V>(map: Seq<(Seq<char>, V)>, key: Seq<char>, value: V, i: int)
    requires
        0 <= i <= map.len(),
        forall|j: int| 0 <= j < i ==> (#[trigger] map[j]).0 != key && !text::less(key, map[j].0),
    ensures
        put(map, key, value) == map.take(i) + put(map.skip(i), key, value),
    decreases i,
{
    if i == 0 {
        assert(map.skip(0) =~= map);
        assert(map.take(0) + put(map, key, value) =~= put(map, key, value));
    } else {
        let rest = map.skip(1);
        assert forall|j: int| 0 <= j < i - 1 implies (#[trigger] rest[j]).0 != key && !text::less(
            key,
            rest[j].0,
        ) by {
            assert(map[j + 1] == rest[j]);
        }
        lemma_put_shift(rest, key, value, i - 1);
        assert(map[0].0 != key && !text::less(key, map[0].0));
        assert(rest.skip(i - 1) =~= map.skip(i));
        assert(seq![map[0]] + (rest.take(i - 1) + put(map.skip(i), key, value)) =~= map.take(i)
            + put(map.skip(i), key, value));
    }
}

// ---------------------------------------------------------------------------
// Executable operations
// ---------------------------------------------------------------------------

/// Puts a string into its place in a list, unless the list holds it.
pub fn insert_key(list: &mut Vec<String>, key: String)
    ensures
        final(list).deep_view() == with_key(old(list).deep_view(), key@),
{
    let ghost before = list.deep_view();
    let mut i: usize = 0;
    while i < list.len()
        invariant
            i <= list.len(),
            before == old(list).deep_view(),
            list.deep_view() == before,
            forall|j: int| 0 <= j < i ==> #[trigger] before[j] != key@ && !text::less(
                key@,
                before[j],
            ),
        decreases list.len() - i,
    {
        assert(before[i as int] == list@[i as int]@);
        if text::same(key.as_str(), list[i].as_str()) {
            proof {
                lemma_with_key_shift(before, key@, i as int);
                assert(before.skip(i as int)[0] == key@);
                assert(before.take(i as int) + before.skip(i as int) =~= before);
            }
            return;
        }
        if text::comes_before(key.as_str(), list[i].as_str()) {
            proof {
                lemma_with_key_shift(before, key@, i as int);
                assert(before.skip(i as int)[0] == before[i as int]);
            }
            let ghost inserted = key@;
            list.insert(i, key);
            proof {
                assert(list.deep_view() =~= before.take(i as int) + (seq![inserted] + before.skip(
                    i as int,
                )));
            }
            return;
        }
        i += 1;
    }
    proof {
        lemma_with_key_shift(before, key@, i as int);
        assert(before.skip(i as int).len() == 0);
        assert(before.take(i as int) =~= before);
    }
    let ghost inserted = key@;
    list.push(key);
    proof {
        assert(list.deep_view() =~= before + seq![inserted]);
    }
}

/// The strings in order, each of them once.
pub fn sort_unique(list: &Vec<String>) -> (r: Vec<String>)
    ensures
        r.deep_view() == sorted_unique(list.deep_view()),
{
    let mut out: Vec<String> = Vec::new();
    let mut i: usize = 0;
    proof {
        assert(out.deep_view() =~= sorted_unique(list.deep_view().take(0)));
    }
    while i < list.len()
        invariant
            i <= list.len(),
            out.deep_view() == sorted_unique(list.deep_view().take(i as int)),
        decreases list.len() - i,
    {
        proof {
            assert(list.deep_view().take(i + 1).drop_last() =~= list.deep_view().take(i as int));
            assert(list.deep_view().take(i + 1).last() == list@[i as int]@);
        }
        insert_key(&mut out, list[i].clone());
        i += 1;
    }
    proof {
        assert(list.deep_view().take(list.len() as int) =~= list.deep_view());
    }
    out
}

/// Sets the entry of a key in a map.
pub fn insert<V: DeepView>(map: &mut Vec<(String, V)>, key: String, value: V)
    ensures
        final(map).deep_view() == put(old(map).deep_view(), key@, value.deep_view()),
{
    let ghost before = map.deep_view();
    let ghost shown = value.deep_view();
    let ghost name = key@;
    let mut i: usize = 0;
    while i < map.len()
        invariant
            i <= map.len(),
            before == old(map).deep_view(),
            map.deep_view() == before,
            key@ == name,
            value.deep_view() == shown,
            forall|j: int| 0 <= j < i ==> (#[trigger] before[j]).0 != name && !text::less(
                name,
                before[j].0,
            ),
        decreases map.len() - i,
    {
        assert(before[i as int].0 == map@[i as int].0@);
        if text::same(key.as_str(), map[i].0.as_str()) {
            proof {
                lemma_put_shift(before, name, shown, i as int);
                assert(before.skip(i as int)[0] == before[i as int]);
                assert(before.skip(i as int).skip(1) =~= before.skip(i + 1));
            }
            map.remove(i);
            map.insert(i, (key, value));
            proof {
                assert(map.deep_view() =~= before.take(i as int) + (seq![(name, shown)]
                    + before.skip(i + 1)));
            }
            return;
        }
        if text::comes_before(key.as_str(), map[i].0.as_str()) {
            proof {
                lemma_put_shift(before, name, shown, i as int);
                assert(before.skip(i as int)[0] == before[i as int]);
            }
            map.insert(i, (key, value));
            proof {
                assert(map.deep_view() =~= before.take(i as int) + (seq![(name, shown)]
                    + before.skip(i as int)));
            }
            return;
        }
        i += 1;
    }
    proof {
        lemma_put_shift(before, name, shown, i as int);
        assert(before.skip(i as int).len() == 0);
        assert(before.take(i as int) =~= before);
    }
    map.push((key, value));
    proof {
        assert(map.deep_view() =~= before + seq![(name, shown)]);
    }
}

/// Puts the entries of a list of string pairs into a map of strings.
pub fn insert_all(map: &mut Vec<(String, String)>, entries: &Vec<(String, String)>)
    ensures
        final(map).deep_view() == put_all(old(map).deep_view(), entries.deep_view()),
{
    let ghost before = map.deep_view();
    let mut i: usize = 0;
    proof {
        assert(entries.deep_view().take(0) =~= Seq::empty());
    }
    while i < entries.len()
        invariant
            i <= entries.len(),
            map.deep_view() == put_all(before, entries.deep_view().take(i as int)),
        decreases entries.len() - i,
    {
        proof {
            assert(entries.deep_view().take(i + 1).drop_last() =~= entries.deep_view().take(
                i as int,
            ));
            assert(entries.deep_view().take(i + 1).last() == (
                entries@[i as int].0@,
                entries@[i as int].1@,
            ));
        }
        insert(map, entries[i].0.clone(), entries[i].1.clone());
        i += 1;
    }
    proof {
        assert(entries.deep_view().take(entries.len() as int) =~= entries.deep_view());
    }
}

/// The value of the first entry with a key.
pub fn get<'a, V: DeepView>(map: &'a Vec<(String, V)>, key: &str) -> (r: Option<&'a V>)
    ensures
        r.deep_view() == lookup(map.deep_view(), key@),
{
    let mut i: usize = 0;
    proof {
        assert(map.deep_view().skip(0) =~= map.deep_view());
    }
    while i < map.len()
        invariant
            i <= map.len(),
            lookup(map.deep_view(), key@) == lookup(map.deep_view().skip(i as int), key@),
        decreases map.len() - i,
    {
        proof {
            assert(map.deep_view().skip(i as int)[0] == map.deep_view()[i as int]);
            assert(map.deep_view().skip(i as int).skip(1) =~= map.deep_view().skip(i + 1));
        }
        if text::same(map[i].0.as_str(), key) {
            return Some(&map[i].1);
        }
        i += 1;
    }
    None
}

/// Takes the first entry of a key out of a map.
pub fn remove<V: DeepView>(map: &mut Vec<(String, V)>, key: &str) -> (r: Option<V>)
    ensures
        final(map).deep_view() == without(old(map).deep_view(), key@),
        r.deep_view() == lookup(old(map).deep_view(), key@),
{
    let ghost before = map.deep_view();
    let mut i: usize = 0;
    proof {
        assert(before.skip(0) =~= before);
        assert(before.take(0) + without(before, key@) =~= without(before, key@));
    }
    while i < map.len()
        invariant
            i <= map.len(),
            before == old(map).deep_view(),
            map.deep_view() == before,
            lookup(before, key@) == lookup(before.skip(i as int), key@),
            without(before, key@) == before.take(i as int) + without(
                before.skip(i as int),
                key@,
            ),
        decreases map.len() - i,
    {
        proof {
            assert(before.skip(i as int)[0] == before[i as int]);
            assert(before.skip(i as int).skip(1) =~= before.skip(i + 1));
            assert(before[i as int] == (map@[i as int].0@, map@[i as int].1.deep_view()));
        }
        if text::same(map[i].0.as_str(), key) {
            let entry = map.remove(i);
            proof {
                assert(map.deep_view() =~= before.take(i as int) + before.skip(i + 1));
            }
            return Some(entry.1);
        }
        proof {
            assert(before.take(i as int) + (seq![before[i as int]] + without(
                before.skip(i + 1),
                key@,
            )) =~= before.take(i + 1) + without(before.skip(i + 1), key@));
        }
        i += 1;
    }
    proof {
        assert(before.skip(i as int).len() == 0);
        assert(before.take(i as int) + without(before.skip(i as int), key@) =~= before);
    }
    None
}

/// Taking an entry out of a map leaves a map without it, in which every other
/// key keeps its value.
pub proof fn law_without<V>(map: Seq<(Seq<char>, V)>, key: Seq<char>, other: Seq<char>)
    requires
        is_map(map),
    ensures
        is_map(without(map, key)),
        lookup(without(map, key), key) is None,
        other != key ==> lookup(without(map, key), other) == lookup(map, other),
    decreases map.len(),
{
    if map.len() > 0 {
        let rest = map.skip(1);
        assert(keys(rest) =~= keys(map).skip(1));
        assert(is_map(rest)) by {
            assert forall|i: int, j: int| 0 <= i < j < rest.len() implies text::less(
                #[trigger] keys(rest)[i],
                #[trigger] keys(rest)[j],
            ) by {
                assert(keys(rest)[i] == keys(map)[i + 1]);
                assert(keys(rest)[j] == keys(map)[j + 1]);
            }
        }
        law_without(rest, key, other);
        assert forall|k: int| 0 <= k < rest.len() implies text::less(
            map[0].0,
            (#[trigger] rest[k]).0,
        ) by {
            assert(keys(map)[0] == map[0].0);
            assert(keys(map)[k + 1] == rest[k].0);
        }
        lemma_without_kept(rest, key);
        if key == map[0].0 {
            text::lemma_less_irreflexive(key);
            lemma_lookup_none(rest, key);
        } else {
            let removed = without(map, key);
            let tail = without(rest, key);
            assert(removed == seq![map[0]] + tail);
            assert(removed.skip(1) =~= tail);
            assert forall|i: int, j: int| 0 <= i < j < removed.len() implies text::less(
                #[trigger] keys(removed)[i],
                #[trigger] keys(removed)[j],
            ) by {
                assert(keys(removed)[j] == keys(tail)[j - 1]);
                if i == 0 {
                    let k = choose|k: int| 0 <= k < rest.len() && rest[k] == tail[j - 1];
                    assert(rest.contains(tail[j - 1]));
                    assert(text::less(map[0].0, rest[k].0));
                } else {
                    assert(keys(removed)[i] == keys(tail)[i - 1]);
                }
            }
        }
    }
}

/// Every entry of a map without a key is an entry of the map.
proof fn lemma_without_kept<V>(map: Seq<(Seq<char>, V)>, key: Seq<char>)
    ensures
        forall|i: int| 0 <= i < without(map, key).len() ==> map.contains(#[trigger] without(map, key)[i]),
    decreases map.len(),
{
    if map.len() > 0 {
        let rest = map.skip(1);
        lemma_without_kept(rest, key);
        assert forall|i: int| 0 <= i < without(map, key).len() implies map.contains(
            #[trigger] without(map, key)[i],
        ) by {
            let entry = without(map, key)[i];
            if key == map[0].0 {
                assert(entry == map[i + 1]);
            } else if i == 0 {
                assert(entry == map[0]);
            } else {
                assert(entry == without(rest, key)[i - 1]);
                assert(rest.contains(entry));
                let k = choose|k: int| 0 <= k < rest.len() && rest[k] == entry;
                assert(map[k + 1] == entry);
            }
        }
    }
}

/// A key that no entry has is not found.
proof fn lemma_lookup_none<V>(map: Seq<(Seq<char>, V)>, key: Seq<char>)
    requires
        forall|i: int| 0 <= i < map.len() ==> (#[trigger] map[i]).0 != key,
    ensures
        lookup(map, key) is None,
    decreases map.len(),
{
    if map.len() > 0 {
        assert forall|i: int| 0 <= i < map.skip(1).len() implies (#[trigger] map.skip(1)[i]).0
            != key by {
            assert(map.skip(1)[i] == map[i + 1]);
        }
        lemma_lookup_none(map.skip(1), key);
    }
}

} // verus!
