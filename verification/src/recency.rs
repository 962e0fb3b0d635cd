//! The order of use in a bounded cache, as a mathematical model: what a hit
//! and a miss do to the cached items, and what follows for any sequence of
//! accesses.
//!
//! The items are a sequence of keys with their values, the most recently
//! used first. A key is the path of an entry, as its characters.

use crate::file_data::FileData;
use vstd::prelude::*;

verus! {

/// The first place in `items` that holds `key`, if any does.
pub open spec fn key_index(items: Seq<(Seq<char>, FileData)>, key: Seq<char>) -> Option<int>
    decreases items.len(),
{
    if items.len() == 0 {
        None
    } else if items[0].0 == key {
        Some(0)
    } else {
        match key_index(items.skip(1), key) {
            Some(i) => Some(i + 1),
            None => None,
        }
    }
}

/// The items after a hit at place `i`: that item moves to the front, the
/// others keep their order.
pub open spec fn touched(items: Seq<(Seq<char>, FileData)>, i: int) -> Seq<(Seq<char>, FileData)> {
    seq![items[i]] + items.remove(i)
}

/// The items after a miss: the new item stands at the front, and where the
/// cache was full the last item, the least recently used, has left.
pub open spec fn admitted(
    items: Seq<(Seq<char>, FileData)>,
    limit: nat,
    key: Seq<char>,
    value: FileData,
) -> Seq<(Seq<char>, FileData)> {
    seq![(key, value)] + if items.len() == limit {
        items.drop_last()
    } else {
        items
    }
}

/// Whether no key occurs twice in `items`.
pub open spec fn distinct_keys(items: Seq<(Seq<char>, FileData)>) -> bool {
    forall|i: int, j: int| 0 <= i < j < items.len() ==> items[i].0 != items[j].0
}

/// What `key_index` returns is a place that holds the key, and the first such
/// place; it returns `None` exactly when no place holds the key.
pub proof fn lemma_key_index(items: Seq<(Seq<char>, FileData)>, key: Seq<char>)
    ensures
        match key_index(items, key) {
            Some(i) => 0 <= i < items.len() && items[i].0 == key && forall|j: int|
                0 <= j < i ==> items[j].0 != key,
            None => forall|j: int| 0 <= j < items.len() ==> items[j].0 != key,
        },
    decreases items.len(),
{
    if items.len() > 0 && items[0].0 != key {
        let rest = items.skip(1);
        lemma_key_index(rest, key);
        match key_index(rest, key) {
            Some(i) => {
                assert forall|j: int| 0 <= j < i + 1 implies items[j].0 != key by {
                    if j > 0 {
                        assert(rest[j - 1].0 != key);
                    }
                }
            },
            None => {
                assert forall|j: int| 0 <= j < items.len() implies items[j].0 != key by {
                    if j > 0 {
                        assert(rest[j - 1].0 != key);
                    }
                }
            },
        }
    }
}

/// A hit keeps the number of items and keeps the keys distinct.
pub proof fn lemma_touched(items: Seq<(Seq<char>, FileData)>, i: int)
    requires
        distinct_keys(items),
        0 <= i < items.len(),
    ensures
        touched(items, i).len() == items.len(),
        distinct_keys(touched(items, i)),
        touched(items, i)[0] == items[i],
{
}

/// A miss never takes the cache over its capacity, and keeps the keys
/// distinct.
pub proof fn lemma_admitted(
    items: Seq<(Seq<char>, FileData)>,
    limit: nat,
    key: Seq<char>,
    value: FileData,
)
    requires
        distinct_keys(items),
        items.len() <= limit,
        limit > 0,
        key_index(items, key) is None,
    ensures
        admitted(items, limit, key, value).len() <= limit,
        distinct_keys(admitted(items, limit, key, value)),
        admitted(items, limit, key, value)[0] == (key, value),
{
    lemma_key_index(items, key);
}

/// The items after one access: a hit moves the item to the front, a miss
/// admits `value` under `key`.
pub open spec fn accessed(
    items: Seq<(Seq<char>, FileData)>,
    limit: nat,
    key: Seq<char>,
    value: FileData,
) -> Seq<(Seq<char>, FileData)> {
    match key_index(items, key) {
        Some(i) => touched(items, i),
        None => admitted(items, limit, key, value),
    }
}

/// The items after the accesses `accesses`, one after the other. Each access
/// is a key with the value that would be built for it on a miss.
pub open spec fn accessed_all(
    items: Seq<(Seq<char>, FileData)>,
    limit: nat,
    accesses: Seq<(Seq<char>, FileData)>,
) -> Seq<(Seq<char>, FileData)>
    decreases accesses.len(),
{
    if accesses.len() == 0 {
        items
    } else {
        accessed(
            accessed_all(items, limit, accesses.drop_last()),
            limit,
            accesses.last().0,
            accesses.last().1,
        )
    }
}

/// The keys of `items`, in order.
pub open spec fn keys_of(items: Seq<(Seq<char>, FileData)>) -> Seq<Seq<char>> {
    items.map_values(|item: (Seq<char>, FileData)| item.0)
}

/// `keys` without every occurrence of `key`.
pub open spec fn without(keys: Seq<Seq<char>>, key: Seq<char>) -> Seq<Seq<char>>
    decreases keys.len(),
{
    if keys.len() == 0 {
        keys
    } else if keys.last() == key {
        without(keys.drop_last(), key)
    } else {
        without(keys.drop_last(), key).push(keys.last())
    }
}

/// The keys that occur in `accessed`, each once, ordered by their last
/// occurrence: the key accessed last comes first.
pub open spec fn by_recency(accessed: Seq<Seq<char>>) -> Seq<Seq<char>>
    decreases accessed.len(),
{
    if accessed.len() == 0 {
        accessed
    } else {
        seq![accessed.last()] + without(by_recency(accessed.drop_last()), accessed.last())
    }
}

/// The first `limit` of `keys`, or all of them where they are fewer.
pub open spec fn leading(keys: Seq<Seq<char>>, limit: nat) -> Seq<Seq<char>> {
    if keys.len() <= limit {
        keys
    } else {
        keys.take(limit as int)
    }
}

/// Taking a key out of keys that do not hold it changes nothing; taking it
/// out of distinct keys that hold it at `at` removes that one place.
proof fn lemma_without(keys: Seq<Seq<char>>, key: Seq<char>, at: int)
    requires
        keys.no_duplicates(),
    ensures
        !keys.contains(key) ==> without(keys, key) == keys,
        0 <= at < keys.len() && keys[at] == key ==> without(keys, key) == keys.remove(at),
    decreases keys.len(),
{
    if keys.len() > 0 {
        let front = keys.drop_last();
        lemma_without(front, key, at);
    }
}

/// The keys by recency are distinct.
proof fn lemma_by_recency_distinct(accessed: Seq<Seq<char>>)
    ensures
        by_recency(accessed).no_duplicates(),
    decreases accessed.len(),
{
    if accessed.len() > 0 {
        let key = accessed.last();
        let earlier = by_recency(accessed.drop_last());
        lemma_by_recency_distinct(accessed.drop_last());
        let rest = without(earlier, key);
        if earlier.contains(key) {
            let at = choose|at: int| 0 <= at < earlier.len() && earlier[at] == key;
            lemma_without(earlier, key, at);
        } else {
            lemma_without(earlier, key, 0);
        }
        assert(!rest.contains(key) && rest.no_duplicates());
    }
}

/// However a cache within its capacity is accessed, it stays within its
/// capacity and holds no key twice.
pub proof fn lemma_accesses_keep_bound(
    items: Seq<(Seq<char>, FileData)>,
    limit: nat,
    accesses: Seq<(Seq<char>, FileData)>,
)
    requires
        limit > 0,
        items.len() <= limit,
        distinct_keys(items),
    ensures
        accessed_all(items, limit, accesses).len() <= limit,
        distinct_keys(accessed_all(items, limit, accesses)),
    decreases accesses.len(),
{
    if accesses.len() > 0 {
        lemma_accesses_keep_bound(items, limit, accesses.drop_last());
        let before = accessed_all(items, limit, accesses.drop_last());
        lemma_key_index(before, accesses.last().0);
        match key_index(before, accesses.last().0) {
            Some(i) => lemma_touched(before, i),
            None => lemma_admitted(before, limit, accesses.last().0, accesses.last().1),
        }
    }
}

/// A miss on a full cache drops the last item, the least recently used, and
/// no other: every other item moves one place back.
pub proof fn lemma_miss_drops_least_recent(
    items: Seq<(Seq<char>, FileData)>,
    limit: nat,
    key: Seq<char>,
    value: FileData,
)
    requires
        limit > 0,
        items.len() == limit,
        distinct_keys(items),
        key_index(items, key) is None,
    ensures
        accessed(items, limit, key, value) == seq![(key, value)] + items.drop_last(),
        key_index(accessed(items, limit, key, value), items.last().0) is None,
        forall|i: int|
            0 <= i < items.len() - 1 ==> accessed(items, limit, key, value)[i + 1] == items[i],
{
    lemma_key_index(items, key);
    lemma_key_index(accessed(items, limit, key, value), items.last().0);
}

/// A cache that starts empty holds, after any accesses, exactly the keys
/// accessed most recently: the distinct keys in the order of their last
/// access, the latest first, as many as the capacity allows.
pub proof fn lemma_cache_holds_most_recent(limit: nat, accesses: Seq<(Seq<char>, FileData)>)
    requires
        limit > 0,
    ensures
        keys_of(accessed_all(Seq::empty(), limit, accesses)) == leading(
            by_recency(keys_of(accesses)),
            limit,
        ),
    decreases accesses.len(),
{
    let none = Seq::<(Seq<char>, FileData)>::empty();
    if accesses.len() > 0 {
        let earlier = accesses.drop_last();
        let key = accesses.last().0;
        let value = accesses.last().1;
        lemma_cache_holds_most_recent(limit, earlier);
        lemma_accesses_keep_bound(none, limit, earlier);
        let items = accessed_all(none, limit, earlier);
        let held = keys_of(items);
        let recent = by_recency(keys_of(earlier));
        lemma_by_recency_distinct(keys_of(earlier));
        // The keys held before the last access are the first of `recent`.
        assert(keys_of(accesses).drop_last() =~= keys_of(earlier));
        lemma_key_index(items, key);
        assert(forall|j: int| 0 <= j < held.len() ==> held[j] == recent[j]);
        match key_index(items, key) {
            // A hit at place `i`: the key leaves that place and goes to the front.
            Some(i) => lemma_without(recent, key, i),
            // A miss: the key is either new, or it was dropped earlier and stands in
            // `recent` behind the keys that are held.
            None => {
                if recent.contains(key) {
                    let at = choose|at: int| 0 <= at < recent.len() && recent[at] == key;
                    lemma_without(recent, key, at);
                } else {
                    lemma_without(recent, key, 0);
                }
            },
        }
    }
}

} // verus!
