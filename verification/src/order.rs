//! Keeping rows in falling order of an integer key.

use vstd::prelude::*;
use vstd::seq_lib::*;

verus! {

/// Whether `keys` never rise from one position to a later one.
pub open spec fn falling(keys: Seq<i64>) -> bool {
    forall|i: int, j: int| 0 <= i <= j < keys.len() ==> keys[i] >= keys[j]
}

/// How many of `keys` are at least `key`: the place at which `key` goes
/// among falling keys, behind those that are as large.
pub open spec fn place_of(keys: Seq<i64>, key: i64) -> int {
    keys.filter(|k: i64| k >= key).len() as int
}

/// `items` in falling order of `key`; items with the same key keep the order
/// in which they stand in `items`.
pub open spec fn falling_by<A>(items: Seq<A>, key: spec_fn(A) -> i64) -> Seq<A>
    decreases items.len(),
{
    if items.len() == 0 {
        items
    } else {
        let front = falling_by(items.drop_last(), key);
        front.insert(place_of(front.map_values(key), key(items.last())), items.last())
    }
}

/// Among falling keys, the place of `key` is where the keys fall below it.
pub proof fn lemma_place(keys: Seq<i64>, key: i64, at: int)
    requires
        0 <= at <= keys.len(),
        forall|i: int| 0 <= i < at ==> keys[i] >= key,
        forall|i: int| at <= i < keys.len() ==> keys[i] < key,
    ensures
        place_of(keys, key) == at,
    decreases keys.len(),
{
    reveal(Seq::filter);
    if keys.len() > 0 {
        let front = keys.drop_last();
        if at == keys.len() {
            lemma_place(front, key, at - 1);
        } else {
            lemma_place(front, key, at);
        }
    }
}

/// Among falling keys, the keys before the place of `key` are at least
/// `key`, and those from it on are below.
pub proof fn lemma_place_splits(keys: Seq<i64>, key: i64)
    requires
        falling(keys),
    ensures
        0 <= place_of(keys, key) <= keys.len(),
        forall|i: int| 0 <= i < place_of(keys, key) ==> keys[i] >= key,
        forall|i: int| place_of(keys, key) <= i < keys.len() ==> keys[i] < key,
    decreases keys.len(),
{
    reveal(Seq::filter);
    if keys.len() > 0 {
        let front = keys.drop_last();
        let last = keys.last();
        assert forall|i: int, j: int| 0 <= i <= j < front.len() implies front[i] >= front[j] by {
            assert(keys[i] >= keys[j]);
        }
        lemma_place_splits(front, key);
        if last >= key {
            assert forall|i: int| 0 <= i < front.len() implies front[i] >= key by {
                assert(keys[i] >= keys[keys.len() - 1]);
            }
            lemma_place(front, key, front.len() as int);
            assert(place_of(keys, key) == keys.len());
            assert forall|i: int| 0 <= i < keys.len() implies keys[i] >= key by {
                if i < front.len() {
                    assert(front[i] == keys[i]);
                }
            }
        } else {
            assert(place_of(keys, key) == place_of(front, key));
            assert forall|i: int| 0 <= i < place_of(keys, key) implies keys[i] >= key by {
                assert(front[i] == keys[i]);
            }
            assert forall|i: int| place_of(keys, key) <= i < keys.len() implies keys[i] < key by {
                if i < front.len() {
                    assert(front[i] == keys[i]);
                }
            }
        }
    }
}

/// Ordering a sequence that has grown by one item puts the item in its
/// place among the others.
pub proof fn lemma_falling_by_push<A>(items: Seq<A>, item: A, key: spec_fn(A) -> i64)
    ensures
        falling_by(items.push(item), key) == falling_by(items, key).insert(
            place_of(falling_by(items, key).map_values(key), key(item)),
            item,
        ),
{
    assert(items.push(item).drop_last() =~= items);
}

/// The ordered sequence holds the same items as the sequence, each as often,
/// and its keys fall.
pub proof fn lemma_falling_by_sound<A>(items: Seq<A>, key: spec_fn(A) -> i64)
    ensures
        falling_by(items, key).to_multiset() == items.to_multiset(),
        falling_by(items, key).len() == items.len(),
        falling(falling_by(items, key).map_values(key)),
    decreases items.len(),
{
    if items.len() > 0 {
        let front = falling_by(items.drop_last(), key);
        let keys = front.map_values(key);
        let item = items.last();
        let at = place_of(keys, key(item));
        lemma_falling_by_sound(items.drop_last(), key);
        lemma_place_splits(keys, key(item));
        to_multiset_insert(front, at, item);
        to_multiset_build(items.drop_last(), item);
        assert(items.drop_last().push(item) =~= items);
        let after = front.insert(at, item).map_values(key);
        assert(after =~= keys.insert(at, key(item)));
        assert forall|i: int, j: int| 0 <= i <= j < after.len() implies after[i] >= after[j] by {
            if i < at && j > at {
                assert(keys[i] >= key(item));
                assert(keys[j - 1] < key(item));
            } else if i < at && j < at {
                assert(keys[i] >= keys[j]);
            } else if i > at {
                assert(keys[i - 1] >= keys[j - 1]);
            } else if i == at && j > at {
                assert(keys[j - 1] < key(item));
            } else if j == at && i < at {
                assert(keys[i] >= key(item));
            }
        }
    }
}

/// Inserts `item` into `items`, whose keys stand in `keys` in falling order,
/// at the place of `key`, and answers the place.
pub(crate) fn insert_falling<T>(items: &mut Vec<T>, keys: &mut Vec<i64>, item: T, key: i64) -> (at: usize)
    requires
        old(items).len() == old(keys).len(),
        falling(old(keys)@),
    ensures
        at == place_of(old(keys)@, key),
        final(items)@ == old(items)@.insert(at as int, item),
        final(keys)@ == old(keys)@.insert(at as int, key),
        falling(final(keys)@),
{
    let mut at: usize = 0;
    while at < keys.len() && keys[at] >= key
        invariant
            at <= keys.len(),
            keys == old(keys),
            forall|i: int| 0 <= i < at ==> keys@[i] >= key,
        decreases keys.len() - at,
    {
        at += 1;
    }
    proof {
        assert forall|i: int| at <= i < keys.len() implies keys@[i] < key by {
            assert(keys@[at as int] >= keys@[i]);
        }
        lemma_place(keys@, key, at as int);
    }
    items.insert(at, item);
    keys.insert(at, key);
    at
}

} // verus!
