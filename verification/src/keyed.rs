//! Lists of items that are kept in the order of their keys, one item per
//! key.

use vstd::prelude::*;
use crate::order::{compare, lemma_precedes_total, lemma_precedes_transitive, precedes, Precedence};

verus! {

/// An item that is found by a key of text.
pub trait Keyed {
    /// The key of the item.
    spec fn key(&self) -> Seq<char>;

    /// The key of the item.
    fn key_text(&self) -> (text: &str)
        ensures
            text@ == self.key(),
    ;
}

/// Whether the keys of `items` rise strictly from each item to the next.
pub open spec fn sorted<T: Keyed>(items: Seq<T>) -> bool {
    forall|i: int, j: int|
        0 <= i < j < items.len() ==> precedes(#[trigger] items[i].key(), #[trigger] items[j].key())
}

/// Number of items at the front of `items` whose keys come before `key`. In
/// a sorted list these are all the items with such keys.
pub open spec fn rank<T: Keyed>(items: Seq<T>, key: Seq<char>) -> int
    decreases items.len(),
{
    if items.len() == 0 {
        0
    } else if precedes(items[0].key(), key) {
        1 + rank(items.drop_first(), key)
    } else {
        0
    }
}

/// The item of a sorted list that has the key `key`, if there is one.
pub open spec fn lookup<T: Keyed>(items: Seq<T>, key: Seq<char>) -> Option<T> {
    let place = rank(items, key);
    if place < items.len() && items[place].key() == key {
        Some(items[place])
    } else {
        None
    }
}

/// A sorted list with `item` in it: in place of the item that had its key,
/// or else at the place that keeps the list sorted.
pub open spec fn inserted<T: Keyed>(items: Seq<T>, item: T) -> Seq<T> {
    let place = rank(items, item.key());
    if place < items.len() && items[place].key() == item.key() {
        items.update(place, item)
    } else {
        items.insert(place, item)
    }
}

/// The sorted list of the items of `items`, put in one after the other: of
/// two items with the same key the later one stays.
pub open spec fn collected<T: Keyed>(items: Seq<T>) -> Seq<T>
    decreases items.len(),
{
    if items.len() == 0 {
        Seq::empty()
    } else {
        inserted(collected(items.drop_last()), items.last())
    }
}

/// The rank of a key is the length of the front whose keys come before it.
pub proof fn lemma_rank<T: Keyed>(items: Seq<T>, key: Seq<char>, place: int)
    requires
        0 <= place <= items.len(),
        forall|k: int| 0 <= k < place ==> precedes(#[trigger] items[k].key(), key),
        place < items.len() ==> !precedes(items[place].key(), key),
    ensures
        rank(items, key) == place,
    decreases place,
{
    if place > 0 {
        let rest = items.drop_first();
        assert forall|k: int| 0 <= k < place - 1 implies precedes(#[trigger] rest[k].key(), key) by {
            assert(rest[k] == items[k + 1]);
        }
        if place < items.len() {
            assert(rest[place - 1] == items[place]);
        }
        lemma_rank(rest, key, place - 1);
    }
}

/// In a sorted list the rank of a key splits the list: the keys in front of
/// it come before the key, and the keys behind it do not.
pub proof fn lemma_rank_splits<T: Keyed>(items: Seq<T>, key: Seq<char>)
    requires
        sorted(items),
    ensures
        0 <= rank(items, key) <= items.len(),
        forall|k: int| 0 <= k < rank(items, key) ==> precedes(#[trigger] items[k].key(), key),
        forall|k: int|
            rank(items, key) <= k < items.len() ==> !precedes(#[trigger] items[k].key(), key),
    decreases items.len(),
{
    if items.len() > 0 {
        let rest = items.drop_first();
        assert(sorted(rest)) by {
            assert forall|i: int, j: int| 0 <= i < j < rest.len() implies precedes(
                #[trigger] rest[i].key(),
                #[trigger] rest[j].key(),
            ) by {
                assert(rest[i] == items[i + 1]);
                assert(rest[j] == items[j + 1]);
            }
        }
        lemma_rank_splits(rest, key);
        if precedes(items[0].key(), key) {
            assert forall|k: int| 0 <= k < rank(items, key) implies precedes(
                #[trigger] items[k].key(),
                key,
            ) by {
                if k > 0 {
                    assert(rest[k - 1] == items[k]);
                }
            }
            assert forall|k: int| rank(items, key) <= k < items.len() implies !precedes(
                #[trigger] items[k].key(),
                key,
            ) by {
                assert(rest[k - 1] == items[k]);
            }
        } else {
            assert forall|k: int| 0 <= k < items.len() implies !precedes(
                #[trigger] items[k].key(),
                key,
            ) by {
                if k > 0 && precedes(items[k].key(), key) {
                    lemma_precedes_transitive(items[0].key(), items[k].key(), key);
                }
            }
        }
    }
}

/// A sorted list holds an item with a given key exactly where `lookup`
/// finds it, and then it is that item.
pub proof fn lemma_lookup<T: Keyed>(items: Seq<T>, key: Seq<char>, i: int)
    requires
        sorted(items),
        0 <= i < items.len(),
        items[i].key() == key,
    ensures
        rank(items, key) == i,
        lookup(items, key) == Some(items[i]),
{
    lemma_rank_splits(items, key);
    lemma_precedes_total(key, key);
    let place = rank(items, key);
    if place < i {
        lemma_precedes_total(items[place].key(), key);
        assert(precedes(items[place].key(), items[i].key()));
    }
}

/// Inserting keeps a sorted list sorted. Afterwards the item is found by
/// its key, and every other key finds what it found before.
pub proof fn lemma_inserted<T: Keyed>(items: Seq<T>, item: T)
    requires
        sorted(items),
    ensures
        sorted(inserted(items, item)),
        lookup(inserted(items, item), item.key()) == Some(item),
        forall|key: Seq<char>|
            key != item.key() ==> #[trigger] lookup(inserted(items, item), key) == lookup(
                items,
                key,
            ),
{
    let key = item.key();
    let place = rank(items, key);
    let after = inserted(items, item);
    lemma_rank_splits(items, key);
    let replaced = place < items.len() && items[place].key() == key;
    // Every key behind the place comes behind the new key.
    assert forall|k: int| place <= k < items.len() && !(replaced && k == place) implies precedes(
        key,
        #[trigger] items[k].key(),
    ) by {
        lemma_precedes_total(key, items[place].key());
        if k > place {
            if replaced {
            } else {
                lemma_precedes_transitive(key, items[place].key(), items[k].key());
            }
        }
    }
    assert(sorted(after)) by {
        assert forall|i: int, j: int| 0 <= i < j < after.len() implies precedes(
            #[trigger] after[i].key(),
            #[trigger] after[j].key(),
        ) by {
            if replaced {
                assert(after[i].key() == items[i].key());
                assert(after[j].key() == items[j].key());
            } else {
                let from_i = if i < place {
                    i
                } else {
                    i - 1
                };
                let from_j = if j < place {
                    j
                } else {
                    j - 1
                };
                if i != place {
                    assert(after[i] == items[from_i]);
                }
                if j != place {
                    assert(after[j] == items[from_j]);
                }
            }
        }
    }
    assert(after[place] == item);
    lemma_lookup(after, key, place);
    assert forall|other: Seq<char>| other != key implies #[trigger] lookup(after, other) == lookup(
        items,
        other,
    ) by {
        lemma_rank_splits(items, other);
        lemma_rank_splits(after, other);
        let before_place = rank(items, other);
        lemma_precedes_total(other, key);
        if replaced {
            assert forall|k: int| 0 <= k < before_place implies precedes(
                #[trigger] after[k].key(),
                other,
            ) by {
                assert(after[k].key() == items[k].key());
            }
            if before_place < after.len() {
                assert(after[before_place].key() == items[before_place].key());
            }
            lemma_rank(after, other, before_place);
        } else if precedes(key, other) {
            // The new item stands in front of the place of `other`.
            assert(place <= before_place) by {
                if before_place < place {
                    lemma_precedes_transitive(items[before_place].key(), key, other);
                }
            }
            assert forall|k: int| 0 <= k < before_place + 1 implies precedes(
                #[trigger] after[k].key(),
                other,
            ) by {
                if k < place {
                    assert(after[k] == items[k]);
                } else if k > place {
                    assert(after[k] == items[k - 1]);
                }
            }
            if before_place + 1 < after.len() {
                assert(after[before_place + 1] == items[before_place]);
            }
            lemma_rank(after, other, before_place + 1);
            if before_place < items.len() {
                assert(after[before_place + 1] == items[before_place]);
            }
        } else {
            // The new item stands behind the place of `other`.
            assert(before_place <= place) by {
                if place < before_place {
                    lemma_precedes_transitive(key, items[place].key(), other);
                    lemma_precedes_total(key, other);
                }
            }
            assert forall|k: int| 0 <= k < before_place implies precedes(
                #[trigger] after[k].key(),
                other,
            ) by {
                assert(after[k] == items[k]);
            }
            if before_place < place {
                assert(after[before_place] == items[before_place]);
            } else {
                assert(after[before_place] == item);
            }
            lemma_rank(after, other, before_place);
        }
    }
}

/// A list of items in the order of their keys, with one item for each key.
#[derive(Debug, Clone)]
pub struct KeyedList<T> {
    items: Vec<T>,
}

impl<T> View for KeyedList<T> {
    type V = Seq<T>;

    closed spec fn view(&self) -> Seq<T> {
        self.items@
    }
}

impl<T: Keyed> KeyedList<T> {
    /// The keys rise strictly from each item to the next.
    pub open spec fn wf(&self) -> bool {
        sorted(self@)
    }

    /// A list without items.
    pub fn new() -> (list: KeyedList<T>)
        ensures
            list@ == Seq::<T>::empty(),
            list.wf(),
    {
        KeyedList { items: Vec::new() }
    }

    /// The list of the items of `items`; of two items with the same key
    /// the later one stays.
    pub fn from_items(items: Vec<T>) -> (list: KeyedList<T>)
        ensures
            list.wf(),
            list@ == collected(items@),
    {
        let mut list = KeyedList::new();
        let ghost all = items@;
        for item in it: items
            invariant
                it.seq() == all,
                list.wf(),
                list@ == collected(all.take(it.index() as int)),
        {
            assert(all.take(it.index() + 1).drop_last() == all.take(it.index() as int));
            list.insert(item);
        }
        assert(all.take(all.len() as int) == all);
        list
    }

    /// Number of items.
    pub fn len(&self) -> (len: usize)
        ensures
            len == self@.len(),
    {
        self.items.len()
    }

    /// The item at place `i` in the order of keys.
    pub fn at(&self, i: usize) -> (item: &T)
        requires
            i < self@.len(),
        ensures
            *item == self@[i as int],
    {
        &self.items[i]
    }

    /// The rank of `key`, and whether the item there has that key.
    fn search(&self, key: &str) -> (found: (usize, bool))
        requires
            self.wf(),
        ensures
            found.0 == rank(self@, key@),
            found.0 <= self@.len(),
            found.1 == (found.0 < self@.len() && self@[found.0 as int].key() == key@),
    {
        let mut i: usize = 0;
        while i < self.items.len()
            invariant
                i <= self.items.len(),
                forall|k: int| 0 <= k < i ==> precedes(#[trigger] self@[k].key(), key@),
            decreases self.items.len() - i,
        {
            match compare(self.items[i].key_text(), key) {
                Precedence::Before => {
                    i += 1;
                },
                Precedence::Same => {
                    proof {
                        lemma_precedes_total(key@, key@);
                        lemma_rank(self@, key@, i as int);
                    }
                    return (i, true);
                },
                Precedence::After => {
                    proof {
                        lemma_precedes_total(self@[i as int].key(), key@);
                        lemma_rank(self@, key@, i as int);
                    }
                    return (i, false);
                },
            }
        }
        proof {
            lemma_rank(self@, key@, i as int);
        }
        (i, false)
    }

    /// The item with the key `key`, if the list has one.
    pub fn get(&self, key: &str) -> (item: Option<&T>)
        requires
            self.wf(),
        ensures
            match item {
                Some(found) => lookup(self@, key@) == Some(*found),
                None => lookup(self@, key@) is None,
            },
    {
        let (place, found) = self.search(key);
        if found {
            Some(&self.items[place])
        } else {
            None
        }
    }

    /// Puts `item` into the list, in place of the item that had its key if
    /// there was one.
    pub fn insert(&mut self, item: T)
        requires
            old(self).wf(),
        ensures
            final(self)@ == inserted(old(self)@, item),
            final(self).wf(),
    {
        proof {
            lemma_inserted(self@, item);
        }
        let (place, found) = self.search(item.key_text());
        if found {
            self.items[place] = item;
        } else {
            self.items.insert(place, item);
        }
    }
}

} // verus!
