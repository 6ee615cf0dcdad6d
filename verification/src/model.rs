//! What a table is, mathematically: a sequence of pairs of a key and a
//! value, and the operations of the store as functions on such sequences.

use vstd::prelude::*;

use crate::MooErrorCodes;

verus! {

/// The records of a table in storage order, each as its key and its value.
pub type Records<T> = Seq<(Seq<char>, T)>;

/// Some record of `records` has the key `key`.
pub open spec fn holds<T>(records: Records<T>, key: Seq<char>) -> bool {
    exists|i: int| 0 <= i < records.len() && (#[trigger] records[i]).0 == key
}

/// The record at `i` is the first of `records` with the key `key`.
pub open spec fn first_at<T>(records: Records<T>, key: Seq<char>, i: int) -> bool {
    &&& 0 <= i < records.len()
    &&& records[i].0 == key
    &&& forall|j: int| 0 <= j < i ==> (#[trigger] records[j]).0 != key
}

/// Where the first record with the key `key` stands. It means something
/// only where `holds(records, key)`.
pub open spec fn position<T>(records: Records<T>, key: Seq<char>) -> int {
    choose|i: int| first_at(records, key, i)
}

/// The value that a lookup of `key` finds: that of the first record with
/// this key.
pub open spec fn value_of<T>(records: Records<T>, key: Seq<char>) -> Option<T> {
    if holds(records, key) {
        Some(records[position(records, key)].1)
    } else {
        None
    }
}

/// No two records have the same key.
pub open spec fn distinct<T>(records: Records<T>) -> bool {
    forall|i: int, j: int|
        0 <= i < j < records.len() ==> (#[trigger] records[i]).0 != (#[trigger] records[j]).0
}

/// What a lookup of `key` gives: the value of the first record with this
/// key, or `NotFound` where no record has it.
pub open spec fn got<T>(records: Records<T>, key: Seq<char>) -> Result<T, MooErrorCodes> {
    match value_of(records, key) {
        Some(value) => Ok(value),
        None => Err(MooErrorCodes::NotFound),
    }
}

/// The table after an insert of `key` with `value`: the record is appended.
/// Where the key is taken the insert is refused with `Warn`, and the table
/// stays as it is.
pub open spec fn inserted<T>(records: Records<T>, key: Seq<char>, value: T) -> Result<
    Records<T>,
    MooErrorCodes,
> {
    if holds(records, key) {
        Err(MooErrorCodes::Warn)
    } else {
        Ok(records.push((key, value)))
    }
}

/// The table after an update of `key` to `value`: the first record with
/// this key has the new value, in its old place. Where no record has the
/// key the update is refused with `NotFound`, and the table stays as it is.
pub open spec fn updated<T>(records: Records<T>, key: Seq<char>, value: T) -> Result<
    Records<T>,
    MooErrorCodes,
> {
    if holds(records, key) {
        Ok(records.update(position(records, key), (key, value)))
    } else {
        Err(MooErrorCodes::NotFound)
    }
}

/// The table after a delete of `key`: the first record with this key is
/// gone and those behind it have moved up. Where no record has the key the
/// delete is refused with `NotFound`, and the table stays as it is.
pub open spec fn deleted<T>(records: Records<T>, key: Seq<char>) -> Result<
    Records<T>,
    MooErrorCodes,
> {
    if holds(records, key) {
        Ok(records.remove(position(records, key)))
    } else {
        Err(MooErrorCodes::NotFound)
    }
}

/// All the records of the table, or `NotFound` where it has none.
pub open spec fn got_all<T>(records: Records<T>) -> Result<Records<T>, MooErrorCodes> {
    if records.len() == 0 {
        Err(MooErrorCodes::NotFound)
    } else {
        Ok(records)
    }
}

/// The test whether a record has one of `keys`.
pub open spec fn among<T>(keys: Seq<Seq<char>>) -> spec_fn((Seq<char>, T)) -> bool {
    |record: (Seq<char>, T)| keys.contains(record.0)
}

/// The test whether a record has none of `keys`.
pub open spec fn not_among<T>(keys: Seq<Seq<char>>) -> spec_fn((Seq<char>, T)) -> bool {
    |record: (Seq<char>, T)| !keys.contains(record.0)
}

/// The records whose key is among `keys`, in storage order.
pub open spec fn selected<T>(records: Records<T>, keys: Seq<Seq<char>>) -> Records<T> {
    records.filter(among(keys))
}

/// The records whose key is not among `keys`, in storage order.
pub open spec fn unselected<T>(records: Records<T>, keys: Seq<Seq<char>>) -> Records<T> {
    records.filter(not_among(keys))
}

/// What a lookup of `keys` gives: the records whose key is among them, in
/// storage order, or `NotFound` where there is none.
pub open spec fn got_many<T>(records: Records<T>, keys: Seq<Seq<char>>) -> Result<
    Records<T>,
    MooErrorCodes,
> {
    if selected(records, keys).len() == 0 {
        Err(MooErrorCodes::NotFound)
    } else {
        Ok(selected(records, keys))
    }
}

/// Entry `j` of `entries` cannot be appended to `records` after the entries
/// before it: its key is in the table or among theirs.
pub open spec fn collides<T>(records: Records<T>, entries: Records<T>, j: int) -> bool {
    0 <= j < entries.len() && holds(records + entries.take(j), entries[j].0)
}

/// Entry `j` is the first of `entries` that collides.
pub open spec fn first_collision<T>(records: Records<T>, entries: Records<T>, j: int) -> bool {
    &&& collides(records, entries, j)
    &&& forall|i: int| 0 <= i < j ==> !collides(records, entries, i)
}

/// The last of `updates` with the key `key` stands at `j`.
pub open spec fn last_at<T>(updates: Records<T>, key: Seq<char>, j: int) -> bool {
    &&& 0 <= j < updates.len()
    &&& updates[j].0 == key
    &&& forall|i: int| j < i < updates.len() ==> (#[trigger] updates[i]).0 != key
}

/// `copies` holds a clone of each record of `records`, in the same order
/// and under the same key.
pub open spec fn clones_of<T: Clone>(copies: Records<T>, records: Records<T>) -> bool {
    &&& copies.len() == records.len()
    &&& forall|i: int|
        0 <= i < records.len() ==> (#[trigger] copies[i]).0 == records[i].0 && cloned(
            records[i].1,
            copies[i].1,
        )
}

/// `after` is `before` after a bulk update with `updates`: no record has
/// moved or changed its key; a record whose key is among the updates has a
/// clone of the value of the last update with that key, and every other
/// record has the value it had.
pub open spec fn bulk_updated<T: Clone>(
    before: Records<T>,
    updates: Records<T>,
    after: Records<T>,
) -> bool {
    &&& after.len() == before.len()
    &&& forall|i: int|
        0 <= i < before.len() ==> {
            &&& (#[trigger] after[i]).0 == before[i].0
            &&& !holds(updates, before[i].0) ==> after[i].1 == before[i].1
            &&& forall|j: int|
                last_at(updates, before[i].0, j) ==> cloned(updates[j].1, after[i].1)
        }
}

/// A key that some record has is first found at `position`.
pub proof fn lemma_position<T>(records: Records<T>, key: Seq<char>)
    requires
        holds(records, key),
    ensures
        first_at(records, key, position(records, key)),
{
    let witness = choose|i: int| 0 <= i < records.len() && (#[trigger] records[i]).0 == key;
    lemma_first_before(records, key, witness);
}

/// Where a record with the key stands at `i`, a first one stands at or
/// before `i`.
proof fn lemma_first_before<T>(records: Records<T>, key: Seq<char>, i: int)
    requires
        0 <= i < records.len(),
        records[i].0 == key,
    ensures
        exists|k: int| 0 <= k <= i && first_at(records, key, k),
    decreases i,
{
    if exists|j: int| 0 <= j < i && (#[trigger] records[j]).0 == key {
        let j = choose|j: int| 0 <= j < i && (#[trigger] records[j]).0 == key;
        lemma_first_before(records, key, j);
    } else {
        assert(first_at(records, key, i));
    }
}

/// Only one place is the first with a key.
pub proof fn lemma_first_unique<T>(records: Records<T>, key: Seq<char>, i: int, j: int)
    requires
        first_at(records, key, i),
        first_at(records, key, j),
    ensures
        i == j,
{
    if i < j {
        assert(records[i].0 != key);
    } else if j < i {
        assert(records[j].0 != key);
    }
}

/// The first place with a key is `position`.
pub proof fn lemma_position_is<T>(records: Records<T>, key: Seq<char>, i: int)
    requires
        first_at(records, key, i),
    ensures
        holds(records, key),
        position(records, key) == i,
{
    lemma_position(records, key);
    lemma_first_unique(records, key, i, position(records, key));
}

/// Selecting from a table with one more record.
pub proof fn lemma_selected_push<T>(records: Records<T>, keys: Seq<Seq<char>>, record: (Seq<char>, T))
    ensures
        selected(records.push(record), keys) == if keys.contains(record.0) {
            selected(records, keys).push(record)
        } else {
            selected(records, keys)
        },
{
    records.lemma_filter_push(record, among(keys));
}

/// Deselecting from a table with one more record.
pub proof fn lemma_unselected_push<T>(
    records: Records<T>,
    keys: Seq<Seq<char>>,
    record: (Seq<char>, T),
)
    ensures
        unselected(records.push(record), keys) == if keys.contains(record.0) {
            unselected(records, keys)
        } else {
            unselected(records, keys).push(record)
        },
{
    records.lemma_filter_push(record, not_among(keys));
}

/// A key is in two tables joined where it is in one of them.
pub proof fn lemma_holds_joined<T>(front: Records<T>, back: Records<T>, key: Seq<char>)
    ensures
        holds(front + back, key) <==> holds(front, key) || holds(back, key),
{
    let joined = front + back;
    if holds(front, key) {
        let i = choose|i: int| 0 <= i < front.len() && (#[trigger] front[i]).0 == key;
        assert(joined[i].0 == key);
    }
    if holds(back, key) {
        let i = choose|i: int| 0 <= i < back.len() && (#[trigger] back[i]).0 == key;
        assert(joined[front.len() + i].0 == key);
    }
    if holds(joined, key) {
        let i = choose|i: int| 0 <= i < joined.len() && (#[trigger] joined[i]).0 == key;
        if i < front.len() {
            assert(front[i].0 == key);
        } else {
            assert(back[i - front.len()].0 == key);
        }
    }
}

/// Every record that a filter keeps stood in the table, and the filter
/// keeps their order: the record at `i` of the result stood at a place of
/// the table that grows with `i`.
proof fn lemma_filter_places<T>(records: Records<T>, test: spec_fn((Seq<char>, T)) -> bool) -> (places:
    Seq<int>)
    ensures
        places.len() == records.filter(test).len(),
        forall|i: int|
            0 <= i < places.len() ==> 0 <= #[trigger] places[i] < records.len()
                && records.filter(test)[i] == records[places[i]],
        forall|i: int, j: int|
            0 <= i < j < places.len() ==> #[trigger] places[i] < #[trigger] places[j],
    decreases records.len(),
{
    reveal(Seq::filter);
    if records.len() == 0 {
        Seq::empty()
    } else {
        let front = lemma_filter_places(records.drop_last(), test);
        if test(records.last()) {
            front.push(records.len() - 1)
        } else {
            front
        }
    }
}

/// What is left of a table with distinct keys has distinct keys.
pub proof fn lemma_filter_distinct<T>(records: Records<T>, test: spec_fn((Seq<char>, T)) -> bool)
    requires
        distinct(records),
    ensures
        distinct(records.filter(test)),
{
    let places = lemma_filter_places(records, test);
    let kept = records.filter(test);
    assert forall|i: int, j: int| 0 <= i < j < kept.len() implies (#[trigger] kept[i]).0
        != (#[trigger] kept[j]).0 by {
        assert(places[i] < places[j]);
        assert(records[places[i]].0 != records[places[j]].0);
    }
}

/// Entries of which none collides can be appended to a table with distinct
/// keys, and the keys stay distinct.
pub proof fn lemma_joined_distinct<T>(records: Records<T>, entries: Records<T>)
    requires
        distinct(records),
        forall|j: int| 0 <= j < entries.len() ==> !collides(records, entries, j),
    ensures
        distinct(records + entries),
{
    let joined = records + entries;
    assert forall|i: int, j: int| 0 <= i < j < joined.len() implies (#[trigger] joined[i]).0
        != (#[trigger] joined[j]).0 by {
        if j >= records.len() {
            let e = j - records.len();
            assert(!collides(records, entries, e));
            let before = records + entries.take(e);
            assert(before[i] == joined[i]);
            assert(before[i].0 != entries[e].0);
        }
    }
}

} // verus!
