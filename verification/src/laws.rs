//! What holds of the store whatever it holds: the laws of its operations,
//! stated over the model of a table and proved.

use vstd::prelude::*;

use crate::model::{
    bulk_updated, collides, deleted, distinct, first_at, got, got_all, holds, inserted,
    lemma_filter_distinct, lemma_joined_distinct, lemma_position, lemma_position_is, not_among,
    unselected, updated, Records,
};
use crate::persist::{carried_out, rewrite_leaves_exactly, FileImage, SaveStep};
use crate::table::{loaded, saved_bytes};
use crate::MooErrorCodes;

verus! {

/// Keys are unique, and stay so: a table without records has no key twice,
/// and no operation brings a key in a second time. After an insert, an
/// update or a delete that was accepted, after a bulk delete, after a bulk
/// insert of entries of which none collides, and after a bulk update, the
/// keys of a table whose keys were pairwise distinct are pairwise distinct.
pub proof fn keys_stay_distinct<T: Clone>(
    records: Records<T>,
    key: Seq<char>,
    value: T,
    keys: Seq<Seq<char>>,
    entries: Records<T>,
    after_updates: Records<T>,
)
    requires
        distinct(records),
    ensures
        distinct(Seq::<(Seq<char>, T)>::empty()),
        inserted(records, key, value) matches Ok(after) ==> distinct(after),
        updated(records, key, value) matches Ok(after) ==> distinct(after),
        deleted(records, key) matches Ok(after) ==> distinct(after),
        distinct(unselected(records, keys)),
        (forall|j: int| !collides(records, entries, j)) ==> distinct(records + entries),
        bulk_updated(records, entries, after_updates) ==> distinct(after_updates),
{
    lemma_filter_distinct(records, not_among(keys));
    if forall|j: int| !collides(records, entries, j) {
        lemma_joined_distinct(records, entries);
    }
    if holds(records, key) {
        lemma_position(records, key);
    }
}

/// What was inserted is found: after an insert of `key` with `value` a
/// lookup of `key` gives `value`.
pub proof fn insert_then_get<T>(records: Records<T>, key: Seq<char>, value: T)
    requires
        inserted(records, key, value) is Ok,
    ensures
        got(inserted(records, key, value)->Ok_0, key) == Ok::<T, MooErrorCodes>(value),
{
    let after = records.push((key, value));
    assert(first_at(after, key, records.len() as int));
    lemma_position_is(after, key, records.len() as int);
}

/// What was deleted is gone: after an insert of `key` and a delete of
/// `key`, the table is what it was and a lookup of `key` finds nothing.
pub proof fn insert_delete_then_get<T>(records: Records<T>, key: Seq<char>, value: T)
    requires
        inserted(records, key, value) is Ok,
    ensures
        deleted(inserted(records, key, value)->Ok_0, key) == Ok::<Records<T>, MooErrorCodes>(
            records,
        ),
        got(records, key) == Err::<T, MooErrorCodes>(MooErrorCodes::NotFound),
{
    let after = records.push((key, value));
    assert(first_at(after, key, records.len() as int));
    lemma_position_is(after, key, records.len() as int);
    assert(after.remove(records.len() as int) =~= records);
}

/// An update replaces: after an insert of `key` with `first` and an update
/// of `key` to `second`, a lookup of `key` gives `second`.
pub proof fn insert_update_then_get<T>(records: Records<T>, key: Seq<char>, first: T, second: T)
    requires
        inserted(records, key, first) is Ok,
    ensures
        updated(inserted(records, key, first)->Ok_0, key, second) is Ok,
        got(updated(inserted(records, key, first)->Ok_0, key, second)->Ok_0, key) == Ok::<
            T,
            MooErrorCodes,
        >(second),
{
    let after = records.push((key, first));
    assert(first_at(after, key, records.len() as int));
    lemma_position_is(after, key, records.len() as int);
    let last = after.update(records.len() as int, (key, second));
    assert(first_at(last, key, records.len() as int));
    lemma_position_is(last, key, records.len() as int);
}

/// A key is inserted once: after an insert of `key`, a second insert of
/// `key` is refused with `Warn`, whatever its value, and so leaves the
/// table as it is.
pub proof fn insert_twice_refused<T>(records: Records<T>, key: Seq<char>, first: T, second: T)
    requires
        inserted(records, key, first) is Ok,
    ensures
        inserted(inserted(records, key, first)->Ok_0, key, second) == Err::<
            Records<T>,
            MooErrorCodes,
        >(MooErrorCodes::Warn),
{
    let after = records.push((key, first));
    assert(after[records.len() as int].0 == key);
}

/// An update of a key that no record has is refused with `NotFound`, and so
/// leaves the table as it is.
pub proof fn update_of_absent_refused<T>(records: Records<T>, key: Seq<char>, value: T)
    requires
        !holds(records, key),
    ensures
        updated(records, key, value) == Err::<Records<T>, MooErrorCodes>(MooErrorCodes::NotFound),
{
}

/// A delete of a key that no record has is refused with `NotFound`, and so
/// leaves the table as it is.
pub proof fn delete_of_absent_refused<T>(records: Records<T>, key: Seq<char>)
    requires
        !holds(records, key),
    ensures
        deleted(records, key) == Err::<Records<T>, MooErrorCodes>(MooErrorCodes::NotFound),
{
}

/// A table that was reset has nothing to give and an empty file: a request
/// for all records finds none, and a save of it that runs through leaves a
/// file of 0 bytes, whatever the codec gave and whatever the file held.
pub proof fn reset_leaves_nothing<T>(encoded: Option<Seq<u8>>, file: FileImage)
    ensures
        got_all(Seq::<(Seq<char>, T)>::empty()) == Err::<Records<T>, MooErrorCodes>(
            MooErrorCodes::NotFound,
        ),
        saved_bytes(Seq::<(Seq<char>, T)>::empty(), encoded) is Some,
        carried_out(
            Some(SaveStep::Lock),
            saved_bytes(Seq::<(Seq<char>, T)>::empty(), encoded)->0,
            file,
        ).content.len() == 0,
{
    rewrite_leaves_exactly(Seq::<u8>::empty(), file);
}

/// The file is as long as what was saved: after a save that runs through,
/// the file holds the bytes that the save wrote and nothing behind them.
pub proof fn saved_file_has_encoded_length<T>(
    records: Records<T>,
    encoded: Option<Seq<u8>>,
    file: FileImage,
)
    requires
        saved_bytes(records, encoded) is Some,
    ensures
        carried_out(Some(SaveStep::Lock), saved_bytes(records, encoded)->0, file).content
            == saved_bytes(records, encoded)->0,
        records.len() > 0 ==> carried_out(
            Some(SaveStep::Lock),
            saved_bytes(records, encoded)->0,
            file,
        ).content.len() == encoded->0.len(),
{
    rewrite_leaves_exactly(saved_bytes(records, encoded)->0, file);
}

/// File and memory agree, and a table comes back as it was saved: with a
/// codec that decodes what it encoded to the records it was given, and that
/// encodes records to at least one byte, a table opened on the file that a
/// save of `records` left starts with `records`.
pub proof fn saved_file_loads_back<T>(
    encode: spec_fn(Records<T>) -> Option<Seq<u8>>,
    decode: spec_fn(Seq<u8>) -> Option<Records<T>>,
    records: Records<T>,
    file: FileImage,
)
    requires
        forall|given: Records<T>| #[trigger]
            encode(given) is Some ==> decode(encode(given)->0) == Some(given),
        forall|given: Records<T>|
            given.len() > 0 && #[trigger] encode(given) is Some ==> encode(given)->0.len() > 0,
        encode(records) is Some,
    ensures
        saved_bytes(records, encode(records)) is Some,
        ({
            let left = carried_out(
                Some(SaveStep::Lock),
                saved_bytes(records, encode(records))->0,
                file,
            ).content;
            loaded(left, decode(left)) == Some(records)
        }),
{
    let bytes = saved_bytes(records, encode(records))->0;
    rewrite_leaves_exactly(bytes, file);
    if records.len() == 0 {
        assert(records =~= Seq::<(Seq<char>, T)>::empty());
    }
}

} // verus!
