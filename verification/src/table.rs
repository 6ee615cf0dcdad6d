//! A table: the records of one file, held in memory in storage order.
//!
//! The operations work on the records in memory. The file is the caller's
//! part: a change that was accepted leaves the table `unsaved`, and `save`
//! takes what the codec made of the records and hands back the rewrite to
//! perform on the file.

use vstd::prelude::*;
use vstd::string::StringExecFns;

use crate::model::{
    bulk_updated, clones_of, collides, deleted, distinct, first_at, first_collision, got,
    got_all, got_many, holds, inserted, last_at, lemma_filter_distinct, lemma_holds_joined,
    lemma_joined_distinct, lemma_position_is, lemma_selected_push, lemma_unselected_push,
    not_among, selected, unselected, updated, Records,
};
use crate::persist::{FileImage, Rewrite, SaveStep};
use crate::text::{debug_text, decimal, key_texts, keys_debug, lists, owned, texts};
use crate::utils::debug::DebugClient;
use crate::{
    fails_with, Configuration, MooError, MooErrorCodes, MooRecord, MooRecords, MooResult,
    FILE_EXTENSION,
};

verus! {

/// The records of a list, each as its key and its value.
pub open spec fn pairs<T>(records: Seq<MooRecord<T>>) -> Records<T> {
    records.map_values(|record: MooRecord<T>| record@)
}

/// What the error says when no record has the key.
pub open spec fn not_found_message(key: Seq<char>) -> Seq<char> {
    "No record found with key: "@ + key
}

/// What the error says when the key is taken.
pub open spec fn already_exists_message(key: Seq<char>) -> Seq<char> {
    "Record with key: "@ + key
        + " already exists. Use the update method to change its value."@
}

/// What the error says when none of the keys is found.
pub open spec fn none_found_message(keys: Seq<Seq<char>>) -> Seq<char> {
    "No records found with keys: "@ + debug_text(keys)
}

/// What the error says when the file of the table `name` cannot be removed.
pub open spec fn undeleted_message(name: Seq<char>) -> Seq<char> {
    "Failed to delete table file: "@ + name
        + ". Might be missing permissions to delete the file."@
}

/// The file of the table `name` in the directory `dir`.
pub open spec fn file_path_of(dir: Seq<char>, name: Seq<char>) -> Seq<char> {
    dir + "/"@ + name + "."@ + FILE_EXTENSION@
}

/// The bytes that a save of `records` writes, where the codec gave
/// `encoded` for them: nothing for an empty table, else what the codec
/// gave. `None` where the codec failed.
pub open spec fn saved_bytes<T>(records: Records<T>, encoded: Option<Seq<u8>>) -> Option<Seq<u8>> {
    if records.len() == 0 {
        Some(Seq::empty())
    } else {
        encoded
    }
}

/// The records that a table starts with on a file that holds `contents`,
/// where the codec gave `decoded` for them: none for an empty file, else
/// what the codec gave. `None` where the codec failed.
pub open spec fn loaded<T>(contents: Seq<u8>, decoded: Option<Records<T>>) -> Option<Records<T>> {
    if contents.len() == 0 {
        Some(Seq::empty())
    } else {
        decoded
    }
}

/// What opening a table on `source` gives: its records, or the kind and the
/// message of the error.
pub open spec fn opened<T>(source: TableSource<T>) -> Result<
    Records<T>,
    (MooErrorCodes, Seq<char>),
> {
    match source {
        TableSource::Unopened => Err(
            (
                MooErrorCodes::Fatal,
                "Failed to create table file. Might be missing permissions to write the directory?"@,
            ),
        ),
        TableSource::Unread => Err((MooErrorCodes::Fatal, "Failed to read table file."@)),
        TableSource::Read { contents, decoded } => match loaded(
            contents@,
            match decoded {
                Some(records) => Some(pairs(records@)),
                None => None,
            },
        ) {
            Some(records) => Ok(records),
            None => Err((MooErrorCodes::Error, "Failed to parse table file."@)),
        },
    }
}

/// What became of reading the file of a table.
#[derive(Debug)]
pub enum TableSource<T> {
    /// The file could be neither opened nor created.
    Unopened,
    /// The file was opened, and reading it failed.
    Unread,
    /// The file was read.
    Read {
        /// All the bytes of the file.
        contents: Vec<u8>,
        /// The records that the codec made of the bytes, or `None` where
        /// it could make none of them.
        decoded: Option<MooRecords<T>>,
    },
}

/// The table of a database: its name, its records, and the configuration
/// and debug sink of the database.
#[derive(Debug, Clone)]
pub struct MooTable<T> {
    /// The name of the table, and of its file.
    pub name: String,
    /// The records, in storage order.
    pub records: MooRecords<T>,
    /// The configuration of the database.
    pub config: Configuration,
    /// The debug sink of the table.
    pub debugger: DebugClient,
    /// Whether the records have changed since they were read from the file
    /// or last handed to a rewrite of it: the file is then to be rewritten.
    pub unsaved: bool,
}

impl<T> View for MooTable<T> {
    type V = Records<T>;

    open spec fn view(&self) -> Records<T> {
        pairs(self.records@)
    }
}

impl<T: Clone> MooTable<T> {
    /// The table is as every operation leaves it: no two of its records
    /// have the same key. Only a file can bring a key in twice, and on such
    /// a table every operation works on the first record with a key.
    pub open spec fn well_formed(&self) -> bool {
        distinct(self@)
    }

    /// `self` is the table `before` with, at most, other records and more
    /// debug entries.
    pub open spec fn same_table(&self, before: &MooTable<T>) -> bool {
        &&& self.name@ == before.name@
        &&& self.config == before.config
        &&& self.debugger.continues(&before.debugger)
    }

    /// The name of the file that holds the table `name` in the directory
    /// `dir`.
    pub fn file_path(dir: &str, name: &str) -> (path: String)
        ensures
            path@ == file_path_of(dir@, name@),
    {
        let mut path = String::from_str(dir);
        path.append("/");
        path.append(name);
        path.append(".");
        path.append(FILE_EXTENSION);
        path
    }

    /// The table `name` as its file gives it. An empty file is an empty
    /// table; any other file is what the codec decoded from it.
    pub fn new(
        name: &str,
        config: Configuration,
        debugger: DebugClient,
        source: TableSource<T>,
    ) -> (result: MooResult<MooTable<T>>)
        ensures
            match opened(source) {
                Ok(records) => {
                    &&& result matches Ok(table)
                    &&& table@ == records
                    &&& table.well_formed() == distinct(records)
                    &&& table.name@ == name@
                    &&& table.config == config
                    &&& table.debugger == debugger
                    &&& !table.unsaved
                },
                Err((code, message)) => fails_with(result, code, message),
            },
    {
        let records = match source {
            TableSource::Unopened => {
                return Err(
                    MooError {
                        code: MooErrorCodes::Fatal,
                        message: String::from_str(
                            "Failed to create table file. Might be missing permissions to write the directory?",
                        ),
                    },
                );
            },
            TableSource::Unread => {
                return Err(
                    MooError {
                        code: MooErrorCodes::Fatal,
                        message: String::from_str("Failed to read table file."),
                    },
                );
            },
            TableSource::Read { contents, decoded } => {
                if contents.len() == 0 {
                    Vec::new()
                } else {
                    match decoded {
                        Some(records) => records,
                        None => {
                            return Err(
                                MooError {
                                    code: MooErrorCodes::Error,
                                    message: String::from_str("Failed to parse table file."),
                                },
                            );
                        },
                    }
                }
            },
        };
        let table = MooTable {
            name: String::from_str(name),
            records,
            config,
            debugger,
            unsaved: false,
        };
        assert(table@ =~= pairs(records@));
        Ok(table)
    }

    /// Starts the rewrite of the file after a change. `encoded` is what the
    /// codec made of the records, or `None` where it failed: the table then
    /// stays unsaved. An empty table is stored as an empty file, whatever
    /// the codec makes of no records.
    pub fn save(&mut self, encoded: Option<Vec<u8>>) -> (result: MooResult<Rewrite>)
        ensures
            final(self)@ == old(self)@,
            final(self).same_table(old(self)),
            final(self).debugger == old(self).debugger,
            match saved_bytes(
                old(self)@,
                match encoded {
                    Some(bytes) => Some(bytes@),
                    None => None,
                },
            ) {
                Some(bytes) => {
                    &&& result matches Ok(rewrite)
                    &&& rewrite.bytes@ == bytes
                    &&& rewrite.next == Some(SaveStep::Lock)
                    &&& rewrite.sound
                    &&& forall|file: FileImage| (#[trigger] rewrite.leaves(file)).content == bytes
                    &&& !final(self).unsaved
                },
                None => {
                    &&& fails_with(
                        result,
                        MooErrorCodes::Error,
                        "Failed to serialize table records."@,
                    )
                    &&& final(self).unsaved == old(self).unsaved
                },
            },
    {
        if self.records.len() == 0 {
            self.unsaved = false;
            return Ok(Rewrite::new(Vec::new()));
        }
        match encoded {
            Some(bytes) => {
                self.unsaved = false;
                Ok(Rewrite::new(bytes))
            },
            None => Err(
                MooError {
                    code: MooErrorCodes::Error,
                    message: String::from_str("Failed to serialize table records."),
                },
            ),
        }
    }

    /// Forgets all records, for a table whose file is being removed.
    /// `removed` tells whether the file could be removed; a file that is
    /// left no longer agrees with the table.
    pub fn delete_self(&mut self, removed: bool) -> (result: MooResult<()>)
        ensures
            final(self).same_table(old(self)),
            final(self)@ == Seq::<(Seq<char>, T)>::empty(),
            final(self).well_formed(),
            final(self).unsaved == !removed,
            removed ==> result is Ok,
            !removed ==> fails_with(
                result,
                MooErrorCodes::Fatal,
                undeleted_message(old(self).name@),
            ),
    {
        self.records.clear();
        self.unsaved = !removed;
        assert(self@ =~= Seq::<(Seq<char>, T)>::empty());
        if removed {
            Ok(())
        } else {
            let mut message = String::from_str("Failed to delete table file: ");
            message.append(self.name.as_str());
            message.append(". Might be missing permissions to delete the file.");
            Err(MooError { code: MooErrorCodes::Fatal, message })
        }
    }

    /// The place of the first record with the key `key`, if there is one.
    pub fn find(&self, key: &str) -> (found: Option<usize>)
        ensures
            match found {
                Some(i) => first_at(self@, key@, i as int),
                None => !holds(self@, key@),
            },
    {
        let wanted = String::from_str(key);
        assert(pairs(self.records@).take(self.records@.len() as int) =~= self@);
        position_in(&self.records, self.records.len(), &wanted)
    }

    /// Appends a record with the key `key`, which no record may have yet.
    pub fn insert(&mut self, key: &str, value: T) -> (result: MooResult<()>)
        ensures
            final(self).same_table(old(self)),
            match inserted(old(self)@, key@, value) {
                Ok(records) => result is Ok && final(self)@ == records && final(self).unsaved,
                Err(code) => {
                    &&& fails_with(result, code, already_exists_message(key@))
                    &&& final(self)@ == old(self)@
                    &&& final(self).unsaved == old(self).unsaved
                },
            },
            old(self).well_formed() ==> final(self).well_formed(),
    {
        if self.find(key).is_some() {
            let mut message = String::from_str("Record with key: ");
            message.append(key);
            message.append(" already exists. Use the update method to change its value.");
            return Err(MooError { code: MooErrorCodes::Warn, message });
        }
        self.records.push(MooRecord { key: String::from_str(key), value });
        self.unsaved = true;
        assert(self@ =~= old(self)@.push((key@, value)));
        let mut message = String::from_str("Insert new record with key: ");
        message.append(key);
        self.debugger.log(message);
        Ok(())
    }

    /// Appends `data` in its order, unless a key is taken: then nothing is
    /// appended. A key is taken where a record of the table has it or an
    /// earlier entry of `data`.
    pub fn insert_many(&mut self, data: MooRecords<T>) -> (result: MooResult<()>)
        ensures
            final(self).same_table(old(self)),
            data@.len() == 0 ==> {
                &&& fails_with(result, MooErrorCodes::Warn, "No records to insert."@)
                &&& final(self)@ == old(self)@
                &&& final(self).unsaved == old(self).unsaved
            },
            data@.len() > 0 ==> match result {
                Ok(_) => {
                    &&& forall|j: int| !collides(old(self)@, pairs(data@), j)
                    &&& final(self)@ == old(self)@ + pairs(data@)
                    &&& final(self).unsaved
                },
                Err(error) => {
                    &&& exists|j: int|
                        #[trigger] first_collision(old(self)@, pairs(data@), j)
                            && error.message@ == already_exists_message(pairs(data@)[j].0)
                    &&& error.code == MooErrorCodes::Warn
                    &&& final(self)@ == old(self)@
                    &&& final(self).unsaved == old(self).unsaved
                },
            },
            old(self).well_formed() ==> final(self).well_formed(),
    {
        if data.len() == 0 {
            return Err(
                MooError {
                    code: MooErrorCodes::Warn,
                    message: String::from_str("No records to insert."),
                },
            );
        }
        let mut j: usize = 0;
        while j < data.len()
            invariant
                j <= data.len(),
                *self == *old(self),
                forall|k: int| 0 <= k < j ==> !collides(self@, pairs(data@), k),
            decreases data.len() - j,
        {
            let taken = position_in(&self.records, self.records.len(), &data[j].key).is_some()
                || position_in(&data, j, &data[j].key).is_some();
            proof {
                assert(pairs(self.records@).take(self.records@.len() as int) =~= self@);
                assert(pairs(data@)[j as int].0 == data@[j as int].key@);
                lemma_holds_joined(self@, pairs(data@).take(j as int), data@[j as int].key@);
            }
            if taken {
                assert(first_collision(self@, pairs(data@), j as int));
                let mut message = String::from_str("Record with key: ");
                message.append(data[j].key.as_str());
                message.append(" already exists. Use the update method to change its value.");
                return Err(MooError { code: MooErrorCodes::Warn, message });
            }
            j += 1;
        }
        let mut k: usize = 0;
        while k < data.len()
            invariant
                k <= data.len(),
                self@ == old(self)@,
                self.same_table(old(self)),
                self.unsaved == old(self).unsaved,
            decreases data.len() - k,
        {
            let ghost before = *self;
            let mut message = String::from_str("Insert new record with key: ");
            message.append(data[k].key.as_str());
            self.debugger.log(message);
            proof {
                self.debugger.lemma_continues(&before.debugger, &old(self).debugger);
            }
            k += 1;
        }
        let ghost entries = pairs(data@);
        let mut data = data;
        self.records.append(&mut data);
        self.unsaved = true;
        proof {
            assert(self@ =~= old(self)@ + entries);
            if old(self).well_formed() {
                lemma_joined_distinct(old(self)@, entries);
            }
        }
        Ok(())
    }

    /// The value stored under `key`: a clone of it.
    pub fn get(&mut self, key: &str) -> (result: MooResult<T>)
        ensures
            final(self)@ == old(self)@,
            final(self).same_table(old(self)),
            final(self).unsaved == old(self).unsaved,
            match got(old(self)@, key@) {
                Ok(value) => result matches Ok(copy) && cloned(value, copy),
                Err(code) => fails_with(result, code, not_found_message(key@)),
            },
    {
        match self.find(key) {
            Some(i) => {
                proof {
                    lemma_position_is(self@, key@, i as int);
                }
                let mut message = String::from_str("Found record with key: ");
                message.append(key);
                self.debugger.log(message);
                Ok(self.records[i].value.clone())
            },
            None => {
                let mut message = String::from_str("No record found with key: ");
                message.append(key);
                Err(MooError { code: MooErrorCodes::NotFound, message })
            },
        }
    }

    /// The records whose key is one of `keys`: a clone of each, in storage
    /// order.
    pub fn get_many(&mut self, keys: Vec<&str>) -> (result: MooResult<MooRecords<T>>)
        ensures
            final(self)@ == old(self)@,
            final(self).same_table(old(self)),
            final(self).unsaved == old(self).unsaved,
            match got_many(old(self)@, key_texts(keys@)) {
                Ok(records) => result matches Ok(found) && clones_of(pairs(found@), records),
                Err(code) => fails_with(result, code, none_found_message(key_texts(keys@))),
            },
    {
        let wanted = owned(&keys);
        let mut found: Vec<MooRecord<T>> = Vec::new();
        let mut i: usize = 0;
        while i < self.records.len()
            invariant
                i <= self.records.len(),
                self@ == old(self)@,
                self.same_table(old(self)),
                self.unsaved == old(self).unsaved,
                texts(wanted@) == key_texts(keys@),
                clones_of(pairs(found@), selected(self@.take(i as int), key_texts(keys@))),
            decreases self.records.len() - i,
        {
            let ghost before = *self;
            let ghost so_far = pairs(found@);
            proof {
                lemma_selected_push(self@.take(i as int), key_texts(keys@), self@[i as int]);
                assert(self@.take(i as int + 1) =~= self@.take(i as int).push(self@[i as int]));
            }
            if lists(&wanted, &self.records[i].key) {
                let copy = self.records[i].clone();
                found.push(copy);
                assert(pairs(found@) =~= so_far.push(copy@));
                let mut message = String::from_str("Found record with key: ");
                message.append(self.records[i].key.as_str());
                self.debugger.log(message);
                proof {
                    self.debugger.lemma_continues(&before.debugger, &old(self).debugger);
                }
            }
            i += 1;
        }
        assert(self@.take(i as int) =~= self@);
        if found.len() == 0 {
            let mut message = String::from_str("No records found with keys: ");
            message.append(keys_debug(&keys).as_str());
            return Err(MooError { code: MooErrorCodes::NotFound, message });
        }
        Ok(found)
    }

    /// All the records: a clone of each, in storage order.
    pub fn get_all(&mut self) -> (result: MooResult<MooRecords<T>>)
        ensures
            final(self)@ == old(self)@,
            final(self).same_table(old(self)),
            final(self).unsaved == old(self).unsaved,
            match got_all(old(self)@) {
                Ok(records) => result matches Ok(copies) && clones_of(pairs(copies@), records),
                Err(code) => fails_with(result, code, "No records found in the table."@),
            },
    {
        if self.records.len() == 0 {
            return Err(
                MooError {
                    code: MooErrorCodes::NotFound,
                    message: String::from_str("No records found in the table."),
                },
            );
        }
        let mut message = String::from_str("Found ");
        message.append(decimal(self.records.len()).as_str());
        message.append(" records");
        self.debugger.log(message);
        let copies = self.records.clone();
        Ok(copies)
    }

    /// Replaces the value of the record with the key `key`, in its place.
    pub fn update(&mut self, key: &str, value: T) -> (result: MooResult<()>)
        ensures
            final(self).same_table(old(self)),
            match updated(old(self)@, key@, value) {
                Ok(records) => result is Ok && final(self)@ == records && final(self).unsaved,
                Err(code) => {
                    &&& fails_with(result, code, not_found_message(key@))
                    &&& final(self)@ == old(self)@
                    &&& final(self).unsaved == old(self).unsaved
                },
            },
            old(self).well_formed() ==> final(self).well_formed(),
    {
        match self.find(key) {
            Some(i) => {
                proof {
                    lemma_position_is(self@, key@, i as int);
                }
                self.records[i].value = value;
                self.unsaved = true;
                assert(self@ =~= old(self)@.update(i as int, (key@, value)));
                let mut message = String::from_str("Updated record with key: ");
                message.append(key);
                self.debugger.log(message);
                Ok(())
            },
            None => {
                let mut message = String::from_str("No record found with key: ");
                message.append(key);
                Err(MooError { code: MooErrorCodes::NotFound, message })
            },
        }
    }

    /// Gives each record whose key is among `updates` the value of the last
    /// update with that key. Updates for keys that no record has are passed
    /// over.
    pub fn update_many(&mut self, updates: MooRecords<T>) -> (result: MooResult<()>)
        ensures
            final(self).same_table(old(self)),
            updates@.len() == 0 ==> {
                &&& fails_with(result, MooErrorCodes::Warn, "No records to update."@)
                &&& final(self)@ == old(self)@
                &&& final(self).unsaved == old(self).unsaved
            },
            updates@.len() > 0 ==> {
                &&& result is Ok
                &&& bulk_updated(old(self)@, pairs(updates@), final(self)@)
                &&& final(self).unsaved
            },
            old(self).well_formed() ==> final(self).well_formed(),
    {
        if updates.len() == 0 {
            return Err(
                MooError {
                    code: MooErrorCodes::Warn,
                    message: String::from_str("No records to update."),
                },
            );
        }
        self.unsaved = true;
        let mut i: usize = 0;
        while i < self.records.len()
            invariant
                i <= self.records.len(),
                self.same_table(old(self)),
                self.unsaved,
                self@.len() == old(self)@.len(),
                forall|k: int| 0 <= k < self@.len() ==> (#[trigger] self@[k]).0 == old(self)@[k].0,
                forall|k: int| i <= k < self@.len() ==> (#[trigger] self@[k]).1 == old(self)@[k].1,
                forall|k: int|
                    0 <= k < i ==> {
                        &&& !holds(pairs(updates@), old(self)@[k].0) ==> (#[trigger] self@[k]).1
                            == old(self)@[k].1
                        &&& forall|j: int|
                            last_at(pairs(updates@), old(self)@[k].0, j) ==> cloned(
                                pairs(updates@)[j].1,
                                self@[k].1,
                            )
                    },
            decreases self.records.len() - i,
        {
            let ghost key = self@[i as int].0;
            let ghost mut last: Option<int> = None;
            let mut j: usize = 0;
            while j < updates.len()
                invariant
                    i < self.records.len(),
                    j <= updates.len(),
                    self.same_table(old(self)),
                    self.unsaved,
                    self@.len() == old(self)@.len(),
                    key == old(self)@[i as int].0,
                    forall|k: int|
                        0 <= k < self@.len() ==> (#[trigger] self@[k]).0 == old(self)@[k].0,
                    forall|k: int|
                        i < k < self@.len() ==> (#[trigger] self@[k]).1 == old(self)@[k].1,
                    forall|k: int|
                        0 <= k < i ==> {
                            &&& !holds(pairs(updates@), old(self)@[k].0) ==> (#[trigger] self@[k]).1
                                == old(self)@[k].1
                            &&& forall|j: int|
                                last_at(pairs(updates@), old(self)@[k].0, j) ==> cloned(
                                    pairs(updates@)[j].1,
                                    self@[k].1,
                                )
                        },
                    match last {
                        Some(l) => {
                            &&& 0 <= l < j
                            &&& pairs(updates@)[l].0 == key
                            &&& forall|m: int| l < m < j ==> (#[trigger] pairs(updates@)[m]).0 != key
                            &&& cloned(pairs(updates@)[l].1, self@[i as int].1)
                        },
                        None => {
                            &&& forall|m: int| 0 <= m < j ==> (#[trigger] pairs(updates@)[m]).0 != key
                            &&& self@[i as int].1 == old(self)@[i as int].1
                        },
                    },
                decreases updates.len() - j,
            {
                if self.records[i].key == updates[j].key {
                    let ghost before = *self;
                    let value = updates[j].value.clone();
                    self.records[i].value = value;
                    let mut message = String::from_str("Updated record with key: ");
                    message.append(self.records[i].key.as_str());
                    self.debugger.log(message);
                    proof {
                        self.debugger.lemma_continues(&before.debugger, &old(self).debugger);
                        last = Some(j as int);
                        assert forall|k: int| 0 <= k < self@.len() && k != i implies #[trigger] self@[k]
                            == before@[k] by {}
                    }
                }
                j += 1;
            }
            proof {
                match last {
                    Some(l) => {
                        assert(last_at(pairs(updates@), key, l));
                        assert forall|m: int| last_at(pairs(updates@), key, m) implies cloned(
                            pairs(updates@)[m].1,
                            self@[i as int].1,
                        ) by {
                            if m < l {
                                assert(pairs(updates@)[l].0 != key);
                            } else if l < m {
                                assert(pairs(updates@)[m].0 != key);
                            }
                        }
                    },
                    None => {
                        assert(!holds(pairs(updates@), key));
                    },
                }
            }
            i += 1;
        }
        Ok(())
    }

    /// Removes the record with the key `key`; those behind it move up.
    pub fn delete(&mut self, key: &str) -> (result: MooResult<()>)
        ensures
            final(self).same_table(old(self)),
            match deleted(old(self)@, key@) {
                Ok(records) => result is Ok && final(self)@ == records && final(self).unsaved,
                Err(code) => {
                    &&& fails_with(result, code, not_found_message(key@))
                    &&& final(self)@ == old(self)@
                    &&& final(self).unsaved == old(self).unsaved
                },
            },
            old(self).well_formed() ==> final(self).well_formed(),
    {
        match self.find(key) {
            Some(i) => {
                proof {
                    lemma_position_is(self@, key@, i as int);
                }
                self.records.remove(i);
                self.unsaved = true;
                assert(self@ =~= old(self)@.remove(i as int));
                let mut message = String::from_str("Deleted record with key: ");
                message.append(key);
                self.debugger.log(message);
                Ok(())
            },
            None => {
                let mut message = String::from_str("No record found with key: ");
                message.append(key);
                Err(MooError { code: MooErrorCodes::NotFound, message })
            },
        }
    }

    /// Removes every record whose key is one of `keys`; the others keep
    /// their order.
    pub fn delete_many(&mut self, keys: Vec<&str>) -> (result: MooResult<()>)
        ensures
            final(self).same_table(old(self)),
            result is Ok,
            final(self).unsaved,
            final(self)@ == unselected(old(self)@, key_texts(keys@)),
            old(self).well_formed() ==> final(self).well_formed(),
    {
        let mut message = String::from_str("Deleting records with keys: ");
        message.append(keys_debug(&keys).as_str());
        self.debugger.log(message);
        let unwanted = owned(&keys);
        self.unsaved = true;
        let ghost mut seen: int = 0;
        let mut i: usize = 0;
        while i < self.records.len()
            invariant
                0 <= seen <= old(self)@.len(),
                i <= self.records.len(),
                self.same_table(old(self)),
                self.unsaved,
                texts(unwanted@) == key_texts(keys@),
                i == unselected(old(self)@.take(seen), key_texts(keys@)).len(),
                self@ == unselected(old(self)@.take(seen), key_texts(keys@)) + old(self)@.skip(
                    seen,
                ),
            decreases self.records.len() - i,
        {
            let ghost kept = unselected(old(self)@.take(seen), key_texts(keys@));
            proof {
                lemma_unselected_push(
                    old(self)@.take(seen),
                    key_texts(keys@),
                    old(self)@[seen],
                );
                assert(old(self)@.take(seen + 1) =~= old(self)@.take(seen).push(
                    old(self)@[seen],
                ));
                assert(self@[i as int] == old(self)@[seen]);
            }
            if lists(&unwanted, &self.records[i].key) {
                let ghost whole = self@;
                self.records.remove(i);
                assert(self@ =~= whole.remove(i as int));
                assert(self@ =~= kept + old(self)@.skip(seen + 1));
            } else {
                assert(self@ =~= kept.push(old(self)@[seen]) + old(self)@.skip(seen + 1));
                i += 1;
            }
            proof {
                seen = seen + 1;
            }
        }
        proof {
            assert(old(self)@.take(seen) =~= old(self)@);
            assert(self@ =~= unselected(old(self)@, key_texts(keys@)));
            if old(self).well_formed() {
                lemma_filter_distinct(old(self)@, not_among(key_texts(keys@)));
            }
        }
        Ok(())
    }

    /// Removes all records.
    pub fn delete_all(&mut self) -> (result: MooResult<()>)
        ensures
            final(self).same_table(old(self)),
            result is Ok,
            final(self)@ == Seq::<(Seq<char>, T)>::empty(),
            final(self).well_formed(),
            final(self).unsaved,
    {
        self.debugger.log(String::from_str("Deleting all records"));
        self.records.clear();
        self.unsaved = true;
        assert(self@ =~= Seq::<(Seq<char>, T)>::empty());
        Ok(())
    }
}

/// The place of the first of the first `limit` records that has the key
/// `key`, if there is one.
fn position_in<T>(records: &Vec<MooRecord<T>>, limit: usize, key: &String) -> (found: Option<usize>)
    requires
        limit <= records@.len(),
    ensures
        match found {
            Some(i) => first_at(pairs(records@).take(limit as int), key@, i as int),
            None => !holds(pairs(records@).take(limit as int), key@),
        },
{
    let mut i: usize = 0;
    while i < limit
        invariant
            i <= limit <= records@.len(),
            forall|j: int| 0 <= j < i ==> (#[trigger] pairs(records@)[j]).0 != key@,
        decreases limit - i,
    {
        if records[i].key == *key {
            assert(pairs(records@).take(limit as int)[i as int].0 == key@);
            return Some(i);
        }
        i += 1;
    }
    assert forall|j: int| 0 <= j < limit implies (#[trigger] pairs(records@).take(
        limit as int,
    )[j]).0 != key@ by {
        assert(pairs(records@)[j].0 != key@);
    }
    None
}

} // verus!
