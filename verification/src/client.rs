//! The client: the entry point to one table of a database.

use vstd::prelude::*;
use vstd::string::StringExecFns;

use crate::model::distinct;
use crate::table::{opened, undeleted_message, MooTable, TableSource};
use crate::utils::debug::DebugClient;
use crate::{
    default_configuration, fails_with, Configuration, MooError, MooErrorCodes, MooResult,
    DEFAULT_DIR,
};

verus! {

/// The directory of a database: the one named, or `DEFAULT_DIR` under the
/// working directory.
pub open spec fn directory_of(dir: Option<Seq<char>>) -> Seq<char> {
    match dir {
        Some(named) => named,
        None => "./"@ + DEFAULT_DIR@,
    }
}

/// The configuration of a database: the one given, or the default.
pub open spec fn configuration_of(config: Option<Configuration>) -> Configuration {
    match config {
        Some(given) => given,
        None => default_configuration(),
    }
}

/// What the file system gave when a database was opened.
#[derive(Debug)]
pub struct Storage<T> {
    /// Whether the directory of the database exists or could be created.
    pub directory: bool,
    /// Whether the file of the debug sink could be opened or created.
    pub log: bool,
    /// What became of reading the file of the table.
    pub table: TableSource<T>,
}

/// A client of one table of a database.
#[derive(Debug, Clone)]
pub struct MooClient<T> {
    /// The directory in which the tables of the database live.
    pub path: String,
    /// The table of this client.
    pub table: MooTable<T>,
    /// The configuration of the database.
    pub config: Configuration,
    /// The debug sink of the client.
    pub debugger: DebugClient,
}

impl<T: Clone> MooClient<T> {
    /// `self` is the client `before` with, at most, another table and more
    /// debug entries.
    pub open spec fn same_client(&self, before: &MooClient<T>) -> bool {
        &&& self.path@ == before.path@
        &&& self.config == before.config
        &&& self.debugger.continues(&before.debugger)
    }

    /// The directory in which a database lives that was opened with `dir`.
    pub fn directory(dir: Option<&str>) -> (path: String)
        ensures
            path@ == directory_of(
                match dir {
                    Some(named) => Some(named@),
                    None => None,
                },
            ),
    {
        match dir {
            Some(named) => String::from_str(named),
            None => {
                let mut path = String::from_str("./");
                path.append(DEFAULT_DIR);
                path
            },
        }
    }

    /// Opens the table `name` of the database in `dir`, with what the file
    /// system gave for it. Without the directory nothing else is looked at.
    /// The debug sink is made before the table.
    pub fn new(
        name: &str,
        dir: Option<&str>,
        config: Option<Configuration>,
        storage: Storage<T>,
    ) -> (result: MooResult<MooClient<T>>)
        ensures
            !storage.directory ==> fails_with(
                result,
                MooErrorCodes::Fatal,
                "Failed to create database directory. Might be missing permissions to write the directory?"@,
            ),
            storage.directory ==> match opened(storage.table) {
                Ok(records) => {
                    &&& result matches Ok(client)
                    &&& client.table@ == records
                    &&& client.table.well_formed() == distinct(records)
                    &&& !client.table.unsaved
                    &&& client.table.name@ == name@
                    &&& client.path@ == directory_of(
                        match dir {
                            Some(named) => Some(named@),
                            None => None,
                        },
                    )
                    &&& client.config == configuration_of(config)
                    &&& client.table.config == client.config
                    &&& client.debugger.fresh(
                        client.config.debug_mode,
                        client.config.debug_level,
                        client.config.db_dir@,
                        storage.log,
                    )
                    &&& client.table.debugger.fresh(
                        client.config.debug_mode,
                        client.config.debug_level,
                        client.config.db_dir@,
                        storage.log,
                    )
                },
                Err((code, message)) => fails_with(result, code, message),
            },
    {
        let config = match config {
            Some(given) => given,
            None => Configuration::default(),
        };
        let path = Self::directory(dir);
        if !storage.directory {
            return Err(
                MooError {
                    code: MooErrorCodes::Fatal,
                    message: String::from_str(
                        "Failed to create database directory. Might be missing permissions to write the directory?",
                    ),
                },
            );
        }
        let debugger = DebugClient::new(config.debug_mode, config.debug_level, config, storage.log);
        let table = match MooTable::new(name, config, debugger.clone(), storage.table) {
            Ok(table) => table,
            Err(error) => {
                return Err(error);
            },
        };
        Ok(MooClient { path, table, config, debugger })
    }

    /// Forgets all records of the table. The file stays, and the save that
    /// the table now owes empties it.
    pub fn reset_table(&mut self) -> (result: MooResult<()>)
        ensures
            result is Ok,
            final(self).same_client(old(self)),
            final(self).table.same_table(&old(self).table),
            final(self).table@ == Seq::<(Seq<char>, T)>::empty(),
            final(self).table.well_formed(),
            final(self).table.unsaved,
    {
        let mut message = String::from_str("Resetting table: ");
        message.append(self.table.name.as_str());
        self.debugger.log(message);
        self.table.records.clear();
        self.table.unsaved = true;
        assert(self.table@ =~= Seq::<(Seq<char>, T)>::empty());
        Ok(())
    }

    /// The table of this client, to work on in place.
    pub fn get_table(&mut self) -> (result: MooResult<&mut MooTable<T>>)
        ensures
            result matches Ok(table) && *table == old(self).table
                && final(self).table == *final(table),
            final(self).same_client(old(self)),
    {
        let mut message = String::from_str("Getting table: ");
        message.append(self.table.name.as_str());
        self.debugger.log(message);
        Ok(&mut self.table)
    }

    /// Forgets all records of the table, whose file is being removed.
    /// `removed` tells whether the file could be removed.
    pub fn delete_table(&mut self, removed: bool) -> (result: MooResult<()>)
        ensures
            final(self).same_client(old(self)),
            final(self).table.same_table(&old(self).table),
            final(self).table@ == Seq::<(Seq<char>, T)>::empty(),
            final(self).table.well_formed(),
            final(self).table.unsaved == !removed,
            removed ==> result is Ok,
            !removed ==> fails_with(
                result,
                MooErrorCodes::Fatal,
                undeleted_message(old(self).table.name@),
            ),
    {
        let mut message = String::from_str("Deleting table: ");
        message.append(self.table.name.as_str());
        self.debugger.log(message);
        self.table.delete_self(removed)
    }
}

} // verus!
