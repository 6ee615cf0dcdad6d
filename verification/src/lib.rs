//! MooDB: an embedded key-value store whose tables live in memory and are
//! rewritten to one file each after every change.
//!
//! This library is the store without the file system. It holds the records,
//! decides what every operation does to them and which error it gives, and
//! says how the file is to be rewritten; its caller reads and writes the
//! file and turns records into bytes and back.
//!
//! - `client` and `table` hold the operations. A change that was accepted
//!   leaves the table unsaved; `MooTable::save` then starts a rewrite.
//! - `persist` is the rewrite: its steps, what each needs, and the error of a
//!   step that fails.
//! - `model` says what a table is and what the operations do to it, as
//!   functions on sequences; `laws` proves what holds of them.
//! - `utils::debug` is the debug sink, which records entries for the caller
//!   to write out.

use vstd::prelude::*;

pub mod client;
pub mod laws;
pub mod model;
pub mod persist;
pub mod table;
pub mod text;
pub mod utils;

pub use crate::client::MooClient;
pub use crate::table::MooTable;

use crate::utils::debug::DebugLevel;

verus! {

/// The extension of a table's file.
pub const FILE_EXTENSION: &'static str = "json";

/// The directory that holds the tables when none is named.
pub const DEFAULT_DIR: &'static str = "db/moo";

/// The options of a database.
#[derive(Debug, Clone, Copy)]
pub struct Configuration {
    /// The directory under which the table files live.
    pub db_dir: &'static str,
    /// Whether the debug sink records anything.
    pub debug_mode: bool,
    /// The level of the debug sink.
    pub debug_level: Option<DebugLevel>,
}

/// The configuration of a database for which none is given: the tables live
/// in `DEFAULT_DIR` and the debug sink is switched off.
pub open spec fn default_configuration() -> Configuration {
    Configuration { db_dir: DEFAULT_DIR, debug_mode: false, debug_level: Some(DebugLevel::Info) }
}

impl Default for Configuration {
    fn default() -> (config: Self)
        ensures
            config == default_configuration(),
    {
        Configuration { db_dir: DEFAULT_DIR, debug_mode: false, debug_level: Some(DebugLevel::Info) }
    }
}

/// What every fallible operation of the database returns.
pub type MooResult<T> = Result<T, MooError>;

/// The records of a table, in storage order.
pub type MooRecords<T> = Vec<MooRecord<T>>;

/// One record of a table: a key and the value stored under it.
#[derive(Debug, PartialEq)]
pub struct MooRecord<T> {
    /// The key by which the record is found.
    pub key: String,
    /// The value of the record.
    pub value: T,
}

impl<T> View for MooRecord<T> {
    type V = (Seq<char>, T);

    open spec fn view(&self) -> (Seq<char>, T) {
        (self.key@, self.value)
    }
}

impl<T: Clone> Clone for MooRecord<T> {
    fn clone(&self) -> (copy: Self)
        ensures
            copy.key@ == self.key@,
            cloned(self.value, copy.value),
    {
        MooRecord { key: self.key.clone(), value: self.value.clone() }
    }
}

/// The kinds of failure.
#[derive(Debug, Clone, Copy, PartialEq, Eq)]
pub enum MooErrorCodes {
    NotFound,
    Debug,
    Warn,
    Error,
    Fatal,
}

/// A failure: its kind and a message for the reader.
#[derive(Debug)]
pub struct MooError {
    pub code: MooErrorCodes,
    pub message: String,
}

/// `result` is the error of kind `code` that says `message`.
pub open spec fn fails_with<V>(
    result: MooResult<V>,
    code: MooErrorCodes,
    message: Seq<char>,
) -> bool {
    result matches Err(error) && error.code == code && error.message@ == message
}

} // verus!
