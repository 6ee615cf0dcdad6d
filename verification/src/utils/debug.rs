//! The debug sink: a write-only record of what the database did.

use vstd::prelude::*;
use vstd::string::StringExecFns;

use crate::text::texts;
use crate::Configuration;

verus! {

/// How grave the events are that a debug sink reports.
#[derive(Debug, Clone, Copy, PartialEq, Eq)]
pub enum DebugLevel {
    Info,
    Warning,
    Error,
}

/// The name under which a level appears in an entry.
pub open spec fn level_name(level: DebugLevel) -> Seq<char> {
    match level {
        DebugLevel::Info => "Info"@,
        DebugLevel::Warning => "Warning"@,
        DebugLevel::Error => "Error"@,
    }
}

/// The entry that stands for one event: `[<timestamp>] <level> - <message>`
/// and the end of the line.
pub open spec fn entry(timestamp: Seq<char>, level: DebugLevel, message: Seq<char>) -> Seq<char> {
    "["@ + timestamp + "] "@ + level_name(level) + " - "@ + message + "\n"@
}

/// The file of the debug sink: `debug.log` in the configured directory.
pub open spec fn log_path_of(db_dir: Seq<char>) -> Seq<char> {
    db_dir + "/debug.log"@
}

/// The debug sink of a database.
#[derive(Debug)]
pub struct DebugClient {
    /// The file that takes the entries, where one could be opened.
    pub path: Option<String>,
    /// The level that the entries carry.
    pub level: DebugLevel,
    /// Whether events are recorded at all.
    pub enabled: bool,
    /// The entries recorded since they were last taken, oldest first.
    pub lines: Vec<String>,
}

impl DebugClient {
    /// The entries that wait to be written out.
    pub open spec fn waiting(&self) -> Seq<Seq<char>> {
        texts(self.lines@)
    }

    /// The same sink, with the same file, level and switch.
    pub open spec fn same_sink(&self, before: &DebugClient) -> bool {
        &&& self.enabled == before.enabled
        &&& self.level == before.level
        &&& self.path is Some == before.path is Some
        &&& self.path is Some ==> self.path->0@ == before.path->0@
    }

    /// `self` is `before` after some events: the same sink, which has lost
    /// no entry, and has gained none while switched off.
    pub open spec fn continues(&self, before: &DebugClient) -> bool {
        &&& self.same_sink(before)
        &&& before.waiting().is_prefix_of(self.waiting())
        &&& !before.enabled ==> self.waiting() == before.waiting()
    }

    /// A sink as `new` makes it from these arguments: it has the switch and
    /// the level given, `Info` where none is given, holds no entry, and
    /// writes to `debug.log` in `db_dir` where it is switched on and that
    /// file could be opened.
    pub open spec fn fresh(
        &self,
        enabled: bool,
        level: Option<DebugLevel>,
        db_dir: Seq<char>,
        opened: bool,
    ) -> bool {
        &&& self.enabled == enabled
        &&& self.level == match level {
            Some(given) => given,
            None => DebugLevel::Info,
        }
        &&& self.waiting() == Seq::<Seq<char>>::empty()
        &&& self.path is Some <==> enabled && opened
        &&& self.path is Some ==> self.path->0@ == log_path_of(db_dir)
    }

    /// What continues a sink that continues `before` continues `before`.
    pub proof fn lemma_continues(&self, between: &DebugClient, before: &DebugClient)
        requires
            self.continues(between),
            between.continues(before),
        ensures
            self.continues(before),
    {
    }

    /// The name of the file that a sink with this configuration writes to.
    pub fn log_path(config: &Configuration) -> (path: String)
        ensures
            path@ == log_path_of(config.db_dir@),
    {
        let mut path = String::from_str(config.db_dir);
        path.append("/debug.log");
        path
    }

    /// A sink for a database with the given configuration. `level` defaults
    /// to `Info`. `opened` tells whether the file `log_path(&config)` could
    /// be opened or created; it is not looked at for a sink that is
    /// switched off.
    pub fn new(
        enabled: bool,
        level: Option<DebugLevel>,
        config: Configuration,
        opened: bool,
    ) -> (sink: Self)
        ensures
            sink.fresh(enabled, level, config.db_dir@, opened),
    {
        let level = match level {
            Some(given) => given,
            None => DebugLevel::Info,
        };
        let path = if enabled && opened {
            Some(Self::log_path(&config))
        } else {
            None
        };
        let sink = DebugClient { path, level, enabled, lines: Vec::new() };
        assert(sink.waiting() =~= Seq::<Seq<char>>::empty());
        sink
    }

    /// The entry for an event that happened at `timestamp`.
    pub fn format(&self, timestamp: &str, message: &str) -> (line: String)
        ensures
            line@ == entry(timestamp@, self.level, message@),
    {
        let mut line = String::from_str("[");
        line.append(timestamp);
        line.append("] ");
        line.append(
            match self.level {
                DebugLevel::Info => "Info",
                DebugLevel::Warning => "Warning",
                DebugLevel::Error => "Error",
            },
        );
        line.append(" - ");
        line.append(message);
        line.append("\n");
        line
    }

    /// Records an event that happened at `timestamp`, unless the sink is
    /// switched off.
    pub fn record(&mut self, timestamp: &str, message: &str)
        ensures
            final(self).same_sink(old(self)),
            final(self).waiting() == if old(self).enabled {
                old(self).waiting().push(entry(timestamp@, old(self).level, message@))
            } else {
                old(self).waiting()
            },
    {
        if self.enabled {
            let line = self.format(timestamp, message);
            self.lines.push(line);
            assert(texts(self.lines@) =~= texts(old(self).lines@).push(line@));
        }
    }

    /// Records an event that happens now: the entry carries the local time
    /// of the call, whatever it is.
    pub fn log(&mut self, message: String)
        ensures
            final(self).continues(old(self)),
            old(self).enabled ==> exists|timestamp: Seq<char>|
                final(self).waiting() == old(self).waiting().push(
                    #[trigger] entry(timestamp, old(self).level, message@),
                ),
    {
        if self.enabled {
            let timestamp = local_timestamp();
            self.record(timestamp.as_str(), message.as_str());
        }
    }

    /// Hands out the entries recorded so far, oldest first, and forgets them.
    pub fn take_lines(&mut self) -> (lines: Vec<String>)
        ensures
            texts(lines@) == old(self).waiting(),
            final(self).waiting() == Seq::<Seq<char>>::empty(),
            final(self).same_sink(old(self)),
    {
        let mut lines: Vec<String> = Vec::new();
        lines.append(&mut self.lines);
        assert(lines@ =~= old(self).lines@);
        assert(texts(self.lines@) =~= Seq::<Seq<char>>::empty());
        lines
    }
}

impl Clone for DebugClient {
    fn clone(&self) -> (copy: Self)
        ensures
            copy.same_sink(self),
            copy.waiting() == self.waiting(),
    {
        let path = match &self.path {
            Some(path) => Some(path.clone()),
            None => None,
        };
        let lines = self.lines.clone();
        assert(texts(lines@) =~= texts(self.lines@));
        DebugClient { path, level: self.level, enabled: self.enabled, lines }
    }
}

/// The local date and time of this moment as chrono's `Local::now()` gives
/// and prints them. Nothing is claimed of the text: it changes from call to
/// call. chrono does not return where the system clock stands before 1970.
#[verifier::external_body]
fn local_timestamp() -> (timestamp: String) {
    chrono::Local::now().to_string()
}

} // verus!
