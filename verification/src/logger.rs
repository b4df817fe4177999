//! The log: levels, entries, and a bounded list of the latest entries.

use vstd::prelude::*;
use vstd::string::StringExecFns;

verus! {

/// How grave a log entry is.
#[derive(Clone, Copy, Debug, PartialEq, Eq, Structural)]
pub enum LogLevel {
    Info,
    Warn,
    Error,
    Debug,
}

impl LogLevel {
    /// The level's name, in lower case.
    pub open spec fn name(self) -> Seq<char> {
        match self {
            LogLevel::Info => "info"@,
            LogLevel::Warn => "warn"@,
            LogLevel::Error => "error"@,
            LogLevel::Debug => "debug"@,
        }
    }

    /// The level's name, in lower case.
    pub fn as_str(&self) -> (name: &'static str)
        ensures
            name@ == self.name(),
    {
        match self {
            LogLevel::Info => "info",
            LogLevel::Warn => "warn",
            LogLevel::Error => "error",
            LogLevel::Debug => "debug",
        }
    }
}

/// One entry of the log.
#[derive(Clone, Debug, PartialEq, Eq)]
pub struct LogEntry {
    /// What tells the entry from the others.
    pub id: String,
    /// When it was made, in milliseconds since the epoch.
    pub timestamp: u64,
    /// How grave it is.
    pub level: LogLevel,
    /// What it says.
    pub message: String,
    /// The part of the program it comes from.
    pub source: Option<String>,
}

impl LogEntry {
    /// An entry without a source.
    pub fn new(id: String, timestamp: u64, level: LogLevel, message: String) -> (entry: LogEntry)
        ensures
            entry == (LogEntry { id, timestamp, level, message, source: None }),
    {
        LogEntry { id, timestamp, level, message, source: None }
    }

    /// The entry with `source` as its source.
    pub fn with_source(self, source: String) -> (entry: LogEntry)
        ensures
            entry == (LogEntry { source: Some(source), ..self }),
    {
        LogEntry {
            id: self.id,
            timestamp: self.timestamp,
            level: self.level,
            message: self.message,
            source: Some(source),
        }
    }

    fn duplicate(&self) -> (copy: LogEntry)
        ensures
            copy == *self,
    {
        LogEntry {
            id: self.id.clone(),
            timestamp: self.timestamp,
            level: self.level,
            message: self.message.clone(),
            source: match &self.source {
                Some(source) => Some(source.clone()),
                None => None,
            },
        }
    }
}

/// The log after one more entry: the entry comes last, and the oldest
/// leaves if the log then holds more than `max_logs`.
pub open spec fn appended(logs: Seq<LogEntry>, entry: LogEntry, max_logs: nat) -> Seq<LogEntry> {
    if logs.len() + 1 > max_logs {
        logs.push(entry).subrange(1, logs.len() as int + 1)
    } else {
        logs.push(entry)
    }
}

/// The latest entries of the program, oldest first.
pub struct Logger {
    logs: Vec<LogEntry>,
    max_logs: usize,
}

impl View for Logger {
    type V = Seq<LogEntry>;

    closed spec fn view(&self) -> Seq<LogEntry> {
        self.logs@
    }
}

impl Logger {
    /// How many entries the log keeps at most.
    pub closed spec fn capacity(&self) -> nat {
        self.max_logs as nat
    }

    /// An empty log that keeps `max_logs` entries.
    pub fn new(max_logs: usize) -> (logger: Logger)
        ensures
            logger@.len() == 0,
            logger.capacity() == max_logs,
    {
        Logger { logs: Vec::new(), max_logs }
    }

    /// Appends an entry; the oldest entry leaves if the log is then over
    /// its capacity.
    pub fn log(&mut self, entry: LogEntry)
        ensures
            final(self).capacity() == old(self).capacity(),
            final(self)@ == appended(old(self)@, entry, old(self).capacity()),
    {
        let ghost before = self.logs@;
        self.logs.push(entry);
        if self.logs.len() > self.max_logs {
            self.logs.remove(0);
        }
        assert(self.logs@ =~= appended(before, entry, self.max_logs as nat));
    }

    /// All entries, oldest first.
    pub fn get_logs(&self) -> (logs: Vec<LogEntry>)
        ensures
            logs@ == self@,
    {
        self.get_logs_by_level(None)
    }

    /// The entries of one level, oldest first, or all entries where no
    /// level is given.
    pub fn get_logs_by_level(&self, level: Option<LogLevel>) -> (logs: Vec<LogEntry>)
        ensures
            logs@ == match level {
                Some(wanted) => self@.filter(|e: LogEntry| e.level == wanted),
                None => self@,
            },
    {
        let mut logs: Vec<LogEntry> = Vec::new();
        let mut i: usize = 0;
        match level {
            Some(wanted) => {
                let ghost keep = |e: LogEntry| e.level == wanted;
                while i < self.logs.len()
                    invariant
                        i <= self.logs@.len(),
                        keep == |e: LogEntry| e.level == wanted,
                        logs@ == self.logs@.take(i as int).filter(keep),
                    decreases self.logs@.len() - i,
                {
                    let entry = &self.logs[i];
                    proof {
                        let next = self.logs@.take(i + 1);
                        assert(next.drop_last() =~= self.logs@.take(i as int));
                        assert(next.last() == *entry);
                        reveal(Seq::filter);
                    }
                    if entry.level == wanted {
                        logs.push(entry.duplicate());
                    }
                    i += 1;
                }
            },
            None => {
                while i < self.logs.len()
                    invariant
                        i <= self.logs@.len(),
                        logs@ == self.logs@.take(i as int),
                    decreases self.logs@.len() - i,
                {
                    logs.push(self.logs[i].duplicate());
                    assert(logs@ =~= self.logs@.take(i + 1));
                    i += 1;
                }
            },
        }
        assert(self.logs@.take(i as int) =~= self.logs@);
        logs
    }

    /// Drops all entries.
    pub fn clear(&mut self)
        ensures
            final(self)@.len() == 0,
            final(self).capacity() == old(self).capacity(),
    {
        self.logs.clear();
    }

    /// How many entries the log holds.
    pub fn count(&self) -> (count: usize)
        ensures
            count == self@.len(),
    {
        self.logs.len()
    }
}

/// The level that a name stands for, if it is the name of one.
pub fn parse_level(name: &str) -> (level: Option<LogLevel>)
    ensures
        match level {
            Some(l) => name@ == l.name(),
            None => forall|l: LogLevel| name@ != l.name(),
        },
{
    proof {
        reveal_strlit("info");
        reveal_strlit("warn");
        reveal_strlit("error");
        reveal_strlit("debug");
    }
    let given = String::from_str(name);
    let info = String::from_str("info");
    let warn = String::from_str("warn");
    let error = String::from_str("error");
    let debug = String::from_str("debug");
    if given == info {
        Some(LogLevel::Info)
    } else if given == warn {
        Some(LogLevel::Warn)
    } else if given == error {
        Some(LogLevel::Error)
    } else if given == debug {
        Some(LogLevel::Debug)
    } else {
        None
    }
}

} // verus!
