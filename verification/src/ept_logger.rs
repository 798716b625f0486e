//! The log of a run: entries with a level, a message and the moment they
//! were made, kept in the order in which they were made.

use vstd::prelude::*;
use crate::clock::utc_now_text;

verus! {

/// One log entry.
#[derive(Debug, Clone)]
pub struct LogEntry {
    pub level: String,
    pub message: String,
    pub timestamp: String,
}

/// The mathematical content of a log entry.
pub struct LogEntryView {
    pub level: Seq<char>,
    pub message: Seq<char>,
    pub timestamp: Seq<char>,
}

impl View for LogEntry {
    type V = LogEntryView;

    open spec fn view(&self) -> LogEntryView {
        LogEntryView { level: self.level@, message: self.message@, timestamp: self.timestamp@ }
    }
}

/// Collects log entries.
pub struct EPTLogger {
    logs: Vec<LogEntry>,
}

impl EPTLogger {
    /// The entries logged so far, oldest first.
    pub closed spec fn entries(&self) -> Seq<LogEntryView> {
        self.logs@.map_values(|e: LogEntry| e@)
    }

    /// A logger without entries.
    pub fn new() -> (r: Self)
        ensures
            r.entries() == Seq::<LogEntryView>::empty(),
    {
        let r = EPTLogger { logs: Vec::new() };
        assert(r.entries() =~= Seq::<LogEntryView>::empty());
        r
    }

    /// Appends an entry made at a given moment, and returns a copy of it.
    pub fn log_at(&mut self, level: &str, message: &str, timestamp: &str) -> (r: LogEntry)
        ensures
            r@ == (LogEntryView { level: level@, message: message@, timestamp: timestamp@ }),
            final(self).entries() == old(self).entries().push(r@),
    {
        let entry = LogEntry {
            level: level.to_owned(),
            message: message.to_owned(),
            timestamp: timestamp.to_owned(),
        };
        let copy = LogEntry {
            level: level.to_owned(),
            message: message.to_owned(),
            timestamp: timestamp.to_owned(),
        };
        self.logs.push(entry);
        assert(self.entries() =~= old(self).entries().push(copy@));
        copy
    }

    /// Appends an entry made now.
    fn log(&mut self, level: &str, message: &str) -> (r: LogEntry)
        ensures
            r@.level == level@,
            r@.message == message@,
            final(self).entries() == old(self).entries().push(r@),
    {
        let timestamp = utc_now_text();
        self.log_at(level, message, timestamp.as_str())
    }

    /// Logs a message at level `INFO`.
    pub fn info(&mut self, message: &str) -> (r: LogEntry)
        ensures
            r@.level == "INFO"@,
            r@.message == message@,
            final(self).entries() == old(self).entries().push(r@),
    {
        self.log("INFO", message)
    }

    /// Logs a message at level `WARNING`.
    pub fn warning(&mut self, message: &str) -> (r: LogEntry)
        ensures
            r@.level == "WARNING"@,
            r@.message == message@,
            final(self).entries() == old(self).entries().push(r@),
    {
        self.log("WARNING", message)
    }

    /// Logs a message at level `ERROR`.
    pub fn error(&mut self, message: &str) -> (r: LogEntry)
        ensures
            r@.level == "ERROR"@,
            r@.message == message@,
            final(self).entries() == old(self).entries().push(r@),
    {
        self.log("ERROR", message)
    }

    /// A copy of the entries logged so far, oldest first.
    pub fn get_logs(&self) -> (r: Vec<LogEntry>)
        ensures
            r@.map_values(|e: LogEntry| e@) == self.entries(),
    {
        let mut copy: Vec<LogEntry> = Vec::new();
        let mut i: usize = 0;
        while i < self.logs.len()
            invariant
                i <= self.logs.len(),
                copy@.len() == i,
                forall|k: int| 0 <= k < i ==> (#[trigger] copy@[k])@ == self.logs@[k]@,
            decreases self.logs.len() - i,
        {
            let e = &self.logs[i];
            copy.push(
                LogEntry {
                    level: e.level.clone(),
                    message: e.message.clone(),
                    timestamp: e.timestamp.clone(),
                },
            );
            i += 1;
        }
        assert(copy@.map_values(|e: LogEntry| e@) =~= self.entries());
        copy
    }
}

} // verus!
