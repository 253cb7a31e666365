use vstd::prelude::*;

verus! {

/// The plugin that collects what a sketch writes to its console.
pub struct LogPlugin;

impl LogPlugin {
    /// The log a sketch starts with when it is built: empty.
    pub fn new_sketch_state() -> (s: SketchLog)
        ensures
            s.entries@.len() == 0,
    {
        SketchLog::new()
    }
}

/// Which console stream an entry was written to.
#[derive(Clone, Copy, PartialEq, Eq, Debug)]
pub enum LogEntryType {
    Stdout,
    Stderr,
}

/// One line a sketch wrote to its console.
#[derive(Debug)]
pub struct LogEntry {
    pub message: String,
    pub message_type: LogEntryType,
}

/// What a sketch wrote to its console during its last update, in order.
pub struct SketchLog {
    pub entries: Vec<LogEntry>,
}

/// The log as plain values: each entry's text and stream.
pub open spec fn log_view(entries: Seq<LogEntry>) -> Seq<(Seq<char>, LogEntryType)> {
    entries.map_values(|e: LogEntry| (e.message@, e.message_type))
}

impl SketchLog {
    pub fn new() -> (s: Self)
        ensures
            s.entries@.len() == 0,
    {
        SketchLog { entries: Vec::new() }
    }

    /// `console.log`: appends `message` as standard output.
    pub fn console_log(&mut self, message: String)
        ensures
            log_view(final(self).entries@) == log_view(old(self).entries@).push((message@, LogEntryType::Stdout)),
    {
        let ghost m = message@;
        self.entries.push(LogEntry { message, message_type: LogEntryType::Stdout });
        assert(log_view(self.entries@) =~= log_view(old(self).entries@).push((m, LogEntryType::Stdout)));
    }

    /// `console.error`: appends `message` as standard error.
    pub fn console_error(&mut self, message: String)
        ensures
            log_view(final(self).entries@) == log_view(old(self).entries@).push((message@, LogEntryType::Stderr)),
    {
        let ghost m = message@;
        self.entries.push(LogEntry { message, message_type: LogEntryType::Stderr });
        assert(log_view(self.entries@) =~= log_view(old(self).entries@).push((m, LogEntryType::Stderr)));
    }

    /// Empties the log; done before each sketch update, so that the log
    /// holds what the last update wrote.
    pub fn clear(&mut self)
        ensures
            final(self).entries@.len() == 0,
    {
        self.entries.clear();
    }

    /// The entries, in the order they were written.
    pub fn entries(&self) -> (r: &Vec<LogEntry>)
        ensures
            r@ == self.entries@,
    {
        &self.entries
    }
}

} // verus!
