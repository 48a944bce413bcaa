use vstd::prelude::*;

verus! {

/// One recorded diagnostic line.
pub enum Log {
    Debug(String),
    Warning(String),
    Error(String),
    FatalError(String),
}

/// The logger's verbosity mode.
pub enum LoggerMode {
    Debug,
}

/// A structured diagnostic channel: it records every message, by
/// severity, in arrival order. Diagnostics only: nothing in the engine
/// depends on it.
pub struct Logger {
    pub mode: LoggerMode,
    pub history: Vec<Log>,
}

impl Logger {
    pub fn new() -> (r: Self)
        ensures
            r.history@ == Seq::<Log>::empty(),
    {
        Logger { mode: LoggerMode::Debug, history: Vec::new() }
    }

    pub fn debug(&mut self, string: String)
        ensures
            final(self).history@ == old(self).history@.push(Log::Debug(string)),
    {
        self.history.push(Log::Debug(string));
    }

    pub fn warning(&mut self, string: String)
        ensures
            final(self).history@ == old(self).history@.push(Log::Warning(string)),
    {
        self.history.push(Log::Warning(string));
    }

    pub fn error(&mut self, string: String)
        ensures
            final(self).history@ == old(self).history@.push(Log::Error(string)),
    {
        self.history.push(Log::Error(string));
    }

    pub fn fatal_error(&mut self, string: String)
        ensures
            final(self).history@ == old(self).history@.push(Log::FatalError(string)),
    {
        self.history.push(Log::FatalError(string));
    }

    /// How many lines have been recorded.
    pub fn entry_count(&self) -> (r: usize)
        ensures
            r == self.history@.len(),
    {
        self.history.len()
    }
}

} // verus!
