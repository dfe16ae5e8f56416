//! Log line gating and queueing. The engine never blocks on the log: lines
//! are formatted and queued here, and a carrier outside this crate drains
//! them to their destination.

use vstd::prelude::*;

verus! {

/// Whether a line of the given level should be logged: warnings and errors
/// always, everything else only when debug logging is enabled.
pub fn should_log(enabled: bool, level: &str) -> (r: bool)
    ensures
        r == (enabled || level@ == "WARN"@ || level@ == "ERROR"@),
{
    enabled || crate::text::str_eq(level, "WARN") || crate::text::str_eq(level, "ERROR")
}

/// The queue of formatted log lines awaiting delivery.
#[derive(Debug, PartialEq, Eq)]
pub struct LogSink {
    pub enabled: bool,
    pub lines: Vec<String>,
}

impl LogSink {
    /// An empty sink.
    pub fn new(enabled: bool) -> (r: Self)
        ensures
            r.enabled == enabled,
            r.lines@.len() == 0,
    {
        LogSink { enabled, lines: Vec::new() }
    }

    /// Formats one line as `timestamp [LEVEL] message` and queues it.
    pub fn enqueue(&mut self, level: &str, timestamp: &str, msg: &str)
        ensures
            final(self).enabled == old(self).enabled,
            final(self).lines@.len() == old(self).lines@.len() + 1,
            final(self).lines@.drop_last() == old(self).lines@,
            final(self).lines@.last()@ == timestamp@ + " ["@ + level@ + "] "@ + msg@,
    {
        let mut line = String::from_str(timestamp);
        line.append(" [");
        line.append(level);
        line.append("] ");
        line.append(msg);
        let ghost before = self.lines@;
        self.lines.push(line);
        proof {
            assert(self.lines@.drop_last() =~= before);
        }
    }

    /// Hands every queued line to the carrier, leaving the queue empty.
    pub fn drain(&mut self) -> (r: Vec<String>)
        ensures
            final(self).enabled == old(self).enabled,
            final(self).lines@.len() == 0,
            r@ == old(self).lines@,
    {
        let mut out: Vec<String> = Vec::new();
        core::mem::swap(&mut out, &mut self.lines);
        out
    }
}

} // verus!
