//! Lines for the log.

use vstd::prelude::*;

verus! {

/// How prominent a log line is.
#[derive(Debug, Clone, Copy, PartialEq, Eq, Structural)]
pub enum Level {
    Debug,
    Info,
}

/// A line for the log.
#[derive(Debug)]
pub struct LogLine {
    pub level: Level,
    pub message: String,
}

impl View for LogLine {
    type V = (Level, Seq<char>);

    open spec fn view(&self) -> (Level, Seq<char>) {
        (self.level, self.message@)
    }
}

/// What the log lines in `v` say.
pub open spec fn line_views(v: Seq<LogLine>) -> Seq<(Level, Seq<char>)> {
    v.map_values(|line: LogLine| line@)
}

} // verus!
