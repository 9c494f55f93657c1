//! A bounded in-memory log for the terminal interface: captured entries in a
//! ring of at most [`CAPACITY`] lines, and the runtime verbosity setting.
use vstd::prelude::*;
use std::collections::VecDeque;

verus! {

/// Maximum number of retained log lines.
pub const CAPACITY: usize = 2000;

/// The severity of a log entry, most severe first.
#[derive(Debug, Clone, Copy, PartialEq, Eq, Structural)]
pub enum LogLevel {
    Error,
    Warn,
    Info,
    Debug,
    Trace,
}

/// The most verbose severity let through: nothing, or up to a level.
#[derive(Debug, Clone, Copy, PartialEq, Eq, Structural)]
pub enum LogFilter {
    Off,
    Error,
    Warn,
    Info,
    Debug,
    Trace,
}

/// The rank of a level: 1 for errors up to 5 for trace.
pub open spec fn level_rank(level: LogLevel) -> nat {
    match level {
        LogLevel::Error => 1,
        LogLevel::Warn => 2,
        LogLevel::Info => 3,
        LogLevel::Debug => 4,
        LogLevel::Trace => 5,
    }
}

/// The rank of a filter: 0 for off up to 5 for trace.
pub open spec fn filter_rank(f: LogFilter) -> nat {
    match f {
        LogFilter::Off => 0,
        LogFilter::Error => 1,
        LogFilter::Warn => 2,
        LogFilter::Info => 3,
        LogFilter::Debug => 4,
        LogFilter::Trace => 5,
    }
}

/// The filter of a stored rank: ranks past trace read as trace.
pub open spec fn filter_of_rank(v: int) -> LogFilter {
    if v == 0 {
        LogFilter::Off
    } else if v == 1 {
        LogFilter::Error
    } else if v == 2 {
        LogFilter::Warn
    } else if v == 3 {
        LogFilter::Info
    } else if v == 4 {
        LogFilter::Debug
    } else {
        LogFilter::Trace
    }
}

/// The stored rank of a filter.
pub fn level_to_usize(level: LogFilter) -> (r: usize)
    ensures
        r == filter_rank(level),
{
    match level {
        LogFilter::Off => 0,
        LogFilter::Error => 1,
        LogFilter::Warn => 2,
        LogFilter::Info => 3,
        LogFilter::Debug => 4,
        LogFilter::Trace => 5,
    }
}

/// The filter of a stored rank (see [`filter_of_rank`]).
pub fn usize_to_filter(value: usize) -> (r: LogFilter)
    ensures
        r == filter_of_rank(value as int),
{
    match value {
        0 => LogFilter::Off,
        1 => LogFilter::Error,
        2 => LogFilter::Warn,
        3 => LogFilter::Info,
        4 => LogFilter::Debug,
        _ => LogFilter::Trace,
    }
}

/// Storing a filter as its rank and reading it back gives the same filter.
pub proof fn lemma_filter_round_trip(f: LogFilter)
    ensures
        filter_of_rank(filter_rank(f) as int) == f,
{
}

/// Whether an entry of `level` passes the filter `max`.
pub fn level_enabled(level: LogLevel, max: LogFilter) -> (b: bool)
    ensures
        b == (level_rank(level) <= filter_rank(max)),
{
    let l: usize = match level {
        LogLevel::Error => 1,
        LogLevel::Warn => 2,
        LogLevel::Info => 3,
        LogLevel::Debug => 4,
        LogLevel::Trace => 5,
    };
    l <= level_to_usize(max)
}

/// A captured log entry.
pub struct LogEntry {
    pub level: LogLevel,
    pub target: String,
    pub message: String,
}

impl LogEntry {
    /// The entry as plain values: level, target, message.
    pub open spec fn view(&self) -> (LogLevel, Seq<char>, Seq<char>) {
        (self.level, self.target@, self.message@)
    }

    /// A copy of the entry.
    pub fn duplicate(&self) -> (r: LogEntry)
        ensures
            r.view() == self.view(),
    {
        LogEntry { level: self.level, target: self.target.clone(), message: self.message.clone() }
    }
}

/// The entries as plain values.
pub open spec fn entries_view(entries: Seq<LogEntry>) -> Seq<(LogLevel, Seq<char>, Seq<char>)> {
    entries.map_values(|e: LogEntry| e.view())
}

/// The retained entries, oldest first.
pub struct LogBuffer {
    entries: VecDeque<LogEntry>,
}

impl LogBuffer {
    /// The retained entries as plain values, oldest first.
    pub closed spec fn view(&self) -> Seq<(LogLevel, Seq<char>, Seq<char>)> {
        entries_view(self.entries@)
    }

    /// At most [`CAPACITY`] entries are retained.
    pub closed spec fn wf(&self) -> bool {
        self.entries@.len() <= CAPACITY
    }

    /// An empty buffer.
    pub fn new() -> (b: LogBuffer)
        ensures
            b.wf(),
            b.view() == Seq::<(LogLevel, Seq<char>, Seq<char>)>::empty(),
    {
        let b = LogBuffer { entries: VecDeque::new() };
        assert(b.view() =~= Seq::<(LogLevel, Seq<char>, Seq<char>)>::empty());
        b
    }

    /// Appends an entry, dropping the oldest one when the buffer is full.
    pub fn push(&mut self, entry: LogEntry)
        requires
            old(self).wf(),
        ensures
            final(self).wf(),
            old(self).view().len() < CAPACITY ==> final(self).view() == old(self).view().push(entry.view()),
            old(self).view().len() == CAPACITY ==> final(self).view() == old(self).view().drop_first().push(
                entry.view(),
            ),
    {
        let ghost before = self.entries@;
        let ghost v = entry.view();
        if self.entries.len() == CAPACITY {
            let _ = self.entries.pop_front();
            assert(entries_view(self.entries@) =~= entries_view(before).drop_first());
        }
        let ghost mid = self.entries@;
        self.entries.push_back(entry);
        assert(entries_view(self.entries@) =~= entries_view(mid).push(v));
    }

    /// Copies of the most recent `max` entries (all of them when fewer),
    /// oldest first.
    pub fn snapshot(&self, max: usize) -> (r: Vec<LogEntry>)
        ensures
            entries_view(r@) == self.view().skip(
                if self.view().len() > max { self.view().len() - max } else { 0 },
            ),
    {
        let n = self.entries.len();
        let start = if n > max {
            n - max
        } else {
            0
        };
        let ghost all = entries_view(self.entries@);
        let mut out: Vec<LogEntry> = Vec::new();
        let mut i: usize = start;
        while i < n
            invariant
                start <= i <= n,
                n == self.entries@.len(),
                all == entries_view(self.entries@),
                entries_view(out@) == all.subrange(start as int, i as int),
            decreases n - i,
        {
            let e = self.entries[i].duplicate();
            assert(e.view() == all[i as int]);
            let ghost prev = out@;
            out.push(e);
            assert(entries_view(out@) =~= entries_view(prev).push(e.view()));
            i = i + 1;
            assert(entries_view(out@) =~= all.subrange(start as int, i as int));
        }
        assert(all.subrange(start as int, n as int) =~= all.skip(start as int));
        out
    }

    /// The number of retained entries.
    pub fn len(&self) -> (n: usize)
        ensures
            n == self.view().len(),
    {
        self.entries.len()
    }
}

/// The runtime verbosity: the rank of the current filter.
pub struct LevelControl {
    level: usize,
}

impl LevelControl {
    /// The current filter.
    pub closed spec fn view(&self) -> LogFilter {
        filter_of_rank(self.level as int)
    }

    /// A control set to `initial`.
    pub fn new(initial: LogFilter) -> (c: LevelControl)
        ensures
            c.view() == initial,
    {
        LevelControl { level: level_to_usize(initial) }
    }

    /// Changes the filter.
    pub fn set(&mut self, level: LogFilter)
        ensures
            final(self).view() == level,
    {
        self.level = level_to_usize(level);
    }

    /// The current filter.
    pub fn get(&self) -> (f: LogFilter)
        ensures
            f == self.view(),
    {
        usize_to_filter(self.level)
    }
}

} // verus!
