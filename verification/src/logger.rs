//! Structured logging with severity levels and a bounded history.
//!
//! The clock lives with the caller: timestamps come in as plain seconds,
//! and printing a formatted entry is the caller's business too.

use vstd::prelude::*;
use crate::storage::str_to_string;
use crate::text::{dec_chars, u64_to_dec};

verus! {

/// Logging severity levels, least severe first.
#[derive(Debug, Clone, Copy, PartialEq, Eq, PartialOrd, Ord, Structural)]
pub enum LogLevel {
    Trace,
    Debug,
    Info,
    Warning,
    Error,
    Fatal,
}

/// Numeric severity of a level, for comparisons.
pub open spec fn spec_rank(l: LogLevel) -> int {
    match l {
        LogLevel::Trace => 0,
        LogLevel::Debug => 1,
        LogLevel::Info => 2,
        LogLevel::Warning => 3,
        LogLevel::Error => 4,
        LogLevel::Fatal => 5,
    }
}

impl LogLevel {
    /// Numeric severity, `Trace` lowest.
    pub fn rank(&self) -> (r: u8)
        ensures
            r as int == spec_rank(*self),
    {
        match self {
            LogLevel::Trace => 0,
            LogLevel::Debug => 1,
            LogLevel::Info => 2,
            LogLevel::Warning => 3,
            LogLevel::Error => 4,
            LogLevel::Fatal => 5,
        }
    }
}

/// The colored console tag for a level.
pub open spec fn spec_level_tag(l: LogLevel) -> Seq<char> {
    match l {
        LogLevel::Trace => "\u{1b}[90m[TRACE]\u{1b}[0m"@,
        LogLevel::Debug => "\u{1b}[36m[DEBUG]\u{1b}[0m"@,
        LogLevel::Info => "\u{1b}[32m[INFO]\u{1b}[0m"@,
        LogLevel::Warning => "\u{1b}[33m[WARN]\u{1b}[0m"@,
        LogLevel::Error => "\u{1b}[31m[ERROR]\u{1b}[0m"@,
        LogLevel::Fatal => "\u{1b}[1;31m[FATAL]\u{1b}[0m"@,
    }
}

/// One entry in the log history.
#[derive(Debug)]
pub struct LogEntry {
    pub timestamp: u64,
    pub level: LogLevel,
    pub message: String,
    pub component: Option<String>,
}

/// Field-wise sameness of two entries.
pub open spec fn entry_like(a: LogEntry, b: LogEntry) -> bool {
    &&& a.timestamp == b.timestamp
    &&& a.level == b.level
    &&& a.message@ == b.message@
    &&& match (a.component, b.component) {
        (Some(x), Some(y)) => x@ == y@,
        (None, None) => true,
        _ => false,
    }
}

/// What a formatted entry reads: timestamp, level tag, optional component
/// tag, then the message.
pub open spec fn spec_entry_format(e: LogEntry) -> Seq<char> {
    dec_chars(e.timestamp as int) + " "@ + spec_level_tag(e.level) + " "@ + (match e.component {
        Some(c) => "\u{1b}[1m["@ + c@ + "]\u{1b}[0m "@,
        None => Seq::<char>::empty(),
    }) + e.message@
}

impl LogEntry {
    /// An entry stamped with the caller's clock reading.
    pub fn new(level: LogLevel, message: &str, component: Option<&str>, timestamp: u64) -> (r: Self)
        ensures
            r.timestamp == timestamp,
            r.level == level,
            r.message@ == message@,
            match (r.component, component) {
                (Some(x), Some(y)) => x@ == y@,
                (None, None) => true,
                _ => false,
            },
    {
        let component_owned = match component {
            Some(c) => Some(str_to_string(c)),
            None => None,
        };
        LogEntry { timestamp, level, message: str_to_string(message), component: component_owned }
    }

    /// Render the entry for the console.
    pub fn format(&self) -> (r: String)
        ensures
            r@ == spec_entry_format(*self),
    {
        let mut out = format_timestamp(self.timestamp);
        out.append(" ");
        let tag = match self.level {
            LogLevel::Trace => "\u{1b}[90m[TRACE]\u{1b}[0m",
            LogLevel::Debug => "\u{1b}[36m[DEBUG]\u{1b}[0m",
            LogLevel::Info => "\u{1b}[32m[INFO]\u{1b}[0m",
            LogLevel::Warning => "\u{1b}[33m[WARN]\u{1b}[0m",
            LogLevel::Error => "\u{1b}[31m[ERROR]\u{1b}[0m",
            LogLevel::Fatal => "\u{1b}[1;31m[FATAL]\u{1b}[0m",
        };
        out.append(tag);
        out.append(" ");
        match &self.component {
            Some(c) => {
                out.append("\u{1b}[1m[");
                out.append(c.as_str());
                out.append("]\u{1b}[0m ");
            },
            None => {},
        }
        out.append(self.message.as_str());
        proof {
            assert(out@ =~= spec_entry_format(*self));
        }
        out
    }

    pub fn clone(&self) -> (r: LogEntry)
        ensures
            entry_like(r, *self),
    {
        LogEntry {
            timestamp: self.timestamp,
            level: self.level,
            message: self.message.clone(),
            component: match &self.component {
                Some(c) => Some(c.clone()),
                None => None,
            },
        }
    }
}

/// A timestamp rendered for the console: the plain seconds value.
pub fn format_timestamp(timestamp: u64) -> (r: String)
    ensures
        r@ == dec_chars(timestamp as int),
{
    u64_to_dec(timestamp)
}

/// The entries of `s` carrying the given level, in held order.
pub open spec fn spec_entries_with_level(s: Seq<LogEntry>, l: LogLevel) -> Seq<LogEntry>
    decreases s.len(),
{
    if s.len() == 0 {
        Seq::empty()
    } else if s[0].level == l {
        seq![s[0]] + spec_entries_with_level(s.drop_first(), l)
    } else {
        spec_entries_with_level(s.drop_first(), l)
    }
}

/// A bounded in-memory log.
pub struct Logger {
    min_level: LogLevel,
    entries: Vec<LogEntry>,
    max_entries: usize,
}

impl Logger {
    pub closed spec fn spec_min_level(&self) -> LogLevel {
        self.min_level
    }

    pub closed spec fn spec_entries(&self) -> Seq<LogEntry> {
        self.entries@
    }

    pub closed spec fn spec_max_entries(&self) -> int {
        self.max_entries as int
    }

    /// A logger that keeps at most a thousand entries at or above the
    /// given level.
    pub fn new(min_level: LogLevel) -> (r: Self)
        ensures
            r.spec_min_level() == min_level,
            r.spec_entries().len() == 0,
            r.spec_max_entries() == 1000,
    {
        Logger { min_level, entries: Vec::new(), max_entries: 1000 }
    }

    /// Record a message at the caller's clock reading.  Messages below the
    /// logger's level are dropped; at capacity the oldest entry leaves.
    pub fn log(&mut self, level: LogLevel, message: &str, timestamp: u64)
        ensures
            final(self).spec_min_level() == old(self).spec_min_level(),
            final(self).spec_max_entries() == old(self).spec_max_entries(),
            spec_rank(level) < spec_rank(old(self).spec_min_level()) ==> final(self).spec_entries()
                == old(self).spec_entries(),
            spec_rank(level) >= spec_rank(old(self).spec_min_level()) ==> {
                &&& final(self).spec_entries().len() == (if old(self).spec_entries().len() >= old(
                    self,
                ).spec_max_entries() && old(self).spec_entries().len() > 0 {
                    old(self).spec_entries().len()
                } else {
                    old(self).spec_entries().len() + 1
                })
                &&& final(self).spec_entries().last().timestamp == timestamp
                &&& final(self).spec_entries().last().level == level
                &&& final(self).spec_entries().last().message@ == message@
                &&& final(self).spec_entries().last().component is None
            },
    {
        self.log_with_component_opt(level, message, None, timestamp)
    }

    /// Record a message tagged with a component.
    pub fn log_with_component(&mut self, level: LogLevel, component: &str, message: &str, timestamp: u64)
        ensures
            final(self).spec_min_level() == old(self).spec_min_level(),
            final(self).spec_max_entries() == old(self).spec_max_entries(),
            spec_rank(level) < spec_rank(old(self).spec_min_level()) ==> final(self).spec_entries()
                == old(self).spec_entries(),
            spec_rank(level) >= spec_rank(old(self).spec_min_level()) ==> {
                &&& final(self).spec_entries().len() > 0
                &&& final(self).spec_entries().last().message@ == message@
                &&& final(self).spec_entries().last().component matches Some(c) && c@ == component@
            },
    {
        self.log_with_component_opt(level, message, Some(component), timestamp)
    }

    fn log_with_component_opt(
        &mut self,
        level: LogLevel,
        message: &str,
        component: Option<&str>,
        timestamp: u64,
    )
        ensures
            final(self).spec_min_level() == old(self).spec_min_level(),
            final(self).spec_max_entries() == old(self).spec_max_entries(),
            spec_rank(level) < spec_rank(old(self).spec_min_level()) ==> final(self).spec_entries()
                == old(self).spec_entries(),
            spec_rank(level) >= spec_rank(old(self).spec_min_level()) ==> {
                &&& final(self).spec_entries().len() == (if old(self).spec_entries().len() >= old(
                    self,
                ).spec_max_entries() && old(self).spec_entries().len() > 0 {
                    old(self).spec_entries().len()
                } else {
                    old(self).spec_entries().len() + 1
                })
                &&& final(self).spec_entries().len() > 0
                &&& final(self).spec_entries().last().timestamp == timestamp
                &&& final(self).spec_entries().last().level == level
                &&& final(self).spec_entries().last().message@ == message@
                &&& match (final(self).spec_entries().last().component, component) {
                    (Some(x), Some(y)) => x@ == y@,
                    (None, None) => true,
                    _ => false,
                }
            },
    {
        if level.rank() < self.min_level.rank() {
            return;
        }
        let entry = LogEntry::new(level, message, component, timestamp);
        if self.entries.len() >= self.max_entries && self.entries.len() > 0 {
            self.entries.remove(0);
        }
        self.entries.push(entry);
    }

    /// A copy of the whole history, oldest first.
    pub fn get_entries(&self) -> (r: Vec<LogEntry>)
        ensures
            r@.len() == self.spec_entries().len(),
            forall|i: int| 0 <= i < r@.len() ==> entry_like(r@[i], self.spec_entries()[i]),
    {
        let n = self.entries.len();
        let mut out: Vec<LogEntry> = Vec::new();
        let mut i: usize = 0;
        while i < n
            invariant
                0 <= i <= n,
                n == self.entries@.len(),
                out@.len() == i,
                forall|j: int| 0 <= j < i ==> entry_like(out@[j], self.entries@[j]),
            decreases n - i,
        {
            out.push(self.entries[i].clone());
            i = i + 1;
        }
        out
    }

    /// A copy of the entries at exactly the given level, oldest first.
    pub fn get_entries_by_level(&self, level: LogLevel) -> (r: Vec<LogEntry>)
        ensures
            r@.len() == spec_entries_with_level(self.spec_entries(), level).len(),
            forall|i: int|
                0 <= i < r@.len() ==> entry_like(
                    r@[i],
                    spec_entries_with_level(self.spec_entries(), level)[i],
                ),
    {
        let n = self.entries.len();
        let mut out: Vec<LogEntry> = Vec::new();
        let mut i: usize = 0;
        proof {
            lemma_entries_with_level_take(self.entries@, level, 0);
        }
        while i < n
            invariant
                0 <= i <= n,
                n == self.entries@.len(),
                out@.len() == spec_entries_with_level(self.entries@.take(i as int), level).len(),
                forall|j: int|
                    0 <= j < out@.len() ==> entry_like(
                        out@[j],
                        spec_entries_with_level(self.entries@.take(i as int), level)[j],
                    ),
            decreases n - i,
        {
            proof {
                lemma_entries_with_level_take(self.entries@, level, i + 1);
            }
            if self.entries[i].level == level {
                out.push(self.entries[i].clone());
            }
            i = i + 1;
        }
        proof {
            assert(self.entries@.take(n as int) =~= self.entries@);
        }
        out
    }

    /// Drop the whole history.
    pub fn clear(&mut self)
        ensures
            final(self).spec_entries().len() == 0,
            final(self).spec_min_level() == old(self).spec_min_level(),
            final(self).spec_max_entries() == old(self).spec_max_entries(),
    {
        self.entries = Vec::new();
    }
}

/// `spec_entries_with_level` over one more element of the prefix.
proof fn lemma_entries_with_level_take(s: Seq<LogEntry>, l: LogLevel, i: int)
    requires
        0 <= i <= s.len(),
    ensures
        i == 0 ==> spec_entries_with_level(s.take(0), l) =~= Seq::<LogEntry>::empty(),
        i > 0 ==> spec_entries_with_level(s.take(i), l) =~= spec_entries_with_level(
            s.take(i - 1),
            l,
        ) + (if s[i - 1].level == l {
            seq![s[i - 1]]
        } else {
            Seq::<LogEntry>::empty()
        }),
    decreases i,
{
    if i == 0 {
        assert(s.take(0) =~= Seq::<LogEntry>::empty());
    } else {
        lemma_entries_with_level_push(s.take(i - 1), s[i - 1], l);
        assert(s.take(i) =~= s.take(i - 1).push(s[i - 1]));
    }
}

proof fn lemma_entries_with_level_push(s: Seq<LogEntry>, x: LogEntry, l: LogLevel)
    ensures
        spec_entries_with_level(s.push(x), l) =~= spec_entries_with_level(s, l) + (
        if x.level == l {
            seq![x]
        } else {
            Seq::<LogEntry>::empty()
        }),
    decreases s.len(),
{
    if s.len() == 0 {
        assert(s.push(x).drop_first() =~= Seq::<LogEntry>::empty());
        assert(s.push(x)[0] == x);
        assert(spec_entries_with_level(Seq::<LogEntry>::empty(), l) =~= Seq::<LogEntry>::empty());
        if x.level == l {
            assert(spec_entries_with_level(s.push(x), l) =~= seq![x]);
            assert(spec_entries_with_level(s, l) =~= Seq::<LogEntry>::empty());
        } else {
            assert(spec_entries_with_level(s.push(x), l) =~= Seq::<LogEntry>::empty());
        }
    } else {
        lemma_entries_with_level_push(s.drop_first(), x, l);
        assert(s.push(x).drop_first() =~= s.drop_first().push(x));
        assert(s.push(x)[0] == s[0]);
        let tail: Seq<LogEntry> = if x.level == l {
            seq![x]
        } else {
            Seq::empty()
        };
        assert(spec_entries_with_level(s.drop_first().push(x), l) =~= spec_entries_with_level(
            s.drop_first(),
            l,
        ) + tail);
        if s[0].level == l {
            assert(spec_entries_with_level(s.push(x), l) =~= seq![s[0]]
                + spec_entries_with_level(s.drop_first().push(x), l));
            assert(seq![s[0]] + (spec_entries_with_level(s.drop_first(), l) + tail) =~= (seq![
                s[0],
            ] + spec_entries_with_level(s.drop_first(), l)) + tail);
        } else {
            assert(spec_entries_with_level(s.push(x), l) =~= spec_entries_with_level(
                s.drop_first().push(x),
                l,
            ));
        }
    }
}

} // verus!
