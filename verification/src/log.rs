//! The kernel log: messages at or above the logger's level are formatted
//! for the console and kept in a bounded buffer. Writing to the serial
//! port is left to the embedding code.

use vstd::prelude::*;
use vstd::string::*;

verus! {

/// Severity of a message, from least to most severe.
#[derive(Clone, Copy, PartialEq, Eq, Structural, Debug)]
pub enum LogLevel {
    Trace,
    Debug,
    Info,
    Warn,
    Error,
    Fatal,
}

/// The rank of a level, 0 for trace to 5 for fatal.
pub open spec fn level_rank(l: LogLevel) -> int {
    match l {
        LogLevel::Trace => 0,
        LogLevel::Debug => 1,
        LogLevel::Info => 2,
        LogLevel::Warn => 3,
        LogLevel::Error => 4,
        LogLevel::Fatal => 5,
    }
}

/// The rank of `level`; see [`level_rank`].
pub fn rank(level: LogLevel) -> (r: u8)
    ensures
        r == level_rank(level),
{
    match level {
        LogLevel::Trace => 0,
        LogLevel::Debug => 1,
        LogLevel::Info => 2,
        LogLevel::Warn => 3,
        LogLevel::Error => 4,
        LogLevel::Fatal => 5,
    }
}

/// The name a level is printed with.
pub open spec fn level_name(l: LogLevel) -> Seq<char> {
    match l {
        LogLevel::Trace => seq!['T', 'R', 'A', 'C', 'E'],
        LogLevel::Debug => seq!['D', 'E', 'B', 'U', 'G'],
        LogLevel::Info => seq!['I', 'N', 'F', 'O'],
        LogLevel::Warn => seq!['W', 'A', 'R', 'N'],
        LogLevel::Error => seq!['E', 'R', 'R', 'O', 'R'],
        LogLevel::Fatal => seq!['F', 'A', 'T', 'A', 'L'],
    }
}

/// The console line of a message: the level in brackets, a space, the
/// message and a line break.
pub open spec fn formatted(l: LogLevel, message: Seq<char>) -> Seq<char> {
    seq!['['] + level_name(l) + seq![']', ' '] + message + seq!['\n']
}

fn level_str(level: LogLevel) -> (s: &'static str)
    ensures
        s@ == level_name(level),
{
    match level {
        LogLevel::Trace => {
            proof {
                reveal_strlit("TRACE");
            }
            "TRACE"
        },
        LogLevel::Debug => {
            proof {
                reveal_strlit("DEBUG");
            }
            "DEBUG"
        },
        LogLevel::Info => {
            proof {
                reveal_strlit("INFO");
            }
            "INFO"
        },
        LogLevel::Warn => {
            proof {
                reveal_strlit("WARN");
            }
            "WARN"
        },
        LogLevel::Error => {
            proof {
                reveal_strlit("ERROR");
            }
            "ERROR"
        },
        LogLevel::Fatal => {
            proof {
                reveal_strlit("FATAL");
            }
            "FATAL"
        },
    }
}

/// The console line of `message` at `level`; see [`formatted`].
pub fn format_message(level: LogLevel, message: &str) -> (s: String)
    ensures
        s@ == formatted(level, message@),
{
    let mut s = String::from_str("[");
    s.append(level_str(level));
    s.append("] ");
    s.append(message);
    s.append("\n");
    proof {
        reveal_strlit("[");
        reveal_strlit("] ");
        reveal_strlit("\n");
        assert(s@ =~= formatted(level, message@));
    }
    s
}

/// A kept message.
pub struct LogEntry {
    pub level: LogLevel,
    pub message: String,
    pub timestamp: u64,
}

/// A kept message as plain values.
pub open spec fn entry_view(e: LogEntry) -> (LogLevel, Seq<char>, u64) {
    (e.level, e.message@, e.timestamp)
}

/// The kernel logger.
pub struct Logger {
    level: LogLevel,
    entries: Vec<LogEntry>,
    max_entries: usize,
}

impl Logger {
    /// The least severe level that is logged.
    pub closed spec fn level(&self) -> LogLevel {
        self.level
    }

    /// How many messages are kept.
    pub closed spec fn max_entries(&self) -> usize {
        self.max_entries
    }

    /// The kept messages, oldest first.
    pub closed spec fn entries(&self) -> Seq<(LogLevel, Seq<char>, u64)> {
        self.entries@.map_values(|e: LogEntry| entry_view(e))
    }

    /// The logger keeps no more messages than it may.
    pub open spec fn within_capacity(&self) -> bool {
        self.entries().len() <= self.max_entries()
    }
}

/// Sets up the logger at `level`, keeping `max_entries` messages.
pub fn init(logger: &mut Option<Logger>, level: LogLevel, max_entries: usize)
    ensures
        (*final(logger)) matches Some(l) && l.level() == level && l.max_entries() == max_entries
            && l.entries().len() == 0 && l.within_capacity(),
{
    let l = Logger { level, entries: Vec::new(), max_entries };
    proof {
        assert(l.entries() =~= Seq::<(LogLevel, Seq<char>, u64)>::empty());
    }
    *logger = Some(l);
}

/// The buffer after `e` is kept: the oldest goes first when it is full.
pub open spec fn kept(entries: Seq<(LogLevel, Seq<char>, u64)>, max: int, e: (LogLevel, Seq<char>, u64)) -> Seq<
    (LogLevel, Seq<char>, u64),
> {
    if entries.len() >= max {
        entries.drop_first().push(e)
    } else {
        entries.push(e)
    }
}

/// Logs `message` at `level` at time `now`: with a logger set up and the
/// level at or above its level, the message is kept and its console line
/// returned; otherwise nothing happens.
pub fn log(logger: &mut Option<Logger>, level: LogLevel, message: &str, now: u64) -> (line: Option<String>)
    requires
        (*old(logger)) matches Some(l) ==> l.max_entries() > 0,
    ensures
        (*final(logger)) is Some == (*old(logger)) is Some,
        (*old(logger)) matches Some(l) && l.within_capacity() ==> (*final(logger))->0.within_capacity(),
        match *old(logger) {
            None => line is None,
            Some(l) => if level_rank(level) >= level_rank(l.level()) {
                let l1 = (*final(logger))->0;
                &&& line matches Some(s) && s@ == formatted(level, message@)
                &&& l1.level() == l.level()
                &&& l1.max_entries() == l.max_entries()
                &&& l1.entries() == kept(l.entries(), l.max_entries() as int, (level, message@, now))
            } else {
                line is None && *final(logger) == *old(logger)
            },
        },
{
    match logger {
        None => None,
        Some(l) => {
            if rank(level) >= rank(l.level) {
                let out = format_message(level, message);
                let ghost before = l.entries();
                if l.entries.len() >= l.max_entries {
                    l.entries.remove(0);
                    proof {
                        assert(l.entries() =~= before.drop_first());
                    }
                }
                let ghost mid = l.entries();
                let entry = LogEntry { level, message: String::from_str(message), timestamp: now };
                let ghost v = entry_view(entry);
                l.entries.push(entry);
                proof {
                    assert(l.entries() =~= mid.push(v));
                }
                Some(out)
            } else {
                None
            }
        },
    }
}

/// Logs that no stack trace can be printed.
pub fn print_stack_trace(logger: &mut Option<Logger>, now: u64) -> (line: Option<String>)
    requires
        (*old(logger)) matches Some(l) ==> l.max_entries() > 0,
    ensures
        (*final(logger)) is Some == (*old(logger)) is Some,
        match *old(logger) {
            None => line is None,
            Some(l) => if level_rank(LogLevel::Error) >= level_rank(l.level()) {
                let msg = "Stack trace not yet implemented"@;
                &&& line matches Some(s) && s@ == formatted(LogLevel::Error, msg)
                &&& (*final(logger))->0.entries() == kept(
                    l.entries(),
                    l.max_entries() as int,
                    (LogLevel::Error, msg, now),
                )
            } else {
                line is None && *final(logger) == *old(logger)
            },
        },
{
    log(logger, LogLevel::Error, "Stack trace not yet implemented", now)
}

/// The log never holds more entries than its capacity, and the newest
/// entry is always the one just logged.
pub proof fn law_log_stays_within_capacity(
    entries: Seq<(LogLevel, Seq<char>, u64)>,
    max: int,
    e: (LogLevel, Seq<char>, u64),
)
    requires
        max > 0,
        entries.len() <= max,
    ensures
        kept(entries, max, e).len() <= max,
        kept(entries, max, e).last() == e,
{
}

} // verus!
