//! Severity of log records, and which sink a record reaches.

use vstd::prelude::*;

verus! {

/// Severity of a log record, from the most to the least severe.
#[derive(Debug, Clone, Copy, PartialEq, Eq, Structural)]
pub enum Level {
    Error,
    Warn,
    Info,
    Debug,
    Trace,
}

/// Threshold of a sink: the least severe level that passes, or none.
#[derive(Debug, Clone, Copy, PartialEq, Eq, Structural)]
pub enum LevelFilter {
    Off,
    Error,
    Warn,
    Info,
    Debug,
    Trace,
}

/// Rank of a level: 1 for the most severe, 5 for the least severe.
pub open spec fn level_rank(l: Level) -> nat {
    match l {
        Level::Error => 1,
        Level::Warn => 2,
        Level::Info => 3,
        Level::Debug => 4,
        Level::Trace => 5,
    }
}

/// Rank of a filter: a level passes where its rank is not above it.
pub open spec fn filter_rank(f: LevelFilter) -> nat {
    match f {
        LevelFilter::Off => 0,
        LevelFilter::Error => 1,
        LevelFilter::Warn => 2,
        LevelFilter::Info => 3,
        LevelFilter::Debug => 4,
        LevelFilter::Trace => 5,
    }
}

pub open spec fn passes_spec(l: Level, f: LevelFilter) -> bool {
    level_rank(l) <= filter_rank(f)
}

impl Level {
    fn rank(self) -> (r: u8)
        ensures
            r as nat == level_rank(self),
    {
        match self {
            Level::Error => 1,
            Level::Warn => 2,
            Level::Info => 3,
            Level::Debug => 4,
            Level::Trace => 5,
        }
    }

    /// Whether a record of this level passes the threshold `filter`.
    pub fn passes(self, filter: LevelFilter) -> (r: bool)
        ensures
            r == passes_spec(self, filter),
    {
        self.rank() <= filter.rank()
    }

    /// Upper-case name of the level, as it stands in log lines.
    pub fn name(self) -> (r: &'static str)
        ensures
            r@ == level_name(self),
    {
        proof {
            reveal_strlit("ERROR");
            reveal_strlit("WARN");
            reveal_strlit("INFO");
            reveal_strlit("DEBUG");
            reveal_strlit("TRACE");
        }
        match self {
            Level::Error => "ERROR",
            Level::Warn => "WARN",
            Level::Info => "INFO",
            Level::Debug => "DEBUG",
            Level::Trace => "TRACE",
        }
    }
}

pub open spec fn level_name(l: Level) -> Seq<char> {
    match l {
        Level::Error => seq!['E', 'R', 'R', 'O', 'R'],
        Level::Warn => seq!['W', 'A', 'R', 'N'],
        Level::Info => seq!['I', 'N', 'F', 'O'],
        Level::Debug => seq!['D', 'E', 'B', 'U', 'G'],
        Level::Trace => seq!['T', 'R', 'A', 'C', 'E'],
    }
}

impl LevelFilter {
    fn rank(self) -> (r: u8)
        ensures
            r as nat == filter_rank(self),
    {
        match self {
            LevelFilter::Off => 0,
            LevelFilter::Error => 1,
            LevelFilter::Warn => 2,
            LevelFilter::Info => 3,
            LevelFilter::Debug => 4,
            LevelFilter::Trace => 5,
        }
    }
}

/// Console stream that a record is written to.
#[derive(Debug, Clone, Copy, PartialEq, Eq, Structural)]
pub enum ConsoleStream {
    Stdout,
    Stderr,
}

/// Errors go to the standard error stream, all less severe records to the
/// standard output stream.
pub fn console_stream(level: Level) -> (r: ConsoleStream)
    ensures
        r == (if level == Level::Error { ConsoleStream::Stderr } else { ConsoleStream::Stdout }),
{
    match level {
        Level::Error => ConsoleStream::Stderr,
        _ => ConsoleStream::Stdout,
    }
}

/// A line of the log file: `[{datetime}] [{target}/{level}] {message}`.
pub open spec fn file_line_spec(datetime: Seq<char>, target: Seq<char>, level: Level, message: Seq<char>) -> Seq<char> {
    seq!['['] + datetime + seq![']', ' ', '['] + target + seq!['/'] + level_name(level) + seq![']', ' '] + message
}

/// Writes a line of the log file.
pub fn file_line(datetime: &str, target: &str, level: Level, message: &str) -> (r: String)
    ensures
        r@ == file_line_spec(datetime@, target@, level, message@),
{
    proof {
        reveal_strlit("[");
        reveal_strlit("] [");
        reveal_strlit("/");
        reveal_strlit("] ");
    }
    let mut out = String::from_str("[");
    out.append(datetime);
    out.append("] [");
    out.append(target);
    out.append("/");
    out.append(level.name());
    out.append("] ");
    out.append(message);
    assert(out@ =~= file_line_spec(datetime@, target@, level, message@));
    out
}

pub open spec fn escape() -> char {
    '\x1B'
}

/// A line of the console: `[{time}] ESC[{color}m[{target}/{level}] {message}ESC[0m`,
/// where ESC is the escape character and `color` the code of the color of
/// the level.
pub open spec fn console_line_spec(time: Seq<char>, color: Seq<char>, target: Seq<char>, level: Level, message: Seq<char>) -> Seq<char> {
    seq!['['] + time + seq![']', ' ', escape(), '['] + color + seq!['m', '['] + target + seq!['/'] + level_name(level)
        + seq![']', ' '] + message + seq![escape(), '[', '0', 'm']
}

/// Writes a line of the console.
pub fn console_line(time: &str, color: &str, target: &str, level: Level, message: &str) -> (r: String)
    ensures
        r@ == console_line_spec(time@, color@, target@, level, message@),
{
    proof {
        reveal_strlit("[");
        reveal_strlit("] \x1B[");
        reveal_strlit("m[");
        reveal_strlit("/");
        reveal_strlit("] ");
        reveal_strlit("\x1B[0m");
    }
    let mut out = String::from_str("[");
    out.append(time);
    out.append("] \x1B[");
    out.append(color);
    out.append("m[");
    out.append(target);
    out.append("/");
    out.append(level.name());
    out.append("] ");
    out.append(message);
    out.append("\x1B[0m");
    assert(out@ =~= console_line_spec(time@, color@, target@, level, message@));
    out
}

} // verus!
