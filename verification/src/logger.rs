//! Log lines: a coloured level, the place in the source that logged, then
//! the message.

use vstd::prelude::*;
use vstd::string::StringSliceAdditionalSpecFns;

verus! {

/// How much a log line matters. Later levels matter more.
#[derive(Clone, Copy, Debug, PartialEq, Eq, PartialOrd, Structural)]
pub enum Level {
    Trace,
    Debug,
    Info,
    Warn,
    Error,
}

impl Level {
    /// The place of the level in the order of levels, from 0.
    pub open spec fn spec_severity(self) -> u8 {
        match self {
            Level::Trace => 0,
            Level::Debug => 1,
            Level::Info => 2,
            Level::Warn => 3,
            Level::Error => 4,
        }
    }

    /// The name of the level, five columns wide, behind the escape
    /// sequence that sets its colour.
    pub open spec fn spec_label(self) -> &'static str {
        match self {
            Level::Trace => "\x1b[1mTRACE",
            Level::Debug => "\x1b[1;36mDEBUG",
            Level::Info => "\x1b[1;34mINFO ",
            Level::Warn => "\x1b[1;33mWARN ",
            Level::Error => "\x1b[1;31mERROR",
        }
    }

    /// The place of the level in the order of levels, from 0.
    #[verifier::when_used_as_spec(spec_severity)]
    pub fn severity(self) -> (s: u8)
        ensures
            s == self.spec_severity(),
    {
        match self {
            Level::Trace => 0,
            Level::Debug => 1,
            Level::Info => 2,
            Level::Warn => 3,
            Level::Error => 4,
        }
    }

    /// The name of the level behind the escape sequence that sets its
    /// colour.
    #[verifier::when_used_as_spec(spec_label)]
    pub fn label(self) -> (text: &'static str)
        ensures
            text == self.spec_label(),
    {
        match self {
            Level::Trace => "\x1b[1mTRACE",
            Level::Debug => "\x1b[1;36mDEBUG",
            Level::Info => "\x1b[1;34mINFO ",
            Level::Warn => "\x1b[1;33mWARN ",
            Level::Error => "\x1b[1;31mERROR",
        }
    }
}

/// Where a log line comes from and how much it matters.
#[derive(Clone, Copy, Debug)]
pub struct Record<'a> {
    pub line: u32,
    pub file: &'a str,
    pub level: Level,
}

/// The decimal digits of `n`, as ASCII.
pub open spec fn decimal(n: nat) -> Seq<u8>
    decreases n,
{
    if n < 10 {
        seq![(0x30 + n) as u8]
    } else {
        decimal(n / 10).push((0x30 + n % 10) as u8)
    }
}

/// Appends the decimal digits of `n` to `out`.
pub fn push_decimal(out: &mut Vec<u8>, n: u32)
    ensures
        final(out)@ == old(out)@ + decimal(n as nat),
    decreases n,
{
    if n >= 10 {
        push_decimal(out, n / 10);
    }
    out.push(0x30 + (n % 10) as u8);
    assert(out@ =~= old(out)@ + decimal(n as nat));
}

/// Appends the bytes of `text` to `out`.
pub fn push_str(out: &mut Vec<u8>, text: &str)
    ensures
        final(out)@ == old(out)@ + text.spec_bytes(),
{
    out.extend_from_slice(text.as_bytes());
    assert(out@ =~= old(out)@ + text.spec_bytes());
}

/// The bytes of a log line: the label of the level, the place in the
/// source between square brackets, the message, and a line feed. The
/// escape sequences set the colour for the label, make the place bold, and
/// go back to plain text for the message.
pub open spec fn log_line(message: Seq<u8>, record: Record) -> Seq<u8> {
    record.level.spec_label().spec_bytes() + "\x1b[1;39m".spec_bytes() + " [".spec_bytes()
        + record.file.spec_bytes() + ":".spec_bytes() + decimal(record.line as nat)
        + "] ".spec_bytes() + "\x1b[0m".spec_bytes() + message + "\n".spec_bytes()
}

/// Makes the log line for `message`.
pub fn _log(message: &str, record: Record) -> (line: Vec<u8>)
    ensures
        line@ == log_line(message.spec_bytes(), record),
{
    let mut line: Vec<u8> = Vec::new();
    push_str(&mut line, record.level.label());
    push_str(&mut line, "\x1b[1;39m");
    push_str(&mut line, " [");
    push_str(&mut line, record.file);
    push_str(&mut line, ":");
    push_decimal(&mut line, record.line);
    push_str(&mut line, "] ");
    push_str(&mut line, "\x1b[0m");
    push_str(&mut line, message);
    push_str(&mut line, "\n");
    assert(line@ =~= log_line(message.spec_bytes(), record));
    line
}

} // verus!
