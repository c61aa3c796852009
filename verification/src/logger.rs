//! How the application's own log lines look.
use vstd::prelude::*;

verus! {

/// The severity of a log record.
#[derive(Clone, Copy, Debug, PartialEq, Eq, Structural)]
pub enum LogLevel {
    Error,
    Warn,
    Info,
    Debug,
    Trace,
}

/// The level as shown on a terminal: its name in bold and in its colour
/// (red, yellow, green, cyan, magenta), warnings spelled out as `WARNING`.
pub open spec fn colored_level_text(level: LogLevel) -> Seq<char> {
    match level {
        LogLevel::Error => "\x1b[31;1mERROR\x1b[0m"@,
        LogLevel::Warn => "\x1b[33;1mWARNING\x1b[0m"@,
        LogLevel::Info => "\x1b[32;1mINFO\x1b[0m"@,
        LogLevel::Debug => "\x1b[36;1mDEBUG\x1b[0m"@,
        LogLevel::Trace => "\x1b[35;1mTRACE\x1b[0m"@,
    }
}

/// The level as written to the log file.
pub open spec fn level_name_text(level: LogLevel) -> Seq<char> {
    match level {
        LogLevel::Error => "ERROR"@,
        LogLevel::Warn => "WARN"@,
        LogLevel::Info => "INFO"@,
        LogLevel::Debug => "DEBUG"@,
        LogLevel::Trace => "TRACE"@,
    }
}

/// The coloured terminal label of a level.
pub fn colored_level(level: LogLevel) -> (res: &'static str)
    ensures
        res@ == colored_level_text(level),
{
    match level {
        LogLevel::Error => "\x1b[31;1mERROR\x1b[0m",
        LogLevel::Warn => "\x1b[33;1mWARNING\x1b[0m",
        LogLevel::Info => "\x1b[32;1mINFO\x1b[0m",
        LogLevel::Debug => "\x1b[36;1mDEBUG\x1b[0m",
        LogLevel::Trace => "\x1b[35;1mTRACE\x1b[0m",
    }
}

/// The plain name of a level.
pub fn level_name(level: LogLevel) -> (res: &'static str)
    ensures
        res@ == level_name_text(level),
{
    match level {
        LogLevel::Error => "ERROR",
        LogLevel::Warn => "WARN",
        LogLevel::Info => "INFO",
        LogLevel::Debug => "DEBUG",
        LogLevel::Trace => "TRACE",
    }
}

/// A terminal line: time, target and coloured level in grey, then the message.
pub open spec fn console_line_text(
    time: Seq<char>,
    target: Seq<char>,
    level: LogLevel,
    message: Seq<char>,
) -> Seq<char> {
    "\x1b[38;20m"@ + time + " - "@ + target + " - "@ + colored_level_text(level) + "\x1b[0m - "@
        + message
}

/// A log file line: time, target, level and message separated by ` - `.
pub open spec fn file_line_text(
    time: Seq<char>,
    target: Seq<char>,
    level: LogLevel,
    message: Seq<char>,
) -> Seq<char> {
    time + " - "@ + target + " - "@ + level_name_text(level) + " - "@ + message
}

/// Formats a record for the terminal.
pub fn console_line(time: &str, target: &str, level: LogLevel, message: &str) -> (res: String)
    ensures
        res@ == console_line_text(time@, target@, level, message@),
{
    let mut res = String::from_str("\x1b[38;20m");
    res.append(time);
    res.append(" - ");
    res.append(target);
    res.append(" - ");
    res.append(colored_level(level));
    res.append("\x1b[0m - ");
    res.append(message);
    res
}

/// Formats a record for the log file.
pub fn file_line(time: &str, target: &str, level: LogLevel, message: &str) -> (res: String)
    ensures
        res@ == file_line_text(time@, target@, level, message@),
{
    let mut res = String::from_str(time);
    res.append(" - ");
    res.append(target);
    res.append(" - ");
    res.append(level_name(level));
    res.append(" - ");
    res.append(message);
    res
}

} // verus!
