//! The lines the daemon logger writes.
use vstd::prelude::*;

use crate::text;

verus! {

#[derive(Debug, Clone, Copy, PartialEq, Eq, Structural)]
pub enum LogLevel {
    Info,
    Warn,
    Error,
}

pub open spec fn level_name(level: LogLevel) -> Seq<char> {
    match level {
        LogLevel::Info => "INFO"@,
        LogLevel::Warn => "WARN"@,
        LogLevel::Error => "ERROR"@,
    }
}

fn level_text(level: LogLevel) -> (r: &'static str)
    ensures
        r@ == level_name(level),
{
    match level {
        LogLevel::Info => "INFO",
        LogLevel::Warn => "WARN",
        LogLevel::Error => "ERROR",
    }
}

/// `[LEVEL] message`, as printed to standard error.
pub fn console_line(level: LogLevel, message: &str) -> (r: String)
    ensures
        r@ == "["@ + level_name(level) + "] "@ + message@,
{
    let mut r = String::from_str("[");
    r.append(level_text(level));
    r.append("] ");
    r.append(message);
    r
}

/// `[seconds][LEVEL] message`, as appended to the log file.
pub fn file_line(timestamp_secs: u64, level: LogLevel, message: &str) -> (r: String)
    ensures
        r@ == "["@ + text::decimal(timestamp_secs as nat) + "]["@ + level_name(level) + "] "@
            + message@,
{
    let mut v = text::chars_of("[");
    let d = text::decimal_chars(timestamp_secs);
    text::extend_chars(&mut v, &d);
    text::extend_str(&mut v, "][");
    text::extend_str(&mut v, level_text(level));
    text::extend_str(&mut v, "] ");
    text::extend_str(&mut v, message);
    text::string_of(&v)
}

} // verus!
