//! Log entries: what the pipeline tells about its progress.

use vstd::prelude::*;
use crate::text::{chars_of, string_of, append_chars};

verus! {

/// How serious an entry is.
#[derive(Debug, Clone, Copy, PartialEq, Eq, Structural)]
pub enum LogLevel {
    Info,
    Success,
    Warning,
    Error,
}

/// A single log entry.
#[derive(Debug, PartialEq)]
pub struct LogEntry {
    /// The level.
    pub level: LogLevel,
    /// The message.
    pub message: String,
    /// How deep the entry is nested.
    pub indent: u8,
}

/// What stands before the message of an entry of a level.
pub open spec fn level_prefix(level: LogLevel) -> Seq<char> {
    match level {
        LogLevel::Info => "   "@,
        LogLevel::Success => "   \u{2713}"@,
        LogLevel::Warning => "   \u{26a0}\u{fe0f}"@,
        LogLevel::Error => "   \u{274c}"@,
    }
}

/// `n` times the text `s`.
pub open spec fn repeated(s: Seq<char>, n: nat) -> Seq<char>
    decreases n,
{
    if n == 0 {
        Seq::empty()
    } else {
        repeated(s, (n - 1) as nat) + s
    }
}

/// The line that an entry prints as: three spaces for each level of
/// nesting, the prefix of its level, a space, the message.
pub open spec fn entry_line(level: LogLevel, message: Seq<char>, indent: nat) -> Seq<char> {
    repeated("   "@, indent) + level_prefix(level) + seq![' '] + message
}

impl LogEntry {
    /// An entry that informs.
    pub fn info(message: &str) -> (r: Self)
        ensures
            r.level == LogLevel::Info,
            r.message@ == message@,
            r.indent == 0,
    {
        LogEntry { level: LogLevel::Info, message: message.to_string(), indent: 0 }
    }

    /// An entry that tells of a success.
    pub fn success(message: &str) -> (r: Self)
        ensures
            r.level == LogLevel::Success,
            r.message@ == message@,
            r.indent == 0,
    {
        LogEntry { level: LogLevel::Success, message: message.to_string(), indent: 0 }
    }

    /// An entry that warns.
    pub fn warning(message: &str) -> (r: Self)
        ensures
            r.level == LogLevel::Warning,
            r.message@ == message@,
            r.indent == 0,
    {
        LogEntry { level: LogLevel::Warning, message: message.to_string(), indent: 0 }
    }

    /// An entry that tells of an error.
    pub fn error(message: &str) -> (r: Self)
        ensures
            r.level == LogLevel::Error,
            r.message@ == message@,
            r.indent == 0,
    {
        LogEntry { level: LogLevel::Error, message: message.to_string(), indent: 0 }
    }

    /// The entry, nested so deep.
    pub fn with_indent(self, indent: u8) -> (r: Self)
        ensures
            r.level == self.level,
            r.message@ == self.message@,
            r.indent == indent,
    {
        let mut r = self;
        r.indent = indent;
        r
    }

    /// The line that the entry prints as.
    pub fn line(&self) -> (r: String)
        ensures
            r@ == entry_line(self.level, self.message@, self.indent as nat),
    {
        let pad = chars_of("   ");
        let mut out: Vec<char> = Vec::new();
        let mut i: u8 = 0;
        assert(out@ =~= repeated("   "@, 0));
        while i < self.indent
            invariant
                i <= self.indent,
                pad@ == "   "@,
                out@ == repeated("   "@, i as nat),
            decreases self.indent - i,
        {
            append_chars(&mut out, &pad);
            i += 1;
        }
        let prefix = match self.level {
            LogLevel::Info => "   ",
            LogLevel::Success => "   \u{2713}",
            LogLevel::Warning => "   \u{26a0}\u{fe0f}",
            LogLevel::Error => "   \u{274c}",
        };
        append_chars(&mut out, &chars_of(prefix));
        out.push(' ');
        append_chars(&mut out, &chars_of(self.message.as_str()));
        assert(out@ =~= entry_line(self.level, self.message@, self.indent as nat));
        string_of(&out)
    }
}

impl Clone for LogEntry {
    fn clone(&self) -> (r: Self)
        ensures
            r.level == self.level,
            r.message@ == self.message@,
            r.indent == self.indent,
    {
        LogEntry { level: self.level, message: self.message.clone(), indent: self.indent }
    }
}

} // verus!
