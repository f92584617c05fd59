//! Logging configuration: the level filter and output format chosen at
//! startup.
use vstd::prelude::*;

use crate::text::{append_chars, chars_of, string_of};

verus! {

/// How much is logged, from nothing to everything.
#[derive(Debug, Clone, Copy, PartialEq, Eq, Structural)]
pub enum LevelFilter {
    Off,
    Error,
    Warn,
    Info,
    Debug,
    Trace,
}

/// Logging configuration.
#[derive(Debug, Clone, Copy, PartialEq, Eq, Structural)]
pub struct LogConfig {
    /// The level filter.
    pub level: LevelFilter,
    /// Whether to log in JSON.
    pub json_format: bool,
}

impl LogConfig {
    /// A configuration at `level`, in plain text.
    pub fn new(level: LevelFilter) -> (r: Self)
        ensures
            r.level == level,
            !r.json_format,
    {
        LogConfig { level, json_format: false }
    }

    /// The same configuration with JSON output switched on or off.
    pub fn with_json(self, json: bool) -> (r: Self)
        ensures
            r.level == self.level,
            r.json_format == json,
    {
        LogConfig { json_format: json, ..self }
    }
}

impl Default for LogConfig {
    fn default() -> (r: Self)
        ensures
            r.level == LevelFilter::Info,
            !r.json_format,
    {
        LogConfig { level: LevelFilter::Info, json_format: false }
    }
}

/// A level name that is not one of `off`, `error`, `warn`, `info`, `debug`,
/// `trace`.
#[derive(Debug, Clone)]
pub struct InvalidLevel {
    pub given: String,
}

impl InvalidLevel {
    /// `Invalid log level '<given>'. Must be one of: off, error, warn, info,
    /// debug, trace`.
    pub fn message(&self) -> (r: String)
        ensures
            r@ == "Invalid log level '"@ + self.given@
                + "'. Must be one of: off, error, warn, info, debug, trace"@,
    {
        let mut v = chars_of("Invalid log level '");
        let g = chars_of(self.given.as_str());
        append_chars(&mut v, g.as_slice());
        let tail = chars_of("'. Must be one of: off, error, warn, info, debug, trace");
        append_chars(&mut v, tail.as_slice());
        string_of(v.as_slice())
    }
}

/// The ASCII lower-case form of a character.
pub open spec fn ascii_lower(c: char) -> char {
    if 'A' <= c <= 'Z' {
        ((c as u32) + 32) as char
    } else {
        c
    }
}

/// Whether `s` reads as the lower-case word `w` once lower-cased.
pub open spec fn lower_eq(s: Seq<char>, w: Seq<char>) -> bool {
    s.len() == w.len() && forall|i: int| 0 <= i < s.len() ==> ascii_lower(#[trigger] s[i]) == w[i]
}

pub open spec fn level_words() -> Seq<(Seq<char>, LevelFilter)> {
    seq![
        (seq!['o', 'f', 'f'], LevelFilter::Off),
        (seq!['e', 'r', 'r', 'o', 'r'], LevelFilter::Error),
        (seq!['w', 'a', 'r', 'n'], LevelFilter::Warn),
        (seq!['i', 'n', 'f', 'o'], LevelFilter::Info),
        (seq!['d', 'e', 'b', 'u', 'g'], LevelFilter::Debug),
        (seq!['t', 'r', 'a', 'c', 'e'], LevelFilter::Trace),
    ]
}

/// The level named by `s`, in any letter case.
pub open spec fn level_spec(s: Seq<char>) -> Option<LevelFilter> {
    if lower_eq(s, level_words()[0].0) {
        Some(LevelFilter::Off)
    } else if lower_eq(s, level_words()[1].0) {
        Some(LevelFilter::Error)
    } else if lower_eq(s, level_words()[2].0) {
        Some(LevelFilter::Warn)
    } else if lower_eq(s, level_words()[3].0) {
        Some(LevelFilter::Info)
    } else if lower_eq(s, level_words()[4].0) {
        Some(LevelFilter::Debug)
    } else if lower_eq(s, level_words()[5].0) {
        Some(LevelFilter::Trace)
    } else {
        None
    }
}

fn lower_char(c: char) -> (r: char)
    ensures
        r == ascii_lower(c),
{
    if 'A' <= c && c <= 'Z' {
        let n = ((c as u32) + 32) as u8;
        n as char
    } else {
        c
    }
}

fn matches_word(s: &[char], w: &[char]) -> (r: bool)
    ensures
        r == lower_eq(s@, w@),
{
    if s.len() != w.len() {
        return false;
    }
    let mut i: usize = 0;
    while i < s.len()
        invariant
            i <= s@.len(),
            s@.len() == w@.len(),
            forall|k: int| 0 <= k < i ==> ascii_lower(#[trigger] s@[k]) == w@[k],
        decreases s.len() - i,
    {
        if lower_char(s[i]) != w[i] {
            return false;
        }
        i = i + 1;
    }
    true
}

/// Parses a level name (`off`, `error`, `warn`, `info`, `debug`, `trace`) in
/// any letter case.
///
/// The names are compared after ASCII lower-casing. Of the characters that
/// full Unicode lower-casing turns into ASCII letters, only the Kelvin sign
/// (into `k`) does so one for one, and no level name holds a `k`: the two
/// agree on every input.
pub fn parse_level(level_str: &str) -> (r: Result<LevelFilter, InvalidLevel>)
    ensures
        match level_spec(level_str@) {
            Some(l) => r matches Ok(x) && x == l,
            None => r matches Err(e) && e.given@ == level_str@,
        },
{
    let s = chars_of(level_str);
    let words = [
        chars_of("off"),
        chars_of("error"),
        chars_of("warn"),
        chars_of("info"),
        chars_of("debug"),
        chars_of("trace"),
    ];
    proof {
        reveal_strlit("off");
        reveal_strlit("error");
        reveal_strlit("warn");
        reveal_strlit("info");
        reveal_strlit("debug");
        reveal_strlit("trace");
    }
    assert(words@[0]@ =~= level_words()[0].0);
    assert(words@[1]@ =~= level_words()[1].0);
    assert(words@[2]@ =~= level_words()[2].0);
    assert(words@[3]@ =~= level_words()[3].0);
    assert(words@[4]@ =~= level_words()[4].0);
    assert(words@[5]@ =~= level_words()[5].0);
    if matches_word(s.as_slice(), words[0].as_slice()) {
        Ok(LevelFilter::Off)
    } else if matches_word(s.as_slice(), words[1].as_slice()) {
        Ok(LevelFilter::Error)
    } else if matches_word(s.as_slice(), words[2].as_slice()) {
        Ok(LevelFilter::Warn)
    } else if matches_word(s.as_slice(), words[3].as_slice()) {
        Ok(LevelFilter::Info)
    } else if matches_word(s.as_slice(), words[4].as_slice()) {
        Ok(LevelFilter::Debug)
    } else if matches_word(s.as_slice(), words[5].as_slice()) {
        Ok(LevelFilter::Trace)
    } else {
        Err(InvalidLevel { given: string_of(s.as_slice()) })
    }
}

} // verus!
