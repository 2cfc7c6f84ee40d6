//! Normalized log severity levels.
//!
//! Backends report severity as free text ("error", "WARNING"), as a numeric
//! severity in 1..=24, or as an enum; everything is normalized to one of the
//! six levels below before it reaches the rest of the engine.

use vstd::prelude::*;

verus! {

/// One of the six normalized log levels.
#[derive(Clone, Copy, Debug, PartialEq, Eq, Structural)]
pub enum Level {
    Trace,
    Debug,
    Info,
    Warn,
    Error,
    Fatal,
}

impl Level {
    /// The canonical upper-case name of this level.
    pub open spec fn spec_name(self) -> Seq<char> {
        match self {
            Level::Trace => "TRACE"@,
            Level::Debug => "DEBUG"@,
            Level::Info => "INFO"@,
            Level::Warn => "WARN"@,
            Level::Error => "ERROR"@,
            Level::Fatal => "FATAL"@,
        }
    }

    /// Returns the canonical upper-case name of this level.
    pub fn name(self) -> (r: &'static str)
        ensures
            r@ == self.spec_name(),
    {
        match self {
            Level::Trace => "TRACE",
            Level::Debug => "DEBUG",
            Level::Info => "INFO",
            Level::Warn => "WARN",
            Level::Error => "ERROR",
            Level::Fatal => "FATAL",
        }
    }
}

/// Upper-cases an ASCII letter; any other character is unchanged.
pub open spec fn spec_upper(c: char) -> char {
    match c {
        'a' => 'A',
        'b' => 'B',
        'c' => 'C',
        'd' => 'D',
        'e' => 'E',
        'f' => 'F',
        'g' => 'G',
        'h' => 'H',
        'i' => 'I',
        'j' => 'J',
        'k' => 'K',
        'l' => 'L',
        'm' => 'M',
        'n' => 'N',
        'o' => 'O',
        'p' => 'P',
        'q' => 'Q',
        'r' => 'R',
        's' => 'S',
        't' => 'T',
        'u' => 'U',
        'v' => 'V',
        'w' => 'W',
        'x' => 'X',
        'y' => 'Y',
        'z' => 'Z',
        _ => c,
    }
}

/// The ASCII upper-casing of a whole character sequence.
pub open spec fn spec_upper_seq(s: Seq<char>) -> Seq<char> {
    s.map(|_i: int, c: char| spec_upper(c))
}

/// Upper-cases an ASCII letter; any other character is unchanged.
pub fn upper_char(c: char) -> (r: char)
    ensures
        r == spec_upper(c),
{
    match c {
        'a' => 'A',
        'b' => 'B',
        'c' => 'C',
        'd' => 'D',
        'e' => 'E',
        'f' => 'F',
        'g' => 'G',
        'h' => 'H',
        'i' => 'I',
        'j' => 'J',
        'k' => 'K',
        'l' => 'L',
        'm' => 'M',
        'n' => 'N',
        'o' => 'O',
        'p' => 'P',
        'q' => 'Q',
        'r' => 'R',
        's' => 'S',
        't' => 'T',
        'u' => 'U',
        'v' => 'V',
        'w' => 'W',
        'x' => 'X',
        'y' => 'Y',
        'z' => 'Z',
        _ => c,
    }
}

/// Lower-cases an ASCII letter; any other character is unchanged.
pub open spec fn spec_lower(c: char) -> char {
    match c {
        'A' => 'a',
        'B' => 'b',
        'C' => 'c',
        'D' => 'd',
        'E' => 'e',
        'F' => 'f',
        'G' => 'g',
        'H' => 'h',
        'I' => 'i',
        'J' => 'j',
        'K' => 'k',
        'L' => 'l',
        'M' => 'm',
        'N' => 'n',
        'O' => 'o',
        'P' => 'p',
        'Q' => 'q',
        'R' => 'r',
        'S' => 's',
        'T' => 't',
        'U' => 'u',
        'V' => 'v',
        'W' => 'w',
        'X' => 'x',
        'Y' => 'y',
        'Z' => 'z',
        _ => c,
    }
}

/// The ASCII lower-casing of a whole character sequence.
pub open spec fn spec_lower_seq(s: Seq<char>) -> Seq<char> {
    s.map(|_i: int, c: char| spec_lower(c))
}

fn lower_char(c: char) -> (r: char)
    ensures
        r == spec_lower(c),
{
    match c {
        'A' => 'a',
        'B' => 'b',
        'C' => 'c',
        'D' => 'd',
        'E' => 'e',
        'F' => 'f',
        'G' => 'g',
        'H' => 'h',
        'I' => 'i',
        'J' => 'j',
        'K' => 'k',
        'L' => 'l',
        'M' => 'm',
        'N' => 'n',
        'O' => 'o',
        'P' => 'p',
        'Q' => 'q',
        'R' => 'r',
        'S' => 's',
        'T' => 't',
        'U' => 'u',
        'V' => 'v',
        'W' => 'w',
        'X' => 'x',
        'Y' => 'y',
        'Z' => 'z',
        _ => c,
    }
}

/// ASCII-lower-cases a string.
pub fn lower_ascii(s: &str) -> (r: String)
    ensures
        r@ == spec_lower_seq(s@),
{
    let cs = crate::text::chars_of(s);
    let mut out = String::new();
    let mut i: usize = 0;
    while i < cs.len()
        invariant
            0 <= i <= cs@.len(),
            cs@ == s@,
            out@ =~= spec_lower_seq(s@).subrange(0, i as int),
        decreases cs@.len() - i,
    {
        crate::text::push_char(&mut out, lower_char(cs[i]));
        assert(out@ =~= spec_lower_seq(s@).subrange(0, i + 1));
        i = i + 1;
    }
    assert(out@ =~= spec_lower_seq(s@));
    out
}

/// True when `s` equals `t` after ASCII-upper-casing `s`.
pub open spec fn spec_eq_upper(s: Seq<char>, t: Seq<char>) -> bool {
    spec_upper_seq(s) == t
}

/// Compares `s`, ASCII-upper-cased, with the literal `t`.
pub fn eq_ignore_case(s: &str, t: &str) -> (r: bool)
    ensures
        r == spec_eq_upper(s@, t@),
{
    let n = s.unicode_len();
    let m = t.unicode_len();
    if n != m {
        assert(spec_upper_seq(s@).len() == s@.len());
        return false;
    }
    let mut i: usize = 0;
    while i < n
        invariant
            0 <= i <= n,
            n == s@.len(),
            n == t@.len(),
            forall|j: int| 0 <= j < i ==> spec_upper_seq(s@)[j] == t@[j],
        decreases n - i,
    {
        if upper_char(s.get_char(i)) != t.get_char(i) {
            assert(spec_upper_seq(s@)[i as int] != t@[i as int]);
            return false;
        }
        i = i + 1;
    }
    assert(spec_upper_seq(s@) =~= t@);
    true
}

/// What a free-text level normalizes to: the recognized names (compared
/// ASCII-case-insensitively, with the common aliases) map to their level and
/// anything else defaults to `Info`.
pub open spec fn spec_normalize(s: Seq<char>) -> Level {
    let u = spec_upper_seq(s);
    if u == "TRACE"@ {
        Level::Trace
    } else if u == "DEBUG"@ {
        Level::Debug
    } else if u == "INFO"@ {
        Level::Info
    } else if u == "WARN"@ || u == "WARNING"@ {
        Level::Warn
    } else if u == "ERROR"@ || u == "ERR"@ {
        Level::Error
    } else if u == "FATAL"@ || u == "CRITICAL"@ {
        Level::Fatal
    } else {
        Level::Info
    }
}

/// Normalizes a free-text level name. Total: every string maps to a level,
/// unrecognized text defaulting to `Info`.
pub fn normalize_level(s: &str) -> (r: Level)
    ensures
        r == spec_normalize(s@),
{
    if eq_ignore_case(s, "TRACE") {
        Level::Trace
    } else if eq_ignore_case(s, "DEBUG") {
        Level::Debug
    } else if eq_ignore_case(s, "INFO") {
        Level::Info
    } else if eq_ignore_case(s, "WARN") || eq_ignore_case(s, "WARNING") {
        Level::Warn
    } else if eq_ignore_case(s, "ERROR") || eq_ignore_case(s, "ERR") {
        Level::Error
    } else if eq_ignore_case(s, "FATAL") || eq_ignore_case(s, "CRITICAL") {
        Level::Fatal
    } else {
        Level::Info
    }
}

/// The severity-bucket mapping used by numeric backends: 1-4 trace, 5-8 debug,
/// 9-12 info, 13-16 warn, 17-20 error, 21 and above fatal; values below 1
/// default to info.
pub open spec fn spec_severity_level(n: int) -> Level {
    if 1 <= n <= 4 {
        Level::Trace
    } else if 5 <= n <= 8 {
        Level::Debug
    } else if 9 <= n <= 12 {
        Level::Info
    } else if 13 <= n <= 16 {
        Level::Warn
    } else if 17 <= n <= 20 {
        Level::Error
    } else if n >= 21 {
        Level::Fatal
    } else {
        Level::Info
    }
}

/// Maps a numeric severity to its level by the fixed buckets.
pub fn severity_level(n: i64) -> (r: Level)
    ensures
        r == spec_severity_level(n as int),
{
    if 1 <= n && n <= 4 {
        Level::Trace
    } else if 5 <= n && n <= 8 {
        Level::Debug
    } else if 9 <= n && n <= 12 {
        Level::Info
    } else if 13 <= n && n <= 16 {
        Level::Warn
    } else if 17 <= n && n <= 20 {
        Level::Error
    } else if n >= 21 {
        Level::Fatal
    } else {
        Level::Info
    }
}

/// Level normalization is idempotent: the canonical name of any level
/// normalizes back to that level unchanged.
pub proof fn lemma_normalize_idempotent(l: Level)
    ensures
        spec_normalize(l.spec_name()) == l,
{
    reveal_strlit("TRACE");
    reveal_strlit("DEBUG");
    reveal_strlit("INFO");
    reveal_strlit("WARN");
    reveal_strlit("WARNING");
    reveal_strlit("ERROR");
    reveal_strlit("ERR");
    reveal_strlit("FATAL");
    reveal_strlit("CRITICAL");
    assert(spec_upper_seq(l.spec_name()) =~= l.spec_name());
    assert("TRACE"@[0] == 'T' && "TRACE"@.len() == 5);
    assert("DEBUG"@[0] == 'D' && "DEBUG"@.len() == 5);
    assert("ERROR"@[0] == 'E' && "ERROR"@.len() == 5);
    assert("FATAL"@[0] == 'F' && "FATAL"@.len() == 5);
    assert("INFO"@[0] == 'I' && "INFO"@.len() == 4);
    assert("WARN"@[0] == 'W' && "WARN"@.len() == 4);
    assert("ERR"@.len() == 3);
    assert("WARNING"@.len() == 7);
    assert("CRITICAL"@.len() == 8);
    match l {
        Level::Trace => {
            assert(spec_normalize(l.spec_name()) == Level::Trace);
        },
        Level::Debug => {
            assert(spec_normalize(l.spec_name()) == Level::Debug);
        },
        Level::Info => {
            assert(spec_normalize(l.spec_name()) == Level::Info);
        },
        Level::Warn => {
            assert(spec_normalize(l.spec_name()) == Level::Warn);
        },
        Level::Error => {
            assert(spec_normalize(l.spec_name()) == Level::Error);
        },
        Level::Fatal => {
            assert(spec_normalize(l.spec_name()) == Level::Fatal);
        },
    }
}

} // verus!
