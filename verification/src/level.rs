//! Severity levels: their order, their names, and how a name is parsed.

use std::cmp::Ordering;
use vstd::prelude::*;
use vstd::string::StrSliceExecFns;

verus! {

/// Severity of a record. The variants are declared from least to most severe,
/// and that is the order every comparison in this crate uses.
#[derive(Debug, Clone, Copy, PartialEq, Eq, PartialOrd, Ord, Hash, Structural)]
pub enum Level {
    Trace,
    Debug,
    Info,
    Warn,
    Error,
    Fatal,
    Panic,
}

/// Folds an ASCII capital letter to its small letter; every other character
/// is left alone.
pub open spec fn fold_ascii(c: char) -> char {
    if 'A' <= c && c <= 'Z' {
        ((c as u8) + 32u8) as char
    } else {
        c
    }
}

/// `text` equals `word` once the ASCII capitals of `text` are folded.
pub open spec fn matches_ignoring_case(text: Seq<char>, word: Seq<char>) -> bool {
    &&& text.len() == word.len()
    &&& forall|i: int| 0 <= i < text.len() ==> fold_ascii(#[trigger] text[i]) == word[i]
}

/// The level that `text` names, if any: one of the seven level names, or
/// `warning` for `Warn`, in any mix of capital and small letters. Nothing is
/// trimmed.
pub open spec fn parsed_level(text: Seq<char>) -> Option<Level> {
    if matches_ignoring_case(text, "trace"@) {
        Some(Level::Trace)
    } else if matches_ignoring_case(text, "debug"@) {
        Some(Level::Debug)
    } else if matches_ignoring_case(text, "info"@) {
        Some(Level::Info)
    } else if matches_ignoring_case(text, "warn"@) || matches_ignoring_case(text, "warning"@) {
        Some(Level::Warn)
    } else if matches_ignoring_case(text, "error"@) {
        Some(Level::Error)
    } else if matches_ignoring_case(text, "fatal"@) {
        Some(Level::Fatal)
    } else if matches_ignoring_case(text, "panic"@) {
        Some(Level::Panic)
    } else {
        None
    }
}

fn fold(c: char) -> (folded: char)
    ensures
        folded == fold_ascii(c),
{
    if 'A' <= c && c <= 'Z' {
        let code: u8 = c as u8;
        (code + 32) as char
    } else {
        c
    }
}

/// Compares `text` with `word`, folding the ASCII capitals of `text`.
/// `count` is the number of characters of `text`.
fn is_word(text: &str, count: usize, word: &str) -> (same: bool)
    requires
        count == text@.len(),
    ensures
        same == matches_ignoring_case(text@, word@),
{
    let width = word.unicode_len();
    if count != width {
        return false;
    }
    let mut at: usize = 0;
    while at < count
        invariant
            at <= count,
            count == text@.len(),
            count == word@.len(),
            forall|i: int| 0 <= i < at ==> fold_ascii(#[trigger] text@[i]) == word@[i],
        decreases count - at,
    {
        if fold(text.get_char(at)) != word.get_char(at) {
            return false;
        }
        at += 1;
    }
    true
}

impl Level {
    /// Position in the order `Trace < Debug < Info < Warn < Error < Fatal < Panic`.
    pub open spec fn rank_spec(self) -> nat {
        match self {
            Level::Trace => 0,
            Level::Debug => 1,
            Level::Info => 2,
            Level::Warn => 3,
            Level::Error => 4,
            Level::Fatal => 5,
            Level::Panic => 6,
        }
    }

    /// The fixed upper-case name a level is displayed with.
    pub open spec fn name(self) -> Seq<char> {
        match self {
            Level::Trace => "TRACE"@,
            Level::Debug => "DEBUG"@,
            Level::Info => "INFO"@,
            Level::Warn => "WARN"@,
            Level::Error => "ERROR"@,
            Level::Fatal => "FATAL"@,
            Level::Panic => "PANIC"@,
        }
    }

    /// The lower-case name a level is serialized with.
    pub open spec fn lowercase_name(self) -> Seq<char> {
        match self {
            Level::Trace => "trace"@,
            Level::Debug => "debug"@,
            Level::Info => "info"@,
            Level::Warn => "warn"@,
            Level::Error => "error"@,
            Level::Fatal => "fatal"@,
            Level::Panic => "panic"@,
        }
    }

    /// `self` is strictly less severe than `other`.
    pub open spec fn below(self, other: Level) -> bool {
        self.rank_spec() < other.rank_spec()
    }

    /// Position in the order, as a number.
    pub fn rank(self) -> (rank: u8)
        ensures
            rank == self.rank_spec(),
    {
        match self {
            Level::Trace => 0,
            Level::Debug => 1,
            Level::Info => 2,
            Level::Warn => 3,
            Level::Error => 4,
            Level::Fatal => 5,
            Level::Panic => 6,
        }
    }

    /// Whether a record of this level is dropped by a logger whose minimum
    /// level is `minimum`.
    pub fn is_below(self, minimum: Level) -> (below: bool)
        ensures
            below == self.below(minimum),
    {
        self.rank() < minimum.rank()
    }

    /// Compares two levels by severity.
    pub fn compare(self, other: Level) -> (order: Ordering)
        ensures
            match order {
                Ordering::Less => self.below(other),
                Ordering::Equal => self == other,
                Ordering::Greater => other.below(self),
            },
    {
        let own = self.rank();
        let others = other.rank();
        if own < others {
            Ordering::Less
        } else if own == others {
            Ordering::Equal
        } else {
            Ordering::Greater
        }
    }

    /// The upper-case name, borrowed.
    pub fn as_str(self) -> (name: &'static str)
        ensures
            name@ == self.name(),
    {
        match self {
            Level::Trace => "TRACE",
            Level::Debug => "DEBUG",
            Level::Info => "INFO",
            Level::Warn => "WARN",
            Level::Error => "ERROR",
            Level::Fatal => "FATAL",
            Level::Panic => "PANIC",
        }
    }

    /// The lower-case name, borrowed.
    pub fn as_lowercase_str(self) -> (name: &'static str)
        ensures
            name@ == self.lowercase_name(),
    {
        match self {
            Level::Trace => "trace",
            Level::Debug => "debug",
            Level::Info => "info",
            Level::Warn => "warn",
            Level::Error => "error",
            Level::Fatal => "fatal",
            Level::Panic => "panic",
        }
    }

    /// The display form of the level: its upper-case name.
    pub fn to_string(&self) -> (name: String)
        ensures
            name@ == self.name(),
    {
        self.as_str().to_owned()
    }

    /// Parses a level name. Capital and small letters are not told apart,
    /// `warning` stands for `Warn`, and anything else, surrounding white
    /// space included, gives `None`.
    pub fn from_str(level: &str) -> (parsed: Option<Level>)
        ensures
            parsed == parsed_level(level@),
    {
        let count = level.unicode_len();
        if is_word(level, count, "trace") {
            Some(Level::Trace)
        } else if is_word(level, count, "debug") {
            Some(Level::Debug)
        } else if is_word(level, count, "info") {
            Some(Level::Info)
        } else if is_word(level, count, "warn") || is_word(level, count, "warning") {
            Some(Level::Warn)
        } else if is_word(level, count, "error") {
            Some(Level::Error)
        } else if is_word(level, count, "fatal") {
            Some(Level::Fatal)
        } else if is_word(level, count, "panic") {
            Some(Level::Panic)
        } else {
            None
        }
    }
}

/// Parses a level name as [`Level::from_str`] does.
pub fn parse_level(level: &str) -> (parsed: Option<Level>)
    ensures
        parsed == parsed_level(level@),
{
    Level::from_str(level)
}

/// The order of levels is total: two levels of the same rank are the same
/// level, and of two different levels one is below the other.
pub proof fn lemma_level_order_total(a: Level, b: Level)
    ensures
        a.rank_spec() == b.rank_spec() <==> a == b,
        a.below(b) || b.below(a) || a == b,
        !(a.below(b) && b.below(a)),
{
}

/// Two words whose first letters differ after folding do not match.
proof fn lemma_first_letter_decides(text: Seq<char>, word: Seq<char>)
    requires
        text.len() > 0,
        word.len() > 0,
        fold_ascii(text[0]) != word[0],
    ensures
        !matches_ignoring_case(text, word),
{
}

/// The display name of a level parses back to that level, and so does its
/// lower-case name.
pub proof fn lemma_names_parse_back(level: Level)
    ensures
        parsed_level(level.name()) == Some(level),
        parsed_level(level.lowercase_name()) == Some(level),
{
    reveal_strlit("TRACE");
    reveal_strlit("DEBUG");
    reveal_strlit("INFO");
    reveal_strlit("WARN");
    reveal_strlit("ERROR");
    reveal_strlit("FATAL");
    reveal_strlit("PANIC");
    reveal_strlit("trace");
    reveal_strlit("debug");
    reveal_strlit("info");
    reveal_strlit("warn");
    reveal_strlit("warning");
    reveal_strlit("error");
    reveal_strlit("fatal");
    reveal_strlit("panic");
    let upper = level.name();
    let lower = level.lowercase_name();
    assert(upper.len() == lower.len());
    assert(fold_ascii(upper[0]) == lower[0]);
    assert(fold_ascii(upper[1]) == lower[1]);
    assert(fold_ascii(upper[2]) == lower[2]);
    assert(fold_ascii(upper[3]) == lower[3]);
    assert(upper.len() > 4 ==> fold_ascii(upper[4]) == lower[4]);
    assert(matches_ignoring_case(upper, lower));
    assert(matches_ignoring_case(lower, lower));
    if level != Level::Trace {
        lemma_first_letter_decides(upper, "trace"@);
        lemma_first_letter_decides(lower, "trace"@);
    }
    if level != Level::Debug {
        lemma_first_letter_decides(upper, "debug"@);
        lemma_first_letter_decides(lower, "debug"@);
    }
    if level != Level::Info {
        lemma_first_letter_decides(upper, "info"@);
        lemma_first_letter_decides(lower, "info"@);
    }
    if level != Level::Warn {
        lemma_first_letter_decides(upper, "warn"@);
        lemma_first_letter_decides(lower, "warn"@);
        lemma_first_letter_decides(upper, "warning"@);
        lemma_first_letter_decides(lower, "warning"@);
    }
    if level != Level::Error {
        lemma_first_letter_decides(upper, "error"@);
        lemma_first_letter_decides(lower, "error"@);
    }
    if level != Level::Fatal {
        lemma_first_letter_decides(upper, "fatal"@);
        lemma_first_letter_decides(lower, "fatal"@);
    }
}

} // verus!
