//! Terminal colors for level names, rendered by `colored`.

use colored::Colorize;
use vstd::prelude::*;
use crate::level::Level;

verus! {

/// The foreground colors that level names are shown in.
#[derive(Debug, Clone, Copy, PartialEq, Eq, Structural)]
pub enum Tint {
    White,
    Blue,
    Green,
    Yellow,
    Red,
}

impl Tint {
    /// The number that selects this foreground color in an ANSI escape
    /// sequence.
    pub open spec fn code(self) -> Seq<char> {
        match self {
            Tint::White => "37"@,
            Tint::Blue => "34"@,
            Tint::Green => "32"@,
            Tint::Yellow => "33"@,
            Tint::Red => "31"@,
        }
    }
}

/// `text` between the escape sequence that switches the color on and, for
/// `bold`, the emphasis too, and the sequence that resets both.
pub open spec fn painted(text: Seq<char>, tint: Tint, bold: bool) -> Seq<char> {
    "\x1b["@ + (if bold {
        "1;"@
    } else {
        Seq::<char>::empty()
    }) + tint.code() + "m"@ + text + "\x1b[0m"@
}

/// `shown` is one of the two forms that a colored text can take: the bare
/// text, where the terminal or the environment asks for no colors, or the
/// text between escape sequences.
pub open spec fn shows(shown: Seq<char>, text: Seq<char>, tint: Tint, bold: bool) -> bool {
    shown == text || shown == painted(text, tint, bold)
}

/// Colors `text` with `colored`'s `Colorize::color` and prints the result.
/// Whether `colored` emits escape sequences depends on the environment and on
/// the terminal, so the contract admits both forms. A text that holds an
/// escape character is left out, because `colored` rewrites reset sequences
/// inside the text.
#[verifier::external_body]
fn paint(text: &str, tint: Tint) -> (shown: String)
    requires
        !text@.contains('\x1b'),
    ensures
        shows(shown@, text@, tint, false),
{
    let color = match tint {
        Tint::White => colored::Color::White,
        Tint::Blue => colored::Color::Blue,
        Tint::Green => colored::Color::Green,
        Tint::Yellow => colored::Color::Yellow,
        Tint::Red => colored::Color::Red,
    };
    text.color(color).to_string()
}

/// As `paint`, with `Colorize::bold` applied to the colored text.
#[verifier::external_body]
fn paint_bold(text: &str, tint: Tint) -> (shown: String)
    requires
        !text@.contains('\x1b'),
    ensures
        shows(shown@, text@, tint, true),
{
    let color = match tint {
        Tint::White => colored::Color::White,
        Tint::Blue => colored::Color::Blue,
        Tint::Green => colored::Color::Green,
        Tint::Yellow => colored::Color::Yellow,
        Tint::Red => colored::Color::Red,
    };
    text.color(color).bold().to_string()
}

impl Level {
    /// The color a level is shown in: neutral for `Trace`, cool for `Debug`,
    /// green for `Info`, yellow for `Warn`, red from `Error` on.
    pub open spec fn tint_spec(self) -> Tint {
        match self {
            Level::Trace => Tint::White,
            Level::Debug => Tint::Blue,
            Level::Info => Tint::Green,
            Level::Warn => Tint::Yellow,
            Level::Error => Tint::Red,
            Level::Fatal => Tint::Red,
            Level::Panic => Tint::Red,
        }
    }

    /// Whether a level is shown with emphasis: `Fatal` and `Panic` are.
    pub open spec fn emphasized_spec(self) -> bool {
        self == Level::Fatal || self == Level::Panic
    }

    /// The color a level is shown in.
    pub fn tint(self) -> (tint: Tint)
        ensures
            tint == self.tint_spec(),
    {
        match self {
            Level::Trace => Tint::White,
            Level::Debug => Tint::Blue,
            Level::Info => Tint::Green,
            Level::Warn => Tint::Yellow,
            Level::Error => Tint::Red,
            Level::Fatal => Tint::Red,
            Level::Panic => Tint::Red,
        }
    }

    /// Whether a level is shown with emphasis.
    pub fn emphasized(self) -> (bold: bool)
        ensures
            bold == self.emphasized_spec(),
    {
        match self {
            Level::Fatal => true,
            Level::Panic => true,
            _ => false,
        }
    }

    /// The name of the level as a terminal shows it in color: the name itself
    /// where colors are switched off around the process, else the name between
    /// the escape sequences of its color.
    pub fn colored_name(self) -> (shown: String)
        ensures
            shows(shown@, self.name(), self.tint_spec(), self.emphasized_spec()),
    {
        let name = self.as_str();
        proof {
            lemma_names_hold_no_escape(self);
        }
        if self.emphasized() {
            paint_bold(name, self.tint())
        } else {
            paint(name, self.tint())
        }
    }
}

/// No level name holds an escape character.
pub proof fn lemma_names_hold_no_escape(level: Level)
    ensures
        !level.name().contains('\x1b'),
{
    reveal_strlit("TRACE");
    reveal_strlit("DEBUG");
    reveal_strlit("INFO");
    reveal_strlit("WARN");
    reveal_strlit("ERROR");
    reveal_strlit("FATAL");
    reveal_strlit("PANIC");
    let name = level.name();
    assert forall|i: int| 0 <= i < name.len() implies name[i] != '\x1b' by {
        if i == 0 {
        } else if i == 1 {
        } else if i == 2 {
        } else if i == 3 {
        } else {
        }
    }
}

} // verus!
