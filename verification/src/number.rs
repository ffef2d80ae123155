//! Numbers: integers of 64 bits, and numbers with a fraction or an exponent,
//! which are held as their text.

use vstd::prelude::*;
use vstd::string::{is_ascii_spec_bytes, StrSliceExecFns, StringSliceAdditionalSpecFns};
use vstd::utf8::is_ascii_chars;
use crate::value::Json;

verus! {

/// A decimal digit.
pub open spec fn is_digit(c: char) -> bool {
    '0' <= c && c <= '9'
}

/// Every character of `text` from place `from` up to place `to` is a digit.
pub open spec fn all_digits(text: Seq<char>, from: int, to: int) -> bool {
    forall|i: int| from <= i < to ==> is_digit(#[trigger] text[i])
}

/// The characters from `from` up to `to` are the whole part of a number: one
/// digit at least, and no zero in front of another digit.
pub open spec fn is_whole_part(text: Seq<char>, from: int, to: int) -> bool {
    &&& from < to
    &&& all_digits(text, from, to)
    &&& text[from] == '0' ==> to == from + 1
}

/// The characters from `from` up to `to` are the fraction of a number:
/// nothing, or a point and one digit at least.
pub open spec fn is_fraction(text: Seq<char>, from: int, to: int) -> bool {
    from == to || (text[from] == '.' && from + 1 < to && all_digits(text, from + 1, to))
}

/// The characters from `from` up to `to` are the exponent of a number:
/// nothing, or the letter `e`, small or capital, a sign or none, and one digit
/// at least.
pub open spec fn is_exponent(text: Seq<char>, from: int, to: int) -> bool {
    from == to || {
        &&& text[from] == 'e' || text[from] == 'E'
        &&& {
            ||| from + 1 < to && all_digits(text, from + 1, to)
            ||| (text[from + 1] == '+' || text[from + 1] == '-') && from + 2 < to && all_digits(
                text,
                from + 2,
                to,
            )
        }
    }
}

/// `text` splits into a sign or none that ends at `a`, a whole part up to
/// `b`, a fraction up to `c` and an exponent up to its end.
pub open spec fn splits_as_number(text: Seq<char>, a: int, b: int, c: int) -> bool {
    &&& a == 0 || (a == 1 && text[0] == '-')
    &&& a <= b <= c <= text.len()
    &&& is_whole_part(text, a, b)
    &&& is_fraction(text, b, c)
    &&& is_exponent(text, c, text.len() as int)
}

/// `text` is a number as JSON writes one: a minus sign or none, a whole part,
/// then a fraction or none, then an exponent or none.
pub open spec fn is_number_text(text: Seq<char>) -> bool {
    exists|a: int, b: int, c: int| splits_as_number(text, a, b, c)
}

/// A number with a fraction or an exponent, held as the text that JSON writes
/// for it.
#[derive(Debug, PartialEq, Eq)]
pub struct Decimal {
    text: String,
}

/// A number: an integer of 64 bits, or a decimal.
#[derive(Debug, PartialEq, Eq)]
pub enum Number {
    Unsigned(u64),
    Signed(i64),
    Decimal(Decimal),
}

/// Whether the byte is the code of a decimal digit.
fn is_digit_code(code: u8) -> (digit: bool)
    ensures
        digit == (48 <= code <= 57),
{
    48 <= code && code <= 57
}

/// The number of characters of a text of ASCII characters.
fn ascii_len(text: &str) -> (count: usize)
    requires
        text.is_ascii(),
    ensures
        count == text@.len(),
{
    proof {
        is_ascii_spec_bytes(text);
        assert(text.spec_bytes().len() == text@.len());
    }
    text.as_bytes().len()
}

/// The character at place `at` of a text of ASCII characters, as its code.
fn code_at(text: &str, at: usize) -> (code: u8)
    requires
        text.is_ascii(),
        at < text@.len(),
    ensures
        code == text@[at as int] as u8,
        code as char == text@[at as int],
        code < 128,
{
    let code = text.get_ascii(at);
    assert('\0' <= text@[at as int] <= '\u{7f}');
    code
}

/// The end of the run of digits that starts at `from`.
fn digits_end(text: &str, from: usize) -> (end: usize)
    requires
        text.is_ascii(),
        from <= text@.len(),
    ensures
        from <= end <= text@.len(),
        all_digits(text@, from as int, end as int),
        end < text@.len() ==> !is_digit(text@[end as int]),
{
    let count = ascii_len(text);
    let mut at: usize = from;
    while at < count
        invariant
            text.is_ascii(),
            count == text@.len(),
            from <= at <= count,
            all_digits(text@, from as int, at as int),
        decreases count - at,
    {
        if !is_digit_code(code_at(text, at)) {
            return at;
        }
        at += 1;
    }
    at
}

/// A text that is a number holds ASCII characters alone.
pub proof fn lemma_number_text_is_ascii(text: Seq<char>)
    requires
        is_number_text(text),
    ensures
        is_ascii_chars(text),
{
    let (a, b, c) = choose|a: int, b: int, c: int| splits_as_number(text, a, b, c);
    assert(splits_as_number(text, a, b, c));
    assert forall|i: int| 0 <= i < text.len() implies '\0' <= #[trigger] text[i] <= '\u{7f}' by {
        if i < a {
        } else if i < b {
            assert(is_digit(text[i]));
        } else if i < c {
            if i > b {
                assert(is_digit(text[i]));
            }
        } else if i == c {
        } else if i == c + 1 {
            if !(text[i] == '+' || text[i] == '-') {
                assert(is_digit(text[i]));
            }
        } else {
            assert(is_digit(text[i]));
        }
    }
}

impl Decimal {
    #[verifier::type_invariant]
    spec fn holds_a_number(&self) -> bool {
        is_number_text(self.text@)
    }

    /// The text of the number.
    pub closed spec fn text(&self) -> Seq<char> {
        self.text@
    }

    /// Takes `text` for a number where it is one, as JSON writes numbers.
    pub fn parse(text: &str) -> (parsed: Option<Decimal>)
        ensures
            match parsed {
                Some(number) => is_number_text(text@) && number.text() == text@,
                None => !is_number_text(text@),
            },
    {
        if !text.is_ascii() {
            proof {
                if is_number_text(text@) {
                    lemma_number_text_is_ascii(text@);
                }
            }
            return None;
        }
        let count = ascii_len(text);
        let a: usize = if count > 0 && code_at(text, 0) == 45 {
            1
        } else {
            0
        };
        if a == count || !is_digit_code(code_at(text, a)) {
            proof {
                Self::lemma_no_split_without_whole_part(text@, a as int);
            }
            return None;
        }
        let b: usize = if code_at(text, a) == 48 {
            a + 1
        } else {
            digits_end(text, a)
        };
        let c: usize = if b < count && code_at(text, b) == 46 {
            digits_end(text, b + 1)
        } else {
            b
        };
        let accepted = if b < count && code_at(text, b) == 46 && c == b + 1 {
            false
        } else if c == count {
            true
        } else if code_at(text, c) == 101 || code_at(text, c) == 69 {
            let signed = c + 1 < count && (code_at(text, c + 1) == 43 || code_at(text, c + 1)
                == 45);
            let d: usize = if signed {
                c + 2
            } else {
                c + 1
            };
            d < count && digits_end(text, d) == count
        } else {
            false
        };
        if accepted {
            assert(splits_as_number(text@, a as int, b as int, c as int));
            Some(Decimal { text: text.to_owned() })
        } else {
            proof {
                if is_number_text(text@) {
                    let (x, y, z) = choose|x: int, y: int, z: int|
                        splits_as_number(text@, x, y, z);
                    assert(splits_as_number(text@, x, y, z));
                    Self::lemma_scan_finds_the_split(text@, a as int, b as int, c as int, x, y, z);
                }
            }
            None
        }
    }

    /// Where no digit stands behind the sign, nothing splits as a number.
    proof fn lemma_no_split_without_whole_part(text: Seq<char>, a: int)
        requires
            a == (if text.len() > 0 && text[0] == '-' {
                1int
            } else {
                0int
            }),
            a == text.len() || !is_digit(text[a]),
        ensures
            !is_number_text(text),
    {
        if is_number_text(text) {
            let (x, y, z) = choose|x: int, y: int, z: int| splits_as_number(text, x, y, z);
            assert(splits_as_number(text, x, y, z));
            assert(is_digit(text[x]));
        }
    }

    /// The places that a scan from the left finds are the places of every
    /// split: the sign, the longest run of digits behind it, or the one zero,
    /// and the longest run of digits behind a point.
    proof fn lemma_scan_finds_the_split(
        text: Seq<char>,
        a: int,
        b: int,
        c: int,
        x: int,
        y: int,
        z: int,
    )
        requires
            splits_as_number(text, x, y, z),
            a == (if text.len() > 0 && text[0] == '-' {
                1int
            } else {
                0int
            }),
            a < text.len(),
            is_digit(text[a]),
            text[a] == '0' ==> b == a + 1,
            text[a] != '0' ==> a <= b <= text.len() && all_digits(text, a, b) && (b < text.len()
                ==> !is_digit(text[b])),
            b < text.len() && text[b] == '.' ==> b + 1 <= c <= text.len() && all_digits(
                text,
                b + 1,
                c,
            ) && (c < text.len() ==> !is_digit(text[c])),
            !(b < text.len() && text[b] == '.') ==> c == b,
        ensures
            x == a,
            y == b,
            z == c,
            b < c ==> c > b + 1,
    {
        assert(is_digit(text[x]));
        assert(x == a);
        if text[a] != '0' {
            if y < b {
                assert(is_digit(text[y]));
            } else if b < y {
                assert(is_digit(text[b]));
            }
        }
        assert(y == b);
        if b < text.len() && text[b] == '.' {
            if z < c {
                if z == b {
                } else {
                    assert(is_digit(text[z]));
                }
            } else if c < z {
                assert(is_digit(text[c]));
            }
        } else {
            if z > b {
            }
        }
    }

    /// The text of the number.
    pub fn as_str(&self) -> (text: &str)
        ensures
            text@ == self.text(),
            is_number_text(text@),
    {
        proof {
            use_type_invariant(self);
        }
        self.text.as_str()
    }
}

impl Clone for Decimal {
    fn clone(&self) -> (copy: Decimal)
        ensures
            copy.text() == self.text(),
    {
        proof {
            use_type_invariant(self);
        }
        Decimal { text: self.text.clone() }
    }
}

impl View for Number {
    type V = Json;

    /// The model of a number: its integer, or the text of a decimal.
    open spec fn view(&self) -> Json {
        match self {
            Number::Unsigned(n) => Json::Integer(*n as int),
            Number::Signed(n) => Json::Integer(*n as int),
            Number::Decimal(number) => Json::Decimal(number.text()),
        }
    }
}

impl Number {
    /// A copy of the number, with the same model.
    pub fn duplicate(&self) -> (copy: Number)
        ensures
            copy@ == self@,
    {
        match self {
            Number::Unsigned(n) => Number::Unsigned(*n),
            Number::Signed(n) => Number::Signed(*n),
            Number::Decimal(number) => Number::Decimal(number.clone()),
        }
    }
}

impl Clone for Number {
    fn clone(&self) -> (copy: Number)
        ensures
            copy@ == self@,
    {
        self.duplicate()
    }
}

} // verus!
