//! JSON text of values: the grammar is written out here, and string literals
//! are escaped by `serde_json`.

use vstd::prelude::*;
use vstd::string::StringExecFns;
use crate::number::Number;
use crate::value::{members_model, Json, Value};

verus! {

/// The JSON string literal for `text`, quotes included, as `serde_json`
/// writes it.
pub uninterp spec fn json_string(text: Seq<char>) -> Seq<char>;

/// Serializes a string with `serde_json::to_string`. The result is a function
/// of the text alone. `to_string` fails only where a `Serialize` impl fails or
/// a map has a key that is no string, and a `str` is neither: the fallback is
/// never taken.
#[verifier::external_body]
fn quote(text: &str) -> (literal: String)
    ensures
        literal@ == json_string(text@),
{
    serde_json::to_string(text).unwrap_or_default()
}

/// One decimal digit.
pub open spec fn digit_text(d: int) -> Seq<char> {
    if d == 0 {
        "0"@
    } else if d == 1 {
        "1"@
    } else if d == 2 {
        "2"@
    } else if d == 3 {
        "3"@
    } else if d == 4 {
        "4"@
    } else if d == 5 {
        "5"@
    } else if d == 6 {
        "6"@
    } else if d == 7 {
        "7"@
    } else if d == 8 {
        "8"@
    } else {
        "9"@
    }
}

/// A natural number in decimal, without leading zeros.
pub open spec fn natural_text(n: nat) -> Seq<char>
    decreases n,
{
    if n < 10 {
        digit_text(n as int)
    } else {
        natural_text(n / 10) + digit_text((n % 10) as int)
    }
}

/// An integer in decimal, with a minus sign where it is negative.
pub open spec fn integer_text(n: int) -> Seq<char> {
    if n < 0 {
        "-"@ + natural_text((-n) as nat)
    } else {
        natural_text(n as nat)
    }
}

/// The text of a number: an integer in decimal, a decimal as it is held.
pub open spec fn number_text(number: Json) -> Seq<char> {
    match number {
        Json::Integer(n) => integer_text(n),
        Json::Decimal(text) => text,
        _ => Seq::<char>::empty(),
    }
}

/// The indentation that one level of nesting adds in pretty text.
pub open spec fn step() -> Seq<char> {
    "  "@
}

/// What stands before an item of an array or a member of an object.
pub open spec fn lead(pretty: bool, margin: Seq<char>, first: bool) -> Seq<char> {
    if pretty {
        (if first {
            "\n"@
        } else {
            ",\n"@
        }) + margin
    } else if first {
        Seq::<char>::empty()
    } else {
        ","@
    }
}

/// What stands between the last item and the closing bracket.
pub open spec fn close(pretty: bool, margin: Seq<char>) -> Seq<char> {
    if pretty {
        "\n"@ + margin
    } else {
        Seq::<char>::empty()
    }
}

/// What stands between a key and its value.
pub open spec fn colon(pretty: bool) -> Seq<char> {
    if pretty {
        ": "@
    } else {
        ":"@
    }
}

/// The JSON text of a value. Compact text has no white space. Pretty text
/// puts every item and member on a line of its own, indented by two spaces
/// for each level of nesting; `margin` is the indentation of the line that the
/// value starts on. An empty array is `[]` and an empty object `{}` in both.
pub open spec fn json_text(value: Json, pretty: bool, margin: Seq<char>) -> Seq<char>
    decreases value, 0nat,
{
    match value {
        Json::Null => "null"@,
        Json::Bool(b) => if b {
            "true"@
        } else {
            "false"@
        },
        Json::Integer(_) => number_text(value),
        Json::Decimal(_) => number_text(value),
        Json::Text(s) => json_string(s),
        Json::Array(items) => if items.len() == 0 {
            "[]"@
        } else {
            "["@ + items_text(items, pretty, margin + step(), items.len()) + close(pretty, margin)
                + "]"@
        },
        Json::Object(members) => if members.len() == 0 {
            "{}"@
        } else {
            "{"@ + members_text(members, pretty, margin + step(), members.len()) + close(
                pretty,
                margin,
            ) + "}"@
        },
    }
}

/// The first `count` items of an array, each behind its lead.
pub open spec fn items_text(items: Seq<Json>, pretty: bool, margin: Seq<char>, count: nat) -> Seq<
    char,
>
    decreases items, count,
{
    if count == 0 || count > items.len() {
        Seq::<char>::empty()
    } else {
        items_text(items, pretty, margin, (count - 1) as nat) + lead(pretty, margin, count == 1)
            + json_text(items[count - 1], pretty, margin)
    }
}

/// The first `count` members of an object, each behind its lead.
pub open spec fn members_text(
    members: Seq<(Seq<char>, Json)>,
    pretty: bool,
    margin: Seq<char>,
    count: nat,
) -> Seq<char>
    decreases members, count,
{
    if count == 0 || count > members.len() {
        Seq::<char>::empty()
    } else {
        members_text(members, pretty, margin, (count - 1) as nat) + lead(
            pretty,
            margin,
            count == 1,
        ) + json_string(members[count - 1].0) + colon(pretty) + json_text(
            members[count - 1].1,
            pretty,
            margin,
        )
    }
}

fn digit(d: u64) -> (text: &'static str)
    requires
        d < 10,
    ensures
        text@ == digit_text(d as int),
{
    if d == 0 {
        "0"
    } else if d == 1 {
        "1"
    } else if d == 2 {
        "2"
    } else if d == 3 {
        "3"
    } else if d == 4 {
        "4"
    } else if d == 5 {
        "5"
    } else if d == 6 {
        "6"
    } else if d == 7 {
        "7"
    } else if d == 8 {
        "8"
    } else {
        "9"
    }
}

fn write_natural(out: &mut String, n: u64)
    ensures
        final(out)@ == old(out)@ + natural_text(n as nat),
    decreases n,
{
    if n >= 10 {
        write_natural(out, n / 10);
    }
    out.append(digit(n % 10));
    assert(out@ =~= old(out)@ + natural_text(n as nat));
}

fn write_number(out: &mut String, number: &Number)
    ensures
        final(out)@ == old(out)@ + number_text(number@),
{
    match number {
        Number::Unsigned(n) => {
            write_natural(out, *n);
        },
        Number::Decimal(decimal) => {
            out.append(decimal.as_str());
        },
        Number::Signed(n) => {
            let n: i64 = *n;
            if n < 0 {
                out.append("-");
                let magnitude: u64 = if n == i64::MIN {
                    9223372036854775808u64
                } else {
                    (-n) as u64
                };
                write_natural(out, magnitude);
                assert(out@ =~= old(out)@ + integer_text(n as int));
            } else {
                write_natural(out, n as u64);
            }
        },
    }
}

fn write_lead(out: &mut String, pretty: bool, margin: &str, first: bool)
    ensures
        final(out)@ == old(out)@ + lead(pretty, margin@, first),
{
    if pretty {
        if first {
            out.append("\n");
        } else {
            out.append(",\n");
        }
        out.append(margin);
        assert(out@ =~= old(out)@ + lead(pretty, margin@, first));
    } else if first {
        assert(out@ =~= old(out)@ + lead(pretty, margin@, first));
    } else {
        out.append(",");
    }
}

/// Appends what stands between the last item and the closing bracket.
pub fn write_close(out: &mut String, pretty: bool, margin: &str)
    ensures
        final(out)@ == old(out)@ + close(pretty, margin@),
{
    if pretty {
        out.append("\n");
        out.append(margin);
    }
    assert(out@ =~= old(out)@ + close(pretty, margin@));
}

fn deeper(margin: &str) -> (inner: String)
    ensures
        inner@ == margin@ + step(),
{
    margin.to_owned().concat("  ")
}

/// Appends the JSON text of `value` to `out`.
pub fn write_value(out: &mut String, value: &Value, pretty: bool, margin: &str)
    ensures
        final(out)@ == old(out)@ + json_text(value@, pretty, margin@),
    decreases value,
{
    match value {
        Value::Null => {
            out.append("null");
        },
        Value::Bool(b) => {
            if *b {
                out.append("true");
            } else {
                out.append("false");
            }
        },
        Value::Number(n) => {
            write_number(out, n);
        },
        Value::String(s) => {
            let literal = quote(s.as_str());
            out.append(literal.as_str());
        },
        Value::Array(items) => {
            if items.len() == 0 {
                out.append("[]");
            } else {
                out.append("[");
                let inner = deeper(margin);
                let ghost model = value@->Array_0;
                let mut at: usize = 0;
                while at < items.len()
                    invariant
                        *value == Value::Array(*items),
                        model == value@->Array_0,
                        model.len() == items.len(),
                        at <= items.len(),
                        inner@ == margin@ + step(),
                        out@ == old(out)@ + "["@ + items_text(model, pretty, inner@, at as nat),
                    decreases items.len() - at,
                {
                    let ghost before = out@;
                    write_lead(out, pretty, inner.as_str(), at == 0);
                    assert(decreases_to!(*items => items[at as int]));
                    assert(decreases_to!(*value => value->Array_0));
                    write_value(out, &items[at], pretty, inner.as_str());
                    assert(model[at as int] == items@[at as int]@);
                    assert(out@ =~= old(out)@ + "["@ + items_text(
                        model,
                        pretty,
                        inner@,
                        (at + 1) as nat,
                    ));
                    at += 1;
                }
                write_close(out, pretty, margin);
                out.append("]");
                assert(out@ =~= old(out)@ + json_text(value@, pretty, margin@));
            }
        },
        Value::Object(members) => {
            assert(decreases_to!(*value => value->Object_0));
            write_object(out, members, pretty, margin);
        },
    }
}

/// The JSON text of an object with the given members.
pub open spec fn object_text(members: Seq<(Seq<char>, Json)>, pretty: bool, margin: Seq<char>) -> Seq<
    char,
> {
    json_text(Json::Object(members), pretty, margin)
}

/// Appends the JSON text of the object that has `members` to `out`.
pub fn write_object(out: &mut String, members: &Vec<(String, Value)>, pretty: bool, margin: &str)
    ensures
        final(out)@ == old(out)@ + object_text(members_model(members@), pretty, margin@),
    decreases members,
{
    if members.len() == 0 {
        out.append("{}");
    } else {
        out.append("{");
        let inner = deeper(margin);
        let ghost model = members_model(members@);
        let mut at: usize = 0;
        while at < members.len()
            invariant
                model == members_model(members@),
                model.len() == members.len(),
                at <= members.len(),
                inner@ == margin@ + step(),
                out@ == old(out)@ + "{"@ + members_text(model, pretty, inner@, at as nat),
            decreases members.len() - at,
        {
            write_lead(out, pretty, inner.as_str(), at == 0);
            let literal = quote(members[at].0.as_str());
            out.append(literal.as_str());
            if pretty {
                out.append(": ");
            } else {
                out.append(":");
            }
            assert(decreases_to!(*members => members[at as int]));
            assert(decreases_to!(members[at as int] => members[at as int].1));
            write_value(out, &members[at].1, pretty, inner.as_str());
            assert(model[at as int] == (members@[at as int].0@, members@[at as int].1@));
            assert(out@ =~= old(out)@ + "{"@ + members_text(
                model,
                pretty,
                inner@,
                (at + 1) as nat,
            ));
            at += 1;
        }
        write_close(out, pretty, margin);
        out.append("}");
        assert(out@ =~= old(out)@ + object_text(model, pretty, margin@));
    }
}

/// Appends the JSON string literal for `text` to `out`.
pub fn write_string(out: &mut String, text: &str)
    ensures
        final(out)@ == old(out)@ + json_string(text@),
{
    let literal = quote(text);
    out.append(literal.as_str());
}

/// What stands before the value of a member: the lead, the key and the colon.
pub open spec fn key_text(key: Seq<char>, pretty: bool, margin: Seq<char>, first: bool) -> Seq<
    char,
> {
    lead(pretty, margin, first) + json_string(key) + colon(pretty)
}

/// Appends what stands before the value of a member to `out`.
pub fn write_key(out: &mut String, key: &str, pretty: bool, margin: &str, first: bool)
    ensures
        final(out)@ == old(out)@ + key_text(key@, pretty, margin@, first),
{
    write_lead(out, pretty, margin, first);
    write_string(out, key);
    if pretty {
        out.append(": ");
    } else {
        out.append(":");
    }
    assert(out@ =~= old(out)@ + key_text(key@, pretty, margin@, first));
}

/// Writing the key and the value of the member at place `count - 1` behind
/// the text of the members before it gives the text of the first `count`
/// members.
pub proof fn lemma_member_written(
    start: Seq<char>,
    members: Seq<(Seq<char>, Json)>,
    pretty: bool,
    margin: Seq<char>,
    count: nat,
    value: Seq<char>,
)
    requires
        1 <= count <= members.len(),
        value == json_text(members[count - 1].1, pretty, margin),
    ensures
        start + members_text(members, pretty, margin, (count - 1) as nat) + key_text(
            members[count - 1].0,
            pretty,
            margin,
            count == 1,
        ) + value == start + members_text(members, pretty, margin, count),
{
    assert(start + members_text(members, pretty, margin, (count - 1) as nat) + key_text(
        members[count - 1].0,
        pretty,
        margin,
        count == 1,
    ) + value =~= start + members_text(members, pretty, margin, count));
}

/// An object that is not empty is its members between braces.
pub proof fn lemma_object_closed(
    start: Seq<char>,
    members: Seq<(Seq<char>, Json)>,
    pretty: bool,
    margin: Seq<char>,
)
    requires
        members.len() > 0,
    ensures
        start + "{"@ + members_text(members, pretty, margin + step(), members.len()) + close(
            pretty,
            margin,
        ) + "}"@ == start + json_text(Json::Object(members), pretty, margin),
{
    assert(start + "{"@ + members_text(members, pretty, margin + step(), members.len()) + close(
        pretty,
        margin,
    ) + "}"@ =~= start + json_text(Json::Object(members), pretty, margin));
}

/// The JSON text of `value`: compact, or pretty from an empty margin.
pub fn encode(value: &Value, pretty: bool) -> (text: String)
    ensures
        text@ == json_text(value@, pretty, Seq::<char>::empty()),
{
    let mut out = String::new();
    write_value(&mut out, value, pretty, "");
    proof {
        reveal_strlit("");
        assert(""@ =~= Seq::<char>::empty());
        assert(out@ =~= json_text(value@, pretty, Seq::<char>::empty()));
    }
    out
}

} // verus!
