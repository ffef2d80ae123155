//! Formatters: the capability, and the text and JSON formatters.

use vstd::prelude::*;
use vstd::string::{StrSliceExecFns, StringExecFns};
use vstd::utf8::encode_utf8;
use crate::color::painted;
use crate::entry::{Entry, EntryView};
use crate::fields::Fields;
use crate::json::{
    json_string, json_text, lemma_member_written, lemma_object_closed, members_text, object_text,
    step, write_close, write_key, write_object, write_string, write_value,
};
use crate::time::{formatted_time, rfc3339_zulu_time};
use crate::value::{members_model, Json, Value};

verus! {

/// Why an entry could not be rendered.
#[derive(Debug, PartialEq, Eq)]
pub enum FormatError {
    /// The instant of the entry cannot be rendered: it lies outside the range
    /// of the calendar, or the pattern for it is malformed.
    Timestamp,
    /// A formatter's own failure, in its own words.
    Custom(String),
}

impl FormatError {
    /// The failure in words.
    pub open spec fn words(&self) -> Seq<char> {
        match self {
            FormatError::Timestamp => "timestamp cannot be rendered"@,
            FormatError::Custom(words) => words@,
        }
    }

    /// The failure in words.
    pub fn message(&self) -> (text: String)
        ensures
            text@ == self.words(),
    {
        match self {
            FormatError::Timestamp => "timestamp cannot be rendered".to_owned(),
            FormatError::Custom(words) => words.clone(),
        }
    }
}

/// The outcome of a rendering with the bytes taken as a sequence.
pub open spec fn rendered(out: Result<Vec<u8>, FormatError>) -> Result<Seq<u8>, FormatError> {
    match out {
        Ok(bytes) => Ok(bytes@),
        Err(error) => Err(error),
    }
}

/// Renders an entry to the bytes of one record.
pub trait Formatter: Send + Sync {
    /// Whether `out` is an outcome that `format` may have for `entry`. A
    /// formatter that does not say admits every outcome.
    open spec fn renders(&self, entry: EntryView, out: Result<Seq<u8>, FormatError>) -> bool {
        true
    }

    /// Renders `entry`, or says why it cannot.
    fn format(&self, entry: &Entry) -> (out: Result<Vec<u8>, FormatError>)
        ensures
            self.renders(entry@, rendered(out)),
    ;
}

/// A field value as the text formatter shows it: a string bare, every other
/// value as compact JSON.
pub open spec fn text_value(value: Json) -> Seq<char> {
    match value {
        Json::Text(text) => text,
        _ => json_text(value, false, Seq::<char>::empty()),
    }
}

/// The first `count` fields as the text formatter shows them: a space, the
/// key, an equals sign and the value, for each.
pub open spec fn fields_text(fields: Seq<(Seq<char>, Json)>, count: nat) -> Seq<char>
    decreases count,
{
    if count == 0 || count > fields.len() {
        Seq::<char>::empty()
    } else {
        fields_text(fields, (count - 1) as nat) + " "@ + fields[count - 1].0 + "="@ + text_value(
            fields[count - 1].1,
        )
    }
}

/// One line of text output: `[time] [level] message key=value ...` and a line
/// feed.
pub open spec fn text_line(
    time: Seq<char>,
    level: Seq<char>,
    message: Seq<char>,
    fields: Seq<(Seq<char>, Json)>,
) -> Seq<char> {
    "["@ + time + "] ["@ + level + "] "@ + message + fields_text(fields, fields.len()) + "\n"@
}

/// Renders one line of text output from the rendered time, the level as it is
/// to be shown, the message and the fields.
pub fn render_text_line(time: &str, level: &str, message: &str, fields: &Fields) -> (line: Vec<u8>)
    ensures
        line@ == encode_utf8(text_line(time@, level@, message@, fields@)),
{
    let mut out = String::new();
    out.append("[");
    out.append(time);
    out.append("] [");
    out.append(level);
    out.append("] ");
    out.append(message);
    let ghost head = out@;
    assert(head =~= "["@ + time@ + "] ["@ + level@ + "] "@ + message@);
    let entries = fields.entries();
    let mut at: usize = 0;
    while at < entries.len()
        invariant
            at <= entries.len(),
            members_model(entries@) == fields@,
            fields@.len() == entries.len(),
            out@ == head + fields_text(fields@, at as nat),
        decreases entries.len() - at,
    {
        out.append(" ");
        out.append(entries[at].0.as_str());
        out.append("=");
        match &entries[at].1 {
            Value::String(text) => {
                out.append(text.as_str());
            },
            other => {
                write_value(&mut out, other, false, "");
                proof {
                    reveal_strlit("");
                    assert(""@ =~= Seq::<char>::empty());
                }
            },
        }
        assert(fields@[at as int] == (entries@[at as int].0@, entries@[at as int].1@));
        assert(out@ =~= head + fields_text(fields@, (at + 1) as nat));
        at += 1;
    }
    out.append("\n");
    assert(out@ =~= text_line(time@, level@, message@, fields@));
    out.as_str().as_bytes_vec()
}

/// The pattern that renders the time of day alone.
pub open spec fn short_pattern() -> Seq<char> {
    "%H:%M:%S"@
}

/// The pattern a text formatter starts with: date and time to the
/// millisecond, with `Z` behind.
pub open spec fn default_pattern() -> Seq<char> {
    "%Y-%m-%dT%H:%M:%S%.3fZ"@
}

/// The human-readable formatter.
#[derive(Debug, Clone)]
pub struct TextFormatter {
    timestamp_format: String,
    colors: bool,
    full_timestamp: bool,
}

impl TextFormatter {
    /// The pattern for the full timestamp.
    pub closed spec fn pattern(&self) -> Seq<char> {
        self.timestamp_format@
    }

    /// Whether level names are shown in color.
    pub closed spec fn uses_colors(&self) -> bool {
        self.colors
    }

    /// Whether date and time are shown, rather than the time of day alone.
    pub closed spec fn shows_full_timestamp(&self) -> bool {
        self.full_timestamp
    }

    /// The pattern that the timestamp is rendered with.
    pub open spec fn effective_pattern(&self) -> Seq<char> {
        if self.shows_full_timestamp() {
            self.pattern()
        } else {
            short_pattern()
        }
    }

    /// A formatter with the default pattern, with colors, showing date and
    /// time.
    pub fn new() -> (made: TextFormatter)
        ensures
            made.pattern() == default_pattern(),
            made.uses_colors(),
            made.shows_full_timestamp(),
    {
        TextFormatter {
            timestamp_format: "%Y-%m-%dT%H:%M:%S%.3fZ".to_owned(),
            colors: true,
            full_timestamp: true,
        }
    }

    /// Sets the pattern for the full timestamp.
    pub fn timestamp_format(self, format: &str) -> (made: TextFormatter)
        ensures
            made.pattern() == format@,
            made.uses_colors() == self.uses_colors(),
            made.shows_full_timestamp() == self.shows_full_timestamp(),
    {
        TextFormatter {
            timestamp_format: format.to_owned(),
            colors: self.colors,
            full_timestamp: self.full_timestamp,
        }
    }

    /// Switches colors on or off.
    pub fn colors(self, enabled: bool) -> (made: TextFormatter)
        ensures
            made.pattern() == self.pattern(),
            made.uses_colors() == enabled,
            made.shows_full_timestamp() == self.shows_full_timestamp(),
    {
        TextFormatter {
            timestamp_format: self.timestamp_format,
            colors: enabled,
            full_timestamp: self.full_timestamp,
        }
    }

    /// Chooses between date and time and the time of day alone.
    pub fn full_timestamp(self, enabled: bool) -> (made: TextFormatter)
        ensures
            made.pattern() == self.pattern(),
            made.uses_colors() == self.uses_colors(),
            made.shows_full_timestamp() == enabled,
    {
        TextFormatter {
            timestamp_format: self.timestamp_format,
            colors: self.colors,
            full_timestamp: enabled,
        }
    }

    /// Ends the configuration; the formatter is handed back as it is.
    pub fn build(self) -> (made: TextFormatter)
        ensures
            made == self,
    {
        self
    }
}

impl Default for TextFormatter {
    fn default() -> (made: TextFormatter)
        ensures
            made.pattern() == default_pattern(),
            made.uses_colors(),
            made.shows_full_timestamp(),
    {
        TextFormatter::new()
    }
}

/// The line that a text formatter gives for `entry` once the time is
/// rendered as `time` and the level is shown as `level`.
pub open spec fn text_record(entry: EntryView, time: Seq<char>, level: Seq<char>) -> Seq<u8> {
    encode_utf8(text_line(time, level, entry.message, entry.fields))
}

/// What a text formatter that renders the time with `pattern` may give for
/// `entry`. A timestamp that cannot be rendered is the one failure. Else the
/// outcome is the line with the level name bare, or, with colors on, the line
/// with the level name between the escape sequences of its color.
pub open spec fn text_renders(
    pattern: Seq<char>,
    colors: bool,
    entry: EntryView,
    out: Result<Seq<u8>, FormatError>,
) -> bool {
    match formatted_time(entry.timestamp.secs, entry.timestamp.nanos, pattern) {
        None => out == Err::<Seq<u8>, FormatError>(FormatError::Timestamp),
        Some(time) => {
            ||| out == Ok::<Seq<u8>, FormatError>(text_record(entry, time, entry.level.name()))
            ||| colors && out == Ok::<Seq<u8>, FormatError>(
                text_record(
                    entry,
                    time,
                    painted(
                        entry.level.name(),
                        entry.level.tint_spec(),
                        entry.level.emphasized_spec(),
                    ),
                ),
            )
        },
    }
}

impl Formatter for TextFormatter {
    open spec fn renders(&self, entry: EntryView, out: Result<Seq<u8>, FormatError>) -> bool {
        text_renders(self.effective_pattern(), self.uses_colors(), entry, out)
    }

    fn format(&self, entry: &Entry) -> (out: Result<Vec<u8>, FormatError>) {
        let rendered_time = if self.full_timestamp {
            entry.timestamp.format(self.timestamp_format.as_str())
        } else {
            entry.timestamp.format("%H:%M:%S")
        };
        let time = match rendered_time {
            Some(time) => time,
            None => {
                return Err(FormatError::Timestamp);
            },
        };
        let level = if self.colors {
            entry.level.colored_name()
        } else {
            entry.level.to_string()
        };
        Ok(render_text_line(time.as_str(), level.as_str(), entry.message.as_str(), &entry.fields))
    }
}

/// The JSON document that stands for `entry` once its instant is rendered
/// as `time`: an object with the members `timestamp`, `level` (the lower-case
/// name), `message` and `fields`, in this order.
pub open spec fn entry_document(entry: EntryView, time: Seq<char>) -> Json {
    Json::Object(
        seq![
            ("timestamp"@, Json::Text(time)),
            ("level"@, Json::Text(entry.level.lowercase_name())),
            ("message"@, Json::Text(entry.message)),
            ("fields"@, Json::Object(entry.fields)),
        ],
    )
}

/// The JSON text that stands for `entry`.
pub open spec fn entry_text(entry: EntryView, time: Seq<char>, pretty: bool) -> Seq<char> {
    json_text(entry_document(entry, time), pretty, Seq::<char>::empty())
}

/// Appends the JSON text that stands for `entry` to `out`; `time` is the
/// rendered instant of the entry.
pub fn write_entry(out: &mut String, entry: &Entry, time: &str, pretty: bool)
    ensures
        final(out)@ == old(out)@ + entry_text(entry@, time@, pretty),
{
    let ghost members = entry_document(entry@, time@)->Object_0;
    let ghost inner = "  "@;
    let ghost start = old(out)@ + "{"@;
    out.append("{");
    assert(out@ =~= start + members_text(members, pretty, inner, 0));

    write_key(out, "timestamp", pretty, "  ", true);
    write_string(out, time);
    proof {
        lemma_member_written(start, members, pretty, inner, 1, json_string(time@));
    }
    write_key(out, "level", pretty, "  ", false);
    write_string(out, entry.level.as_lowercase_str());
    proof {
        lemma_member_written(
            start,
            members,
            pretty,
            inner,
            2,
            json_string(entry.level.lowercase_name()),
        );
    }
    write_key(out, "message", pretty, "  ", false);
    write_string(out, entry.message.as_str());
    proof {
        lemma_member_written(start, members, pretty, inner, 3, json_string(entry.message@));
    }
    write_key(out, "fields", pretty, "  ", false);
    write_object(out, entry.fields.entries(), pretty, "  ");
    proof {
        lemma_member_written(
            start,
            members,
            pretty,
            inner,
            4,
            object_text(entry.fields@, pretty, inner),
        );
    }
    assert(out@ == start + members_text(members, pretty, inner, 4));
    write_close(out, pretty, "");
    out.append("}");
    proof {
        reveal_strlit("");
        assert(""@ =~= Seq::<char>::empty());
        assert(Seq::<char>::empty() + step() =~= inner);
        lemma_object_closed(old(out)@, members, pretty, Seq::<char>::empty());
    }
}

/// The machine-readable formatter: one JSON object for each entry.
#[derive(Debug, Clone)]
pub struct JSONFormatter {
    pretty: bool,
}

/// The record that a JSON formatter gives for `entry` once the instant is
/// rendered as `time`: the JSON text and a line feed.
pub open spec fn json_record(entry: EntryView, time: Seq<char>, pretty: bool) -> Seq<u8> {
    encode_utf8(entry_text(entry, time, pretty) + "\n"@)
}

impl JSONFormatter {
    /// Whether the object is spread over lines and indented.
    pub closed spec fn is_pretty(&self) -> bool {
        self.pretty
    }

    /// A formatter of compact JSON.
    pub fn new() -> (made: JSONFormatter)
        ensures
            !made.is_pretty(),
    {
        JSONFormatter { pretty: false }
    }

    /// Chooses between pretty and compact JSON.
    pub fn pretty(self, enabled: bool) -> (made: JSONFormatter)
        ensures
            made.is_pretty() == enabled,
    {
        JSONFormatter { pretty: enabled }
    }
}

impl Default for JSONFormatter {
    fn default() -> (made: JSONFormatter)
        ensures
            !made.is_pretty(),
    {
        JSONFormatter::new()
    }
}

/// What a JSON formatter may give for `entry`. A timestamp that lies outside
/// the calendar is the one failure. Else the outcome is the JSON text of the
/// entry's document and a line feed.
pub open spec fn json_renders(pretty: bool, entry: EntryView, out: Result<Seq<u8>, FormatError>) -> bool {
    match rfc3339_zulu_time(entry.timestamp.secs, entry.timestamp.nanos) {
        None => out == Err::<Seq<u8>, FormatError>(FormatError::Timestamp),
        Some(time) => out == Ok::<Seq<u8>, FormatError>(json_record(entry, time, pretty)),
    }
}

impl Formatter for JSONFormatter {
    open spec fn renders(&self, entry: EntryView, out: Result<Seq<u8>, FormatError>) -> bool {
        json_renders(self.is_pretty(), entry, out)
    }

    fn format(&self, entry: &Entry) -> (out: Result<Vec<u8>, FormatError>) {
        let time = match entry.timestamp.to_rfc3339_zulu() {
            Some(time) => time,
            None => {
                return Err(FormatError::Timestamp);
            },
        };
        let mut text = String::new();
        write_entry(&mut text, entry, time.as_str(), self.pretty);
        text.append("\n");
        assert(text@ =~= entry_text(entry@, time@, self.pretty) + "\n"@);
        Ok(text.as_str().as_bytes_vec())
    }
}

} // verus!
