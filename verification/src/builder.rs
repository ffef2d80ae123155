//! The fluent builder that gathers fields and then dispatches an entry.

use vstd::prelude::*;
use crate::fields::{inserted, inserted_all, Fields};
use crate::formatter::Formatter;
use crate::hook::Hooks;
use crate::level::Level;
use crate::logger::{Dispatch, Logger};
use crate::time::{rfc3339_time, Timestamp};
use crate::value::{members_model, Json, Value};

verus! {

/// The key under which the description of an error is stored.
pub open spec fn error_key() -> Seq<char> {
    "error"@
}

/// The key under which an explicit time is stored.
pub open spec fn time_key() -> Seq<char> {
    "time"@
}

/// The value that stands for an instant among the fields: its RFC 3339 text,
/// or `Null` for an instant outside the calendar.
pub open spec fn time_value(time: Timestamp) -> Json {
    match rfc3339_time(time.secs, time.nanos) {
        Some(text) => Json::Text(text),
        None => Json::Null,
    }
}

/// Gathers fields for one entry of a logger. Each terminal method starts the
/// dispatch of the entry at one level.
pub struct EntryBuilder<'a, F: Formatter, H: Hooks> {
    logger: &'a Logger<F, H>,
    fields: Fields,
}

impl<F: Formatter, H: Hooks> Logger<F, H> {
    /// A builder for an entry of this logger that starts with `fields`.
    pub fn with_fields<'a>(&'a self, fields: Fields) -> (builder: EntryBuilder<'a, F, H>)
        ensures
            builder.logger_spec() == self,
            builder.fields_spec() == fields@,
    {
        EntryBuilder { logger: self, fields }
    }
}

impl<'a, F: Formatter, H: Hooks> EntryBuilder<'a, F, H> {
    /// The logger that the entry is for.
    pub closed spec fn logger_spec(&self) -> &'a Logger<F, H> {
        self.logger
    }

    /// The fields gathered so far.
    pub closed spec fn fields_spec(&self) -> Seq<(Seq<char>, Json)> {
        self.fields@
    }

    /// Stores `value` under `key`. A key that is stored again takes the new
    /// value.
    pub fn with_field(self, key: &str, value: Value) -> (builder: EntryBuilder<'a, F, H>)
        ensures
            builder.logger_spec() == self.logger_spec(),
            builder.fields_spec() == inserted(self.fields_spec(), key@, value@),
    {
        let mut fields = self.fields;
        fields.insert(key.to_owned(), value);
        EntryBuilder { logger: self.logger, fields }
    }

    /// Stores an instant under the key `time`, as RFC 3339 text. This is a
    /// field like any other: the instant of the entry itself is read from the
    /// clock when the entry is dispatched.
    pub fn with_time(self, time: Timestamp) -> (builder: EntryBuilder<'a, F, H>)
        ensures
            builder.logger_spec() == self.logger_spec(),
            builder.fields_spec() == inserted(self.fields_spec(), time_key(), time_value(time)),
    {
        let value = match time.to_rfc3339() {
            Some(text) => Value::String(text),
            None => Value::Null,
        };
        self.with_field("time", value)
    }

    /// Stores the description of an error under the key `error`.
    pub fn with_error(self, description: &str) -> (builder: EntryBuilder<'a, F, H>)
        ensures
            builder.logger_spec() == self.logger_spec(),
            builder.fields_spec() == inserted(
                self.fields_spec(),
                error_key(),
                Json::Text(description@),
            ),
    {
        self.with_field("error", Value::string(description))
    }

    /// Stores every pair of `pairs`, in their order.
    pub fn with_fields_map(self, pairs: &Vec<(String, Value)>) -> (builder: EntryBuilder<'a, F, H>)
        ensures
            builder.logger_spec() == self.logger_spec(),
            builder.fields_spec() == inserted_all(
                self.fields_spec(),
                members_model(pairs@),
                pairs@.len(),
            ),
    {
        let ghost start = self.fields@;
        let ghost model = members_model(pairs@);
        let logger = self.logger;
        let mut fields = self.fields;
        let mut at: usize = 0;
        while at < pairs.len()
            invariant
                at <= pairs.len(),
                model == members_model(pairs@),
                fields@ == inserted_all(start, model, at as nat),
            decreases pairs.len() - at,
        {
            let key = pairs[at].0.clone();
            let value = pairs[at].1.duplicate();
            assert(model[at as int] == (key@, value@));
            fields.insert(key, value);
            at += 1;
        }
        EntryBuilder { logger, fields }
    }

    /// Gives up the builder for the fields gathered so far.
    pub fn into_fields(self) -> (fields: Fields)
        ensures
            fields@ == self.fields_spec(),
    {
        self.fields
    }

    /// Starts the dispatch of the entry at `level`.
    pub fn log(self, level: Level, message: &str) -> (state: Dispatch<'a>)
        ensures
            self.logger_spec().starts_at_some_instant(level, message@, self.fields_spec(), state),
    {
        self.logger.log(level, message, self.fields)
    }

    /// Starts the dispatch of the entry at the level `Trace`.
    pub fn trace(self, message: &str) -> (state: Dispatch<'a>)
        ensures
            self.logger_spec().starts_at_some_instant(
                Level::Trace,
                message@,
                self.fields_spec(),
                state,
            ),
    {
        self.log(Level::Trace, message)
    }

    /// Starts the dispatch of the entry at the level `Debug`.
    pub fn debug(self, message: &str) -> (state: Dispatch<'a>)
        ensures
            self.logger_spec().starts_at_some_instant(
                Level::Debug,
                message@,
                self.fields_spec(),
                state,
            ),
    {
        self.log(Level::Debug, message)
    }

    /// Starts the dispatch of the entry at the level `Info`.
    pub fn info(self, message: &str) -> (state: Dispatch<'a>)
        ensures
            self.logger_spec().starts_at_some_instant(
                Level::Info,
                message@,
                self.fields_spec(),
                state,
            ),
    {
        self.log(Level::Info, message)
    }

    /// Starts the dispatch of the entry at the level `Warn`.
    pub fn warn(self, message: &str) -> (state: Dispatch<'a>)
        ensures
            self.logger_spec().starts_at_some_instant(
                Level::Warn,
                message@,
                self.fields_spec(),
                state,
            ),
    {
        self.log(Level::Warn, message)
    }

    /// Starts the dispatch of the entry at the level `Error`.
    pub fn error(self, message: &str) -> (state: Dispatch<'a>)
        ensures
            self.logger_spec().starts_at_some_instant(
                Level::Error,
                message@,
                self.fields_spec(),
                state,
            ),
    {
        self.log(Level::Error, message)
    }

    /// Starts the dispatch of the entry at the level `Fatal`.
    pub fn fatal(self, message: &str) -> (state: Dispatch<'a>)
        ensures
            self.logger_spec().starts_at_some_instant(
                Level::Fatal,
                message@,
                self.fields_spec(),
                state,
            ),
    {
        self.log(Level::Fatal, message)
    }

    /// Starts the dispatch of the entry at the level `Panic`.
    pub fn panic(self, message: &str) -> (state: Dispatch<'a>)
        ensures
            self.logger_spec().starts_at_some_instant(
                Level::Panic,
                message@,
                self.fields_spec(),
                state,
            ),
    {
        self.log(Level::Panic, message)
    }

    /// A copy of the builder: the same logger, and fields with the same
    /// model.
    pub fn duplicate(&self) -> (copy: EntryBuilder<'a, F, H>)
        ensures
            copy.logger_spec() == self.logger_spec(),
            copy.fields_spec() == self.fields_spec(),
    {
        EntryBuilder { logger: self.logger, fields: self.fields.duplicate() }
    }
}

impl<'a, F: Formatter, H: Hooks> Clone for EntryBuilder<'a, F, H> {
    fn clone(&self) -> (copy: EntryBuilder<'a, F, H>)
        ensures
            copy.logger_spec() == self.logger_spec(),
            copy.fields_spec() == self.fields_spec(),
    {
        self.duplicate()
    }
}

/// Changes the minimum level of `logger` in place.
pub fn set_level<F: Formatter, H: Hooks>(logger: &mut Logger<F, H>, level: Level)
    ensures
        final(logger).min_level() == level,
        final(logger).formatter_spec() == old(logger).formatter_spec(),
        final(logger).hooks_spec() == old(logger).hooks_spec(),
{
    logger.set_level(level);
}

/// A builder for an entry of `logger` that starts with `fields`.
pub fn with_fields<'a, F: Formatter, H: Hooks>(logger: &'a Logger<F, H>, fields: Fields) -> (builder:
    EntryBuilder<'a, F, H>)
    ensures
        builder.logger_spec() == logger,
        builder.fields_spec() == fields@,
{
    logger.with_fields(fields)
}

/// A builder for an entry of `logger` whose one field is the description of
/// an error.
pub fn with_error<'a, F: Formatter, H: Hooks>(logger: &'a Logger<F, H>, description: &str) -> (builder:
    EntryBuilder<'a, F, H>)
    ensures
        builder.logger_spec() == logger,
        builder.fields_spec() == seq![(error_key(), Json::Text(description@))],
{
    let builder = logger.with_fields(Fields::new()).with_error(description);
    assert(builder.fields_spec() =~= seq![(error_key(), Json::Text(description@))]);
    builder
}

/// A builder for an entry of `logger` whose one field is an instant.
pub fn with_time<'a, F: Formatter, H: Hooks>(logger: &'a Logger<F, H>, time: Timestamp) -> (builder:
    EntryBuilder<'a, F, H>)
    ensures
        builder.logger_spec() == logger,
        builder.fields_spec() == seq![(time_key(), time_value(time))],
{
    let builder = logger.with_fields(Fields::new()).with_time(time);
    assert(builder.fields_spec() =~= seq![(time_key(), time_value(time))]);
    builder
}

} // verus!
