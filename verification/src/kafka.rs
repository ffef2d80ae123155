//! The hook that publishes entries to a message broker: what it publishes.
//!
//! The hook decides here what goes to the broker for an entry, its topic, its
//! routing key and its payload. Sending it is the work of a client that the
//! embedder runs.

use vstd::prelude::*;
use crate::entry::{Entry, EntryView};
use crate::fields::{has_key, key_index, Fields};
use crate::formatter::{entry_text, write_entry, FormatError};
use crate::hook::{all_levels, Hook};
use crate::level::Level;
use crate::time::rfc3339_zulu_time;
use crate::value::Json;

verus! {

/// A hook that publishes every entry to a topic of a message broker.
#[derive(Debug, Clone)]
pub struct KafkaHook {
    bootstrap_servers: String,
    topic: String,
    key_field: Option<String>,
}

/// What is published for one entry.
#[derive(Debug, Clone, PartialEq, Eq)]
pub struct Record {
    pub topic: String,
    pub key: Option<String>,
    pub payload: String,
}

/// The routing key for an entry with the given fields: the text of the field
/// named `key_field`, where such a field is held and its value is a string.
pub open spec fn routing_key(key_field: Option<Seq<char>>, fields: Seq<(Seq<char>, Json)>) -> Option<
    Seq<char>,
> {
    match key_field {
        None => None,
        Some(name) => if has_key(fields, name) {
            match fields[key_index(fields, name)].1 {
                Json::Text(text) => Some(text),
                _ => None,
            }
        } else {
            None
        },
    }
}

/// The payload for an entry: its JSON text, compact.
pub open spec fn payload(entry: EntryView) -> Option<Seq<char>> {
    match rfc3339_zulu_time(entry.timestamp.secs, entry.timestamp.nanos) {
        Some(time) => Some(entry_text(entry, time, false)),
        None => None,
    }
}

/// What the synchronous form of the hook answers.
pub open spec fn needs_async_text() -> Seq<char> {
    "KafkaHook requires an async runtime. Please use fire_async or ensure you're in an async context."@
}

impl KafkaHook {
    /// The address of the broker.
    pub closed spec fn servers_spec(&self) -> Seq<char> {
        self.bootstrap_servers@
    }

    /// The topic that entries are published to.
    pub closed spec fn topic_spec(&self) -> Seq<char> {
        self.topic@
    }

    /// The name of the field whose value is the routing key.
    pub closed spec fn key_field_spec(&self) -> Option<Seq<char>> {
        match self.key_field {
            Some(name) => Some(name@),
            None => None,
        }
    }

    /// A hook for the broker at `bootstrap_servers` and the topic `topic`,
    /// without a routing key.
    pub fn new(bootstrap_servers: &str, topic: String) -> (made: KafkaHook)
        ensures
            made.servers_spec() == bootstrap_servers@,
            made.topic_spec() == topic@,
            made.key_field_spec() is None,
    {
        KafkaHook { bootstrap_servers: bootstrap_servers.to_owned(), topic, key_field: None }
    }

    /// Names the field whose string value is the routing key of an entry.
    pub fn with_key_field(self, key_field: String) -> (made: KafkaHook)
        ensures
            made.servers_spec() == self.servers_spec(),
            made.topic_spec() == self.topic_spec(),
            made.key_field_spec() == Some(key_field@),
    {
        KafkaHook {
            bootstrap_servers: self.bootstrap_servers,
            topic: self.topic,
            key_field: Some(key_field),
        }
    }

    /// The address of the broker.
    pub fn bootstrap_servers(&self) -> (servers: &str)
        ensures
            servers@ == self.servers_spec(),
    {
        self.bootstrap_servers.as_str()
    }

    /// The topic that entries are published to.
    pub fn topic(&self) -> (topic: &str)
        ensures
            topic@ == self.topic_spec(),
    {
        self.topic.as_str()
    }

    /// The routing key for an entry with the fields `fields`.
    pub fn get_key_from_fields(&self, fields: &Fields) -> (key: Option<String>)
        ensures
            match key {
                Some(text) => routing_key(self.key_field_spec(), fields@) == Some(text@),
                None => routing_key(self.key_field_spec(), fields@) is None,
            },
    {
        match &self.key_field {
            None => None,
            Some(name) => match fields.get(name.as_str()) {
                None => None,
                Some(value) => match value.as_str() {
                    Some(text) => Some(text.to_owned()),
                    None => None,
                },
            },
        }
    }

    /// What is to be published for `entry`: the topic of the hook, the routing
    /// key drawn from the fields, and the compact JSON text of the entry. An
    /// entry whose instant lies outside the calendar cannot be published.
    pub fn record(&self, entry: &Entry) -> (out: Result<Record, FormatError>)
        ensures
            match out {
                Ok(record) => {
                    &&& record.topic@ == self.topic_spec()
                    &&& match record.key {
                        Some(text) => routing_key(self.key_field_spec(), entry@.fields) == Some(
                            text@,
                        ),
                        None => routing_key(self.key_field_spec(), entry@.fields) is None,
                    }
                    &&& payload(entry@) == Some(record.payload@)
                },
                Err(error) => error == FormatError::Timestamp && payload(entry@) is None,
            },
    {
        let time = match entry.timestamp.to_rfc3339_zulu() {
            Some(time) => time,
            None => {
                return Err(FormatError::Timestamp);
            },
        };
        let mut text = String::new();
        write_entry(&mut text, entry, time.as_str(), false);
        assert(text@ =~= entry_text(entry@, time@, false));
        let key = self.get_key_from_fields(&entry.fields);
        Ok(Record { topic: self.topic.clone(), key, payload: text })
    }
}

impl Hook for KafkaHook {
    /// The hook asks for every level.
    open spec fn declares(&self, levels: Seq<Level>) -> bool {
        levels == all_levels()
    }

    fn levels(&self) -> (levels: Vec<Level>) {
        let mut levels: Vec<Level> = Vec::new();
        levels.push(Level::Trace);
        levels.push(Level::Debug);
        levels.push(Level::Info);
        levels.push(Level::Warn);
        levels.push(Level::Error);
        levels.push(Level::Fatal);
        levels.push(Level::Panic);
        assert(levels@ =~= all_levels());
        levels
    }

    /// Publishing is asynchronous work: the synchronous form always fails,
    /// and its words send the caller to the asynchronous form.
    open spec fn yields(&self, entry: EntryView, outcome: Result<(), Seq<char>>) -> bool {
        outcome == Err::<(), Seq<char>>(needs_async_text())
    }

    fn fire(&self, entry: &Entry) -> (outcome: Result<(), String>)
        ensures
            outcome matches Err(words) && words@ == needs_async_text(),
    {
        Err(
            "KafkaHook requires an async runtime. Please use fire_async or ensure you're in an async context.".to_owned(),
        )
    }
}

} // verus!
