//! A structured-logging core: levels, fields, entries, formatters and the
//! dispatch of a record to a sink and to hooks.

pub mod builder;
pub mod color;
pub mod entry;
pub mod fields;
pub mod formatter;
pub mod hook;
pub mod json;
pub mod kafka;
pub mod laws;
pub mod level;
pub mod logger;
pub mod number;
pub mod run;
pub mod time;
pub mod value;

pub use builder::{set_level, with_error, with_fields, with_time, EntryBuilder};
pub use entry::{Context, Entry};
pub use fields::Fields;
pub use formatter::{FormatError, Formatter, JSONFormatter, TextFormatter};
pub use hook::{Hook, HookChain, Hooks, NoHooks};
pub use kafka::{KafkaHook, Record};
pub use level::{parse_level, Level};
pub use logger::{Dispatch, LogError, Logger, PostAction};
pub use number::{Decimal, Number};
pub use run::Conclusion;
pub use time::Timestamp;
pub use value::{Json, Value};
