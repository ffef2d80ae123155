//! A record as formatters and hooks see it.

use vstd::prelude::*;
use crate::fields::Fields;
use crate::value::Json;
use crate::level::Level;
use crate::time::Timestamp;

verus! {

/// What a logger tells formatters and hooks about itself: its minimum level
/// and the number of its hooks.
#[derive(Debug, Clone, Copy, PartialEq, Eq, Structural)]
pub struct Context {
    pub level: Level,
    pub hooks: usize,
}

/// One log event: when it was dispatched, how severe it is, what it says,
/// the fields attached to it, and the context of the logger that dispatched
/// it. The context is borrowed for the time of the dispatch.
#[derive(Debug)]
pub struct Entry<'a> {
    pub timestamp: Timestamp,
    pub level: Level,
    pub message: String,
    pub fields: Fields,
    pub logger: &'a Context,
}

/// The mathematical model of an entry.
pub struct EntryView {
    pub timestamp: Timestamp,
    pub level: Level,
    pub message: Seq<char>,
    pub fields: Seq<(Seq<char>, Json)>,
    pub logger: Context,
}

impl<'a> View for Entry<'a> {
    type V = EntryView;

    open spec fn view(&self) -> EntryView {
        EntryView {
            timestamp: self.timestamp,
            level: self.level,
            message: self.message@,
            fields: self.fields@,
            logger: *self.logger,
        }
    }
}

impl<'a> Entry<'a> {
    /// A copy of the entry, with the same model.
    pub fn duplicate(&self) -> (copy: Entry<'a>)
        ensures
            copy@ == self@,
    {
        Entry {
            timestamp: self.timestamp,
            level: self.level,
            message: self.message.clone(),
            fields: self.fields.duplicate(),
            logger: self.logger,
        }
    }
}

impl<'a> Clone for Entry<'a> {
    fn clone(&self) -> (copy: Entry<'a>)
        ensures
            copy@ == self@,
    {
        self.duplicate()
    }
}

} // verus!
