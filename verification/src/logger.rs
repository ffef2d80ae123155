//! The logger and the dispatch of a record.
//!
//! A dispatch alternates decisions, which are made here, with work on the
//! outside: writing to the sink and firing hooks. A [`Dispatch`] says what
//! the driver of the logger has to do next, and [`Logger::resume`] takes the
//! outcome of that work and says what follows.

use std::sync::Arc;
use vstd::prelude::*;
use vstd::string::StringExecFns;
use crate::entry::{Context, Entry, EntryView};
use crate::fields::Fields;
use crate::formatter::{default_pattern, FormatError, Formatter, TextFormatter};
use crate::hook::{contains_level, outcome_text, Hook, HookChain, Hooks, NoHooks};
use crate::level::Level;
use crate::time::Timestamp;
use crate::value::Json;

verus! {

/// What the caller owes once a record is out and its hooks have been tried.
#[derive(Debug, Clone, Copy, PartialEq, Eq, Structural)]
pub enum PostAction {
    /// Go on.
    Return,
    /// End the process with a status other than zero.
    Exit,
    /// Unwind the calling context with the message of the record.
    Panic,
}

/// The consequence of a record of the given level: `Fatal` ends the process,
/// `Panic` unwinds, every other level goes on.
pub open spec fn post_action(level: Level) -> PostAction {
    match level {
        Level::Fatal => PostAction::Exit,
        Level::Panic => PostAction::Panic,
        _ => PostAction::Return,
    }
}

/// Why a dispatch failed.
#[derive(Debug, PartialEq, Eq)]
pub enum LogError {
    /// The formatter could not render the entry. Nothing was written and no
    /// hook was fired.
    Format(FormatError),
    /// The sink did not take the record. No hook was fired.
    Write(String),
}

impl LogError {
    /// The failure in words.
    pub open spec fn words(&self) -> Seq<char> {
        match self {
            LogError::Format(error) => error.words(),
            LogError::Write(words) => words@,
        }
    }

    /// The failure in words.
    pub fn message(&self) -> (text: String)
        ensures
            text@ == self.words(),
    {
        match self {
            LogError::Format(error) => error.message(),
            LogError::Write(words) => words.clone(),
        }
    }
}

/// Where a dispatch stands, and with it what its driver has to do next.
#[derive(Debug)]
pub enum Dispatch<'a> {
    /// Nothing is left to do: the dispatch ended with this result.
    Done(Result<PostAction, LogError>),
    /// Write `bytes` to the sink and flush it, holding the sink for no longer
    /// than that, then resume with the outcome.
    Write { entry: Entry<'a>, bytes: Vec<u8> },
    /// Fire the hook at place `hook` with `entry`, then resume with the
    /// outcome.
    Fire { entry: Entry<'a>, hook: usize },
}

/// The line that reports the failure of a hook.
pub open spec fn hook_failure_text(why: Seq<char>) -> Seq<char> {
    "Hook failed: "@ + why
}

/// A logger: a minimum level, one formatter, and hooks in the order in which
/// they are fired. Formatter and hooks are fixed once the logger is made, and
/// the minimum level is changed only by one who holds the logger alone, so a
/// logger may be shared.
pub struct Logger<F: Formatter = TextFormatter, H: Hooks = NoHooks> {
    context: Context,
    formatter: F,
    hooks: H,
}

impl Logger<TextFormatter, NoHooks> {
    /// A logger with the minimum level `Info`, the text formatter with colors
    /// and no hooks.
    pub fn new() -> (made: Logger<TextFormatter, NoHooks>)
        ensures
            made.min_level() == Level::Info,
            made.formatter_spec().pattern() == default_pattern(),
            made.formatter_spec().uses_colors(),
            made.formatter_spec().shows_full_timestamp(),
            made.hooks_spec() == NoHooks,
    {
        Logger {
            context: Context { level: Level::Info, hooks: 0 },
            formatter: TextFormatter::new(),
            hooks: NoHooks,
        }
    }
}

impl<F: Formatter, H: Hooks> Logger<F, H> {
    #[verifier::type_invariant]
    spec fn context_counts_hooks(&self) -> bool {
        self.context.hooks == self.hooks.count()
    }

    /// The level below which entries are dropped.
    pub closed spec fn min_level(&self) -> Level {
        self.context.level
    }

    /// The formatter.
    pub closed spec fn formatter_spec(&self) -> F {
        self.formatter
    }

    /// The hooks.
    pub closed spec fn hooks_spec(&self) -> H {
        self.hooks
    }

    /// The number of hooks.
    pub open spec fn hook_count(&self) -> nat {
        self.hooks_spec().count()
    }

    /// What the logger tells formatters and hooks about itself: its minimum
    /// level and the number of its hooks.
    pub open spec fn context_spec(&self) -> Context {
        Context { level: self.min_level(), hooks: self.hook_count() as usize }
    }

    /// The hook at place `hook` may ask for entries of level `level`.
    pub open spec fn wants(&self, hook: int, level: Level) -> bool {
        exists|levels: Seq<Level>| #[trigger]
            self.hooks_spec().declares(hook, levels) && levels.contains(level)
    }

    /// The hook at place `hook` may decline entries of level `level`.
    pub open spec fn declines(&self, hook: int, level: Level) -> bool {
        exists|levels: Seq<Level>| #[trigger]
            self.hooks_spec().declares(hook, levels) && !levels.contains(level)
    }

    /// Sets the minimum level.
    pub fn level(self, level: Level) -> (made: Logger<F, H>)
        ensures
            made.min_level() == level,
            made.formatter_spec() == self.formatter_spec(),
            made.hooks_spec() == self.hooks_spec(),
    {
        proof {
            use_type_invariant(&self);
        }
        Logger {
            context: Context { level, hooks: self.context.hooks },
            formatter: self.formatter,
            hooks: self.hooks,
        }
    }

    /// Replaces the formatter.
    pub fn formatter<G: Formatter>(self, formatter: G) -> (made: Logger<G, H>)
        ensures
            made.min_level() == self.min_level(),
            made.formatter_spec() == formatter,
            made.hooks_spec() == self.hooks_spec(),
    {
        proof {
            use_type_invariant(&self);
        }
        Logger { context: self.context, formatter, hooks: self.hooks }
    }

    /// Adds a hook behind the hooks that the logger has. Hooks are fired in
    /// the order in which they were added.
    pub fn add_hook<K: Hook>(self, hook: K) -> (made: Logger<F, HookChain<H, K>>)
        requires
            self.hook_count() < usize::MAX,
        ensures
            made.min_level() == self.min_level(),
            made.formatter_spec() == self.formatter_spec(),
            made.hooks_spec().rest_spec() == self.hooks_spec(),
            made.hooks_spec().last_spec() == hook,
    {
        proof {
            use_type_invariant(&self);
        }
        let count = self.context.hooks + 1;
        Logger {
            context: Context { level: self.context.level, hooks: count },
            formatter: self.formatter,
            hooks: HookChain::new(self.hooks, hook),
        }
    }

    /// Ends the configuration and hands the logger out for shared use.
    pub fn build(self) -> (made: Arc<Logger<F, H>>)
        ensures
            *made == self,
    {
        Arc::new(self)
    }

    /// The minimum level.
    pub fn minimum(&self) -> (level: Level)
        ensures
            level == self.min_level(),
    {
        self.context.level
    }

    /// What the logger tells formatters and hooks about itself: its minimum
    /// level and the number of its hooks.
    pub fn context(&self) -> (context: &Context)
        ensures
            *context == self.context_spec(),
    {
        proof {
            use_type_invariant(self);
        }
        &self.context
    }

    /// The hooks.
    pub fn hooks(&self) -> (hooks: &H)
        ensures
            *hooks == self.hooks_spec(),
    {
        &self.hooks
    }

    /// Whether `state` is a state that a dispatch of an entry with the given
    /// instant, level, message and fields may start in. An entry below the
    /// minimum level is dropped: the dispatch is done at once, no entry is
    /// made, and neither the formatter nor a hook is asked. Else the entry is
    /// made and rendered: where the formatter fails the dispatch is done with
    /// that failure, else the bytes are to be written.
    pub open spec fn starts(
        &self,
        now: Timestamp,
        level: Level,
        message: Seq<char>,
        fields: Seq<(Seq<char>, Json)>,
        state: Dispatch,
    ) -> bool {
        if level.below(self.min_level()) {
            state == Dispatch::Done(Ok::<PostAction, LogError>(PostAction::Return))
        } else {
            let made = EntryView {
                timestamp: now,
                level,
                message,
                fields,
                logger: self.context_spec(),
            };
            match state {
                Dispatch::Write { entry, bytes } => entry@ == made && self.formatter_spec().renders(
                    made,
                    Ok::<Seq<u8>, FormatError>(bytes@),
                ),
                Dispatch::Done(Err(LogError::Format(error))) => self.formatter_spec().renders(
                    made,
                    Err::<Seq<u8>, FormatError>(error),
                ),
                _ => false,
            }
        }
    }

    /// Whether `state` is a state that a dispatch may start in at some
    /// instant.
    pub open spec fn starts_at_some_instant(
        &self,
        level: Level,
        message: Seq<char>,
        fields: Seq<(Seq<char>, Json)>,
        state: Dispatch,
    ) -> bool {
        exists|now: Timestamp| #[trigger] self.starts(now, level, message, fields, state)
    }

    /// Whether `next` may follow once the hooks before place `from` are dealt
    /// with: the first hook from `from` on that asks for the level of the
    /// entry is to be fired, and where no hook is left that asks for it the
    /// dispatch is done and has succeeded.
    pub open spec fn advances(&self, entry: Entry, from: int, next: Dispatch) -> bool {
        match next {
            Dispatch::Fire { entry: same, hook } => {
                &&& same == entry
                &&& from <= hook < self.hook_count()
                &&& self.wants(hook as int, entry.level)
                &&& forall|k: int| from <= k < hook ==> #[trigger] self.declines(k, entry.level)
            },
            Dispatch::Done(Ok(action)) => {
                &&& action == post_action(entry.level)
                &&& forall|k: int|
                    from <= k < self.hook_count() ==> #[trigger] self.declines(k, entry.level)
            },
            _ => false,
        }
    }

    /// Whether `next` and `report` may follow `state` once the work that
    /// `state` asks for has had the outcome `outcome`. A dispatch that is done
    /// stays as it is. A write that failed ends the dispatch with that
    /// failure, and no hook is fired. A hook that failed is reported in one
    /// line, and the dispatch goes on as if it had not failed.
    pub open spec fn resumes(
        &self,
        state: Dispatch,
        outcome: Result<(), String>,
        next: Dispatch,
        report: Option<Seq<char>>,
    ) -> bool {
        match state {
            Dispatch::Done(_) => next == state && report is None,
            Dispatch::Write { entry, bytes } => match outcome {
                Ok(_) => self.advances(entry, 0, next) && report is None,
                Err(why) => next == Dispatch::Done(
                    Err::<PostAction, LogError>(LogError::Write(why)),
                ) && report is None,
            },
            Dispatch::Fire { entry, hook } => {
                &&& self.advances(entry, hook + 1, next)
                &&& report == match outcome {
                    Ok(_) => None::<Seq<char>>,
                    Err(why) => Some(hook_failure_text(why@)),
                }
            },
        }
    }

    /// Starts the dispatch of an entry at the instant `now`.
    pub fn log_at<'a>(&'a self, now: Timestamp, level: Level, message: &str, fields: Fields) -> (state:
        Dispatch<'a>)
        ensures
            self.starts(now, level, message@, fields@, state),
    {
        proof {
            use_type_invariant(self);
        }
        if level.is_below(self.context.level) {
            return Dispatch::Done(Ok(PostAction::Return));
        }
        let entry = Entry {
            timestamp: now,
            level,
            message: message.to_owned(),
            fields,
            logger: &self.context,
        };
        match self.formatter.format(&entry) {
            Ok(bytes) => Dispatch::Write { entry, bytes },
            Err(error) => Dispatch::Done(Err(LogError::Format(error))),
        }
    }

    /// Starts the dispatch of an entry. The level is held against the minimum
    /// level first; the clock is read only for an entry that passes.
    pub fn log<'a>(&'a self, level: Level, message: &str, fields: Fields) -> (state: Dispatch<'a>)
        ensures
            self.starts_at_some_instant(level, message@, fields@, state),
            level.below(self.min_level()) ==> state == Dispatch::Done(
                Ok::<PostAction, LogError>(PostAction::Return),
            ),
    {
        if level.is_below(self.context.level) {
            let state = Dispatch::Done(Ok(PostAction::Return));
            assert(self.starts(Timestamp { secs: 0, nanos: 0 }, level, message@, fields@, state));
            return state;
        }
        let now = Timestamp::now();
        let state = self.log_at(now, level, message, fields);
        assert(self.starts(now, level, message@, fields@, state));
        state
    }

    /// Looks for the first hook from place `from` on that asks for the level
    /// of `entry`.
    fn advance<'a>(&self, entry: Entry<'a>, from: usize) -> (next: Dispatch<'a>)
        ensures
            self.advances(entry, from as int, next),
    {
        let count = self.hooks.len();
        let mut at: usize = from;
        while at < count
            invariant
                count == self.hook_count(),
                from <= at,
                forall|k: int| from <= k < at ==> #[trigger] self.declines(k, entry.level),
            decreases count - at,
        {
            let levels = self.hooks.levels(at);
            if contains_level(&levels, entry.level) {
                assert(self.hooks_spec().declares(at as int, levels@));
                return Dispatch::Fire { entry, hook: at };
            }
            assert(self.hooks_spec().declares(at as int, levels@));
            at += 1;
        }
        Dispatch::Done(Ok(consequence(entry.level)))
    }

    /// Takes the outcome of the work that `state` asked for and says what
    /// follows: the next state, and the line to report where a hook failed.
    pub fn resume<'a>(&self, state: Dispatch<'a>, outcome: Result<(), String>) -> (next: (
        Dispatch<'a>,
        Option<String>,
    ))
        ensures
            self.resumes(
                state,
                outcome,
                next.0,
                match next.1 {
                    Some(line) => Some(line@),
                    None => None,
                },
            ),
    {
        match state {
            Dispatch::Done(result) => (Dispatch::Done(result), None),
            Dispatch::Write { entry, bytes } => match outcome {
                Ok(_) => (self.advance(entry, 0), None),
                Err(why) => (Dispatch::Done(Err(LogError::Write(why))), None),
            },
            Dispatch::Fire { entry, hook } => {
                let count = self.hooks.len();
                let from = if hook < count {
                    hook + 1
                } else {
                    count
                };
                let report = match outcome {
                    Ok(_) => None,
                    Err(why) => Some("Hook failed: ".to_owned().concat(why.as_str())),
                };
                (self.advance(entry, from), report)
            },
        }
    }

    /// Fires the hook at place `hook` with `entry` by its synchronous form
    /// and hands its outcome on. A place that holds no hook gives a failure.
    pub fn fire_hook(&self, hook: usize, entry: &Entry) -> (outcome: Result<(), String>)
        ensures
            self.hooks_spec().yields(hook as int, entry@, outcome_text(outcome)),
            hook >= self.hook_count() ==> outcome is Err,
    {
        self.hooks.fire(hook, entry)
    }

    /// Changes the minimum level of this logger, and of no copy of it.
    pub fn set_level(&mut self, level: Level)
        ensures
            final(self).min_level() == level,
            final(self).formatter_spec() == old(self).formatter_spec(),
            final(self).hooks_spec() == old(self).hooks_spec(),
    {
        proof {
            use_type_invariant(&*self);
        }
        self.context.level = level;
    }
}

/// The consequence of a record of the given level.
pub fn consequence(level: Level) -> (action: PostAction)
    ensures
        action == post_action(level),
{
    match level {
        Level::Fatal => PostAction::Exit,
        Level::Panic => PostAction::Panic,
        _ => PostAction::Return,
    }
}

} // verus!
