//! Hooks: side-effect handlers that are told of the entries they ask for.

use vstd::prelude::*;
use crate::entry::{Entry, EntryView};
use crate::level::Level;

verus! {

/// The outcome of firing a hook with the words of a failure taken as a
/// sequence.
pub open spec fn outcome_text(outcome: Result<(), String>) -> Result<(), Seq<char>> {
    match outcome {
        Ok(_) => Ok(()),
        Err(words) => Err(words@),
    }
}

/// What firing a place that holds no hook answers.
pub open spec fn no_hook_text() -> Seq<char> {
    "no hook at this place"@
}

/// Is told of entries whose level is among the levels it declares.
pub trait Hook: Send + Sync {
    /// Whether `levels` is an answer that `levels` may give. A hook that does
    /// not say admits every answer.
    open spec fn declares(&self, levels: Seq<Level>) -> bool {
        true
    }

    /// The levels for which the hook is to be fired.
    fn levels(&self) -> (levels: Vec<Level>)
        ensures
            self.declares(levels@),
    ;

    /// Whether `outcome` is an outcome that `fire` may have for `entry`. A
    /// hook that does not say admits every outcome.
    open spec fn yields(&self, entry: EntryView, outcome: Result<(), Seq<char>>) -> bool {
        true
    }

    /// Handles one entry. A failure is said in words; it concerns the hook
    /// alone.
    fn fire(&self, entry: &Entry) -> (outcome: Result<(), String>)
        ensures
            self.yields(entry@, outcome_text(outcome)),
    ;
}

/// Hooks in the order in which they are fired. The hook at place 0 is fired
/// first.
pub trait Hooks: Send + Sync {
    /// The number of hooks.
    spec fn count(&self) -> nat;

    /// Whether `levels` is an answer that the hook at place `at` may give
    /// when asked for its levels.
    spec fn declares(&self, at: int, levels: Seq<Level>) -> bool;

    /// Whether `outcome` is an outcome that firing the place `at` with
    /// `entry` may have: an outcome of the hook at that place, or, for a place
    /// that holds no hook, the failure that says so.
    spec fn yields(&self, at: int, entry: EntryView, outcome: Result<(), Seq<char>>) -> bool;

    /// The number of hooks.
    fn len(&self) -> (count: usize)
        ensures
            count == self.count(),
    ;

    /// Asks the hook at place `at` for its levels. A place that holds no hook
    /// gives no level.
    fn levels(&self, at: usize) -> (levels: Vec<Level>)
        ensures
            at < self.count() ==> self.declares(at as int, levels@),
            at >= self.count() ==> levels@.len() == 0,
    ;

    /// Fires the hook at place `at` with `entry` and hands its outcome on. A
    /// place that holds no hook gives a failure.
    fn fire(&self, at: usize, entry: &Entry) -> (outcome: Result<(), String>)
        ensures
            self.yields(at as int, entry@, outcome_text(outcome)),
            at >= self.count() ==> outcome is Err,
    ;
}

/// No hooks.
#[derive(Debug, Clone, Copy, PartialEq, Eq)]
pub struct NoHooks;

impl Hooks for NoHooks {
    open spec fn count(&self) -> nat {
        0
    }

    open spec fn declares(&self, at: int, levels: Seq<Level>) -> bool {
        false
    }

    /// No place holds a hook: firing any place gives the one failure.
    open spec fn yields(&self, at: int, entry: EntryView, outcome: Result<(), Seq<char>>) -> bool {
        outcome == Err::<(), Seq<char>>(no_hook_text())
    }

    fn len(&self) -> (count: usize) {
        0
    }

    fn levels(&self, at: usize) -> (levels: Vec<Level>) {
        Vec::new()
    }

    fn fire(&self, at: usize, entry: &Entry) -> (outcome: Result<(), String>) {
        Err("no hook at this place".to_owned())
    }
}

/// The hooks of `rest`, and `last` behind them.
pub struct HookChain<R: Hooks, H: Hook> {
    rest: R,
    last: H,
}

impl<R: Hooks, H: Hook> HookChain<R, H> {
    #[verifier::type_invariant]
    spec fn count_fits(&self) -> bool {
        self.rest.count() < usize::MAX
    }

    /// The hooks before the last one.
    pub closed spec fn rest_spec(&self) -> R {
        self.rest
    }

    /// The last hook.
    pub closed spec fn last_spec(&self) -> H {
        self.last
    }

    /// Puts `last` behind the hooks of `rest`.
    pub fn new(rest: R, last: H) -> (made: HookChain<R, H>)
        requires
            rest.count() < usize::MAX,
        ensures
            made.rest_spec() == rest,
            made.last_spec() == last,
    {
        HookChain { rest, last }
    }

    /// The hooks before the last one.
    pub fn rest(&self) -> (rest: &R)
        ensures
            *rest == self.rest_spec(),
    {
        &self.rest
    }

    /// The last hook.
    pub fn last(&self) -> (last: &H)
        ensures
            *last == self.last_spec(),
    {
        &self.last
    }
}

impl<R: Hooks, H: Hook> Hooks for HookChain<R, H> {
    open spec fn count(&self) -> nat {
        self.rest_spec().count() + 1
    }

    open spec fn declares(&self, at: int, levels: Seq<Level>) -> bool {
        if at == self.rest_spec().count() {
            self.last_spec().declares(levels)
        } else {
            at < self.rest_spec().count() && self.rest_spec().declares(at, levels)
        }
    }

    /// The last place gives what the last hook gives, and every other place
    /// what the hooks before it give for that place.
    open spec fn yields(&self, at: int, entry: EntryView, outcome: Result<(), Seq<char>>) -> bool {
        if at == self.rest_spec().count() {
            self.last_spec().yields(entry, outcome)
        } else {
            self.rest_spec().yields(at, entry, outcome)
        }
    }

    fn len(&self) -> (count: usize) {
        proof {
            use_type_invariant(self);
        }
        self.rest.len() + 1
    }

    fn levels(&self, at: usize) -> (levels: Vec<Level>) {
        if at == self.rest.len() {
            self.last.levels()
        } else {
            self.rest.levels(at)
        }
    }

    fn fire(&self, at: usize, entry: &Entry) -> (outcome: Result<(), String>) {
        if at == self.rest.len() {
            self.last.fire(entry)
        } else {
            self.rest.fire(at, entry)
        }
    }
}

/// All levels, from the least to the most severe.
pub open spec fn all_levels() -> Seq<Level> {
    seq![
        Level::Trace,
        Level::Debug,
        Level::Info,
        Level::Warn,
        Level::Error,
        Level::Fatal,
        Level::Panic,
    ]
}

/// Whether `level` is among `levels`.
pub fn contains_level(levels: &Vec<Level>, level: Level) -> (held: bool)
    ensures
        held == levels@.contains(level),
{
    let mut at: usize = 0;
    while at < levels.len()
        invariant
            at <= levels.len(),
            forall|i: int| 0 <= i < at ==> levels@[i] != level,
        decreases levels.len() - at,
    {
        if levels[at] == level {
            return true;
        }
        at += 1;
    }
    false
}

} // verus!
