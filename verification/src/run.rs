//! Runs of a dispatch: the states it goes through, and the synchronous way
//! to its end.

use vstd::pervasive::unreached;
use vstd::prelude::*;
use crate::formatter::Formatter;
use crate::hook::Hooks;
use crate::laws::{
    lemma_done_stays_done, lemma_failed_write_fires_no_hook,
    lemma_hook_failures_do_not_fail_the_dispatch,
};
use crate::logger::{hook_failure_text, post_action, Dispatch, LogError, Logger, PostAction};

verus! {

/// The state at place `k + 1` of `states` may follow the state at place `k`
/// once the outcome at place `k` is known.
pub open spec fn is_step<F: Formatter, H: Hooks>(
    logger: Logger<F, H>,
    states: Seq<Dispatch>,
    outcomes: Seq<Result<(), String>>,
    k: int,
) -> bool {
    exists|report: Option<Seq<char>>| #[trigger]
        logger.resumes(states[k], outcomes[k], states[k + 1], report)
}

/// `states` are the states that one dispatch went through, from one of them
/// on, and `outcomes` are the outcomes of the work that they asked for:
/// the outcome at place `k` is that of the work that the state at place `k`
/// asked for.
pub open spec fn is_run<F: Formatter, H: Hooks>(
    logger: Logger<F, H>,
    states: Seq<Dispatch>,
    outcomes: Seq<Result<(), String>>,
) -> bool {
    &&& states.len() == outcomes.len() + 1
    &&& forall|k: int| 0 <= k < outcomes.len() ==> #[trigger] is_step(logger, states, outcomes, k)
}

/// The places of the hooks that the first `upto` states ask to be fired, in
/// the order in which they ask.
pub open spec fn fire_places(states: Seq<Dispatch>, upto: nat) -> Seq<usize>
    decreases upto,
{
    if upto == 0 || upto > states.len() {
        Seq::<usize>::empty()
    } else {
        let before = fire_places(states, (upto - 1) as nat);
        match states[upto - 1] {
            Dispatch::Fire { hook, .. } => before.push(hook),
            _ => before,
        }
    }
}

/// The lines that report the hooks that failed among the first `upto` steps
/// of a run, in the order in which they failed.
pub open spec fn reports_of(
    states: Seq<Dispatch>,
    outcomes: Seq<Result<(), String>>,
    upto: nat,
) -> Seq<Seq<char>>
    decreases upto,
{
    if upto == 0 || upto > outcomes.len() || upto > states.len() {
        Seq::<Seq<char>>::empty()
    } else {
        let before = reports_of(states, outcomes, (upto - 1) as nat);
        match (states[upto - 1], outcomes[upto - 1]) {
            (Dispatch::Fire { .. }, Err(why)) => before.push(hook_failure_text(why@)),
            _ => before,
        }
    }
}

/// The text of a line, where there is one.
pub open spec fn line_text(line: Option<String>) -> Option<Seq<char>> {
    match line {
        Some(text) => Some(text@),
        None => None,
    }
}

/// The texts of some lines.
pub open spec fn texts(lines: Seq<String>) -> Seq<Seq<char>> {
    Seq::new(lines.len(), |i: int| lines[i]@)
}

/// How far a dispatch in the state `state` is from its end, at most.
pub open spec fn distance(state: Dispatch, count: nat) -> nat {
    match state {
        Dispatch::Write { .. } => count + 1,
        Dispatch::Fire { hook, .. } => if hook < count {
            (count - hook) as nat
        } else {
            1
        },
        Dispatch::Done(_) => 0,
    }
}

/// How a dispatch ended that was driven to its end without a pause.
#[derive(Debug)]
pub struct Conclusion {
    /// The result of the dispatch.
    pub result: Result<PostAction, LogError>,
    /// The places of the hooks that were fired, in the order of firing.
    pub fired: Vec<usize>,
    /// One line for each hook that failed.
    pub reports: Vec<String>,
}

/// The places of hooks do not depend on the states that follow.
proof fn lemma_fire_places_of_prefix(states: Seq<Dispatch>, more: Dispatch, upto: nat)
    requires
        upto <= states.len(),
    ensures
        fire_places(states.push(more), upto) == fire_places(states, upto),
    decreases upto,
{
    if upto > 0 {
        lemma_fire_places_of_prefix(states, more, (upto - 1) as nat);
        assert(states.push(more)[upto - 1] == states[upto - 1]);
    }
}

/// The reports do not depend on the states and outcomes that follow.
proof fn lemma_reports_of_prefix(
    states: Seq<Dispatch>,
    outcomes: Seq<Result<(), String>>,
    more: Dispatch,
    outcome: Result<(), String>,
    upto: nat,
)
    requires
        upto <= outcomes.len(),
        upto <= states.len(),
    ensures
        reports_of(states.push(more), outcomes.push(outcome), upto) == reports_of(
            states,
            outcomes,
            upto,
        ),
    decreases upto,
{
    if upto > 0 {
        lemma_reports_of_prefix(states, outcomes, more, outcome, (upto - 1) as nat);
        assert(states.push(more)[upto - 1] == states[upto - 1]);
        assert(outcomes.push(outcome)[upto - 1] == outcomes[upto - 1]);
    }
}

/// A run goes on by one step.
proof fn lemma_run_goes_on<F: Formatter, H: Hooks>(
    logger: Logger<F, H>,
    states: Seq<Dispatch>,
    outcomes: Seq<Result<(), String>>,
    outcome: Result<(), String>,
    next: Dispatch,
    report: Option<Seq<char>>,
)
    requires
        is_run(logger, states, outcomes),
        logger.resumes(states.last(), outcome, next, report),
    ensures
        is_run(logger, states.push(next), outcomes.push(outcome)),
{
    let longer = states.push(next);
    let known = outcomes.push(outcome);
    assert forall|k: int| 0 <= k < known.len() implies #[trigger] is_step(
        logger,
        longer,
        known,
        k,
    ) by {
        if k < outcomes.len() {
            assert(is_step(logger, states, outcomes, k));
            let told = choose|told: Option<Seq<char>>| #[trigger]
                logger.resumes(states[k], outcomes[k], states[k + 1], told);
            assert(logger.resumes(longer[k], known[k], longer[k + 1], told));
        } else {
            assert(logger.resumes(longer[k], known[k], longer[k + 1], report));
        }
    }
}

impl<F: Formatter, H: Hooks> Logger<F, H> {
    /// Whether a dispatch that stands at `state` may end with `result` when
    /// it is driven to its end without a pause, with the hooks at `fired`
    /// fired on the way and the lines `reports` to report: there is a run
    /// from `state` to the end in which `written` is the outcome of the write,
    /// where `state` asks for one, and in which those hooks are asked for and
    /// those lines come up.
    pub open spec fn concludes(
        &self,
        state: Dispatch,
        written: Result<(), String>,
        result: Result<PostAction, LogError>,
        fired: Seq<usize>,
        reports: Seq<Seq<char>>,
    ) -> bool {
        exists|states: Seq<Dispatch>, outcomes: Seq<Result<(), String>>|
            {
                &&& #[trigger] is_run(*self, states, outcomes)
                &&& states[0] == state
                &&& state is Write ==> outcomes.len() > 0 && outcomes[0] == written
                &&& states.last() == Dispatch::Done(result)
                &&& fired == fire_places(states, states.len())
                &&& reports == reports_of(states, outcomes, outcomes.len())
            }
    }

    /// Drives a dispatch from `state` to its end from a synchronous call
    /// site. `written` is the outcome of the write that `state` asks for; it
    /// is not looked at where `state` asks for none. Every hook that is asked
    /// for is fired by its synchronous form, in the order of the hooks, and a
    /// hook that fails is reported and stops nothing.
    pub fn conclude<'a>(&self, state: Dispatch<'a>, written: Result<(), String>) -> (done:
        Conclusion)
        ensures
            self.concludes(state, written, done.result, done.fired@, texts(done.reports@)),
            state matches Dispatch::Done(result) ==> done.result == result && done.fired@.len()
                == 0,
            state matches Dispatch::Write { entry, .. } ==> done.result == match written {
                Ok(_) => Ok::<PostAction, LogError>(post_action(entry.level)),
                Err(why) => Err::<PostAction, LogError>(LogError::Write(why)),
            },
            state is Write && written is Err ==> done.fired@.len() == 0,
    {
        let mut fired: Vec<usize> = Vec::new();
        let mut reports: Vec<String> = Vec::new();
        let ghost mut states: Seq<Dispatch> = seq![state];
        let ghost mut outcomes: Seq<Result<(), String>> = Seq::empty();
        assert(fire_places(states, 0) =~= Seq::<usize>::empty());
        assert(texts(reports@) =~= reports_of(states, outcomes, 0));
        let mut current = match state {
            Dispatch::Write { entry, bytes } => {
                let (next, report) = self.resume(Dispatch::Write { entry, bytes }, written);
                proof {
                    lemma_run_goes_on(*self, states, outcomes, written, next, None);
                    lemma_reports_of_prefix(states, outcomes, next, written, 0);
                    lemma_fire_places_of_prefix(states, next, 0);
                    assert(fire_places(states.push(next), 1) =~= Seq::<usize>::empty());
                    assert(reports_of(states.push(next), outcomes.push(written), 1)
                        =~= Seq::<Seq<char>>::empty());
                    states = states.push(next);
                    outcomes = outcomes.push(written);
                }
                next
            },
            other => other,
        };
        let count = self.hooks().len();
        loop
            invariant
                count == self.hook_count(),
                is_run(*self, states, outcomes),
                states[0] == state,
                state is Write ==> outcomes.len() > 0 && outcomes[0] == written,
                states.last() == current,
                !(current is Write),
                fired@ == fire_places(states, (states.len() - 1) as nat),
                texts(reports@) == reports_of(states, outcomes, outcomes.len()),
            decreases distance(current, count as nat),
        {
            match current {
                Dispatch::Done(result) => {
                    proof {
                        assert(fire_places(states, states.len()) == fire_places(
                            states,
                            (states.len() - 1) as nat,
                        ));
                        if state is Done {
                            lemma_done_stays_done(*self, states, outcomes, states.len() - 1);
                            lemma_done_fires_nothing(
                                *self,
                                states,
                                outcomes,
                                (states.len() - 1) as nat,
                            );
                        }
                        if state is Write {
                            if written is Ok {
                                lemma_hook_failures_do_not_fail_the_dispatch(
                                    *self,
                                    states,
                                    outcomes,
                                    states.len() - 1,
                                );
                            } else {
                                lemma_failed_write_fires_no_hook(
                                    *self,
                                    states,
                                    outcomes,
                                    states.len() - 1,
                                );
                                lemma_failed_write_leaves_no_place(
                                    *self,
                                    states,
                                    outcomes,
                                    (states.len() - 1) as nat,
                                );
                            }
                        }
                    }
                    return Conclusion { result, fired, reports };
                },
                Dispatch::Fire { entry, hook } => {
                    let outcome = self.fire_hook(hook, &entry);
                    let ghost why = outcome;
                    let ghost before = fired@;
                    fired.push(hook);
                    let (next, report) = self.resume(Dispatch::Fire { entry, hook }, outcome);
                    let ghost told = line_text(report);
                    if let Some(line) = report {
                        reports.push(line);
                    }
                    proof {
                        lemma_run_goes_on(*self, states, outcomes, why, next, told);
                        lemma_fire_places_of_prefix(states, next, (states.len() - 1) as nat);
                        lemma_reports_of_prefix(states, outcomes, next, why, outcomes.len());
                        assert(fire_places(states.push(next), states.len()) == before.push(hook));
                        assert(texts(reports@) =~= reports_of(
                            states.push(next),
                            outcomes.push(why),
                            (outcomes.len() + 1) as nat,
                        ));
                        states = states.push(next);
                        outcomes = outcomes.push(why);
                    }
                    current = next;
                },
                Dispatch::Write { .. } => {
                    unreached::<()>();
                },
            }
        }
    }
}

/// A run that starts at its end fires no hook.
proof fn lemma_done_fires_nothing<F: Formatter, H: Hooks>(
    logger: Logger<F, H>,
    states: Seq<Dispatch>,
    outcomes: Seq<Result<(), String>>,
    upto: nat,
)
    requires
        is_run(logger, states, outcomes),
        states[0] is Done,
        upto <= states.len(),
    ensures
        fire_places(states, upto).len() == 0,
    decreases upto,
{
    if upto > 0 {
        lemma_done_fires_nothing(logger, states, outcomes, (upto - 1) as nat);
        lemma_done_stays_done(logger, states, outcomes, upto - 1);
    }
}

/// A run whose write fails asks for no hook.
proof fn lemma_failed_write_leaves_no_place<F: Formatter, H: Hooks>(
    logger: Logger<F, H>,
    states: Seq<Dispatch>,
    outcomes: Seq<Result<(), String>>,
    upto: nat,
)
    requires
        is_run(logger, states, outcomes),
        states[0] is Write,
        outcomes.len() > 0,
        outcomes[0] is Err,
        upto <= states.len(),
    ensures
        fire_places(states, upto).len() == 0,
    decreases upto,
{
    if upto > 0 {
        lemma_failed_write_leaves_no_place(logger, states, outcomes, (upto - 1) as nat);
        if upto > 1 {
            lemma_failed_write_fires_no_hook(logger, states, outcomes, upto - 1);
        }
    }
}

} // verus!
