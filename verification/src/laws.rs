//! What holds of every dispatch and of every rendering, proved from the
//! contracts of the logger and of the formatters.

use vstd::prelude::*;
use vstd::utf8::encode_utf8;
use crate::color::painted;
use crate::entry::EntryView;
use crate::formatter::{
    entry_document, entry_text, fields_text, json_renders, text_line, text_renders, text_value,
    FormatError, Formatter,
};
use crate::hook::Hooks;
use crate::level::Level;
use crate::logger::{post_action, Dispatch, LogError, Logger, PostAction};
use crate::run::{fire_places, is_run, is_step, reports_of};
use crate::time::{formatted_time, rfc3339_zulu_time, Timestamp};
use crate::value::Json;

verus! {

/// How often the place `hook` occurs among `places`.
pub open spec fn times(places: Seq<usize>, hook: int) -> nat
    decreases places.len(),
{
    if places.len() == 0 {
        0
    } else {
        times(places.drop_last(), hook) + if places.last() == hook {
            1nat
        } else {
            0nat
        }
    }
}

/// How often the first `upto` states of a run ask for the hook at place
/// `hook` to be fired.
pub open spec fn fired(states: Seq<Dispatch>, hook: int, upto: nat) -> nat {
    times(fire_places(states, upto), hook)
}

/// One more state adds one firing where it asks for the hook, and none else.
proof fn lemma_fired_step(states: Seq<Dispatch>, hook: int, upto: nat)
    requires
        0 < upto <= states.len(),
    ensures
        fired(states, hook, upto) == fired(states, hook, (upto - 1) as nat) + if states[upto
            - 1] matches Dispatch::Fire { hook: place, .. } && place == hook {
            1nat
        } else {
            0nat
        },
{
    let before = fire_places(states, (upto - 1) as nat);
    if let Dispatch::Fire { hook: place, .. } = states[upto - 1] {
        assert(before.push(place).drop_last() =~= before);
    }
}

/// The number of hooks that a dispatch in the state `state` has dealt with.
pub open spec fn dealt_with(state: Dispatch, count: nat) -> int {
    match state {
        Dispatch::Write { .. } => 0,
        Dispatch::Fire { hook, .. } => hook + 1,
        Dispatch::Done(_) => count as int,
    }
}

/// In a run that starts with a write that succeeds, every later state fires a
/// hook with the entry that was written or is done with success, and a hook
/// whose answer to the level of the entry is always the same has been fired
/// once where it asked for the level and its turn has come, and not at all
/// else.
proof fn lemma_run_prefix<F: Formatter, H: Hooks>(
    logger: Logger<F, H>,
    states: Seq<Dispatch>,
    outcomes: Seq<Result<(), String>>,
    hook: int,
    asked: bool,
    k: int,
)
    requires
        is_run(logger, states, outcomes),
        states[0] is Write,
        outcomes.len() > 0,
        outcomes[0] is Ok,
        0 <= hook < logger.hook_count(),
        forall|levels: Seq<Level>| #[trigger]
            logger.hooks_spec().declares(hook, levels) ==> (levels.contains(
                states[0]->Write_entry.level,
            ) <==> asked),
        1 <= k < states.len(),
    ensures
        states[k] is Fire || states[k] is Done,
        states[k] matches Dispatch::Fire { entry, hook: place } ==> entry == states[0]->Write_entry
            && place < logger.hook_count(),
        states[k] matches Dispatch::Done(result) ==> result == Ok::<PostAction, LogError>(
            post_action(states[0]->Write_entry.level),
        ),
        fired(states, hook, (k + 1) as nat) == if asked && hook < dealt_with(
            states[k],
            logger.hook_count(),
        ) {
            1nat
        } else {
            0nat
        },
    decreases k,
{
    let entry = states[0]->Write_entry;
    let count = logger.hook_count();
    assert(is_step(logger, states, outcomes, k - 1));
    let report = choose|report: Option<Seq<char>>| #[trigger]
        logger.resumes(states[k - 1], outcomes[k - 1], states[k], report);
    assert(logger.resumes(states[k - 1], outcomes[k - 1], states[k], report));
    lemma_fired_step(states, hook, (k + 1) as nat);
    if k == 1 {
        assert(fired(states, hook, 1) == 0) by {
            lemma_fired_step(states, hook, 1);
        }
        assert(logger.advances(entry, 0, states[1]));
    } else {
        lemma_run_prefix(logger, states, outcomes, hook, asked, k - 1);
    }
    let before = states[k - 1];
    let from = dealt_with(before, count);
    assert(fired(states, hook, k as nat) == if asked && hook < from {
        1nat
    } else {
        0nat
    });
    if before is Done {
        assert(states[k] == before);
    } else {
        assert(logger.advances(entry, from, states[k]));
        if states[k] is Fire {
            let place = states[k]->Fire_hook as int;
            if from <= hook && hook < place {
                assert(logger.declines(hook, entry.level));
            }
            if hook == place {
                assert(logger.wants(hook, entry.level));
            }
        } else {
            if from <= hook {
                assert(logger.declines(hook, entry.level));
            }
        }
    }
}

/// An entry below the minimum level of the logger produces no output and
/// fires no hook: its dispatch is done at once, and with success, and however
/// it is driven on, it never asks for a write or for a hook.
pub proof fn lemma_dropped_entry_is_silent<F: Formatter, H: Hooks>(
    logger: Logger<F, H>,
    now: Timestamp,
    level: Level,
    message: Seq<char>,
    fields: Seq<(Seq<char>, Json)>,
    states: Seq<Dispatch>,
    outcomes: Seq<Result<(), String>>,
    k: int,
)
    requires
        level.below(logger.min_level()),
        logger.starts(now, level, message, fields, states[0]),
        is_run(logger, states, outcomes),
        0 <= k < states.len(),
    ensures
        states[k] == Dispatch::Done(Ok::<PostAction, LogError>(PostAction::Return)),
    decreases k,
{
    if k > 0 {
        lemma_dropped_entry_is_silent(logger, now, level, message, fields, states, outcomes, k - 1);
        assert(is_step(logger, states, outcomes, k - 1));
    }
}

/// A hook is fired once for an entry whose level it asks for and never for an
/// entry of another level: in a run that starts with a write that succeeds
/// and that is driven to its end, a hook whose answer to the level of the
/// entry is always the same is fired exactly once where that answer holds the
/// level, and not at all where it does not.
pub proof fn lemma_hook_fires_once_when_asked<F: Formatter, H: Hooks>(
    logger: Logger<F, H>,
    states: Seq<Dispatch>,
    outcomes: Seq<Result<(), String>>,
    hook: int,
    asked: bool,
)
    requires
        is_run(logger, states, outcomes),
        states[0] is Write,
        outcomes.len() > 0,
        outcomes[0] is Ok,
        states.last() is Done,
        0 <= hook < logger.hook_count(),
        forall|levels: Seq<Level>| #[trigger]
            logger.hooks_spec().declares(hook, levels) ==> (levels.contains(
                states[0]->Write_entry.level,
            ) <==> asked),
    ensures
        fired(states, hook, states.len()) == if asked {
            1nat
        } else {
            0nat
        },
{
    lemma_run_prefix(logger, states, outcomes, hook, asked, states.len() - 1);
}

/// No hook can make a dispatch fail, and none is skipped because another
/// failed: once the record is written, the dispatch ends with success and
/// with the consequence of the entry's level, whatever outcomes the hooks
/// have, and every hook fired on the way is fired with the entry that was
/// written.
pub proof fn lemma_hook_failures_do_not_fail_the_dispatch<F: Formatter, H: Hooks>(
    logger: Logger<F, H>,
    states: Seq<Dispatch>,
    outcomes: Seq<Result<(), String>>,
    k: int,
)
    requires
        is_run(logger, states, outcomes),
        states[0] is Write,
        outcomes.len() > 0,
        outcomes[0] is Ok,
        1 <= k < states.len(),
    ensures
        states[k] matches Dispatch::Fire { entry, hook } ==> entry == states[0]->Write_entry,
        states[k] matches Dispatch::Done(result) ==> result == Ok::<PostAction, LogError>(
            post_action(states[0]->Write_entry.level),
        ),
        !(states[k] is Write),
    decreases k,
{
    let entry = states[0]->Write_entry;
    assert(is_step(logger, states, outcomes, k - 1));
    if k > 1 {
        lemma_hook_failures_do_not_fail_the_dispatch(logger, states, outcomes, k - 1);
    }
}

/// A dispatch that is done stays done, with the same result, however it is
/// driven on.
pub proof fn lemma_done_stays_done<F: Formatter, H: Hooks>(
    logger: Logger<F, H>,
    states: Seq<Dispatch>,
    outcomes: Seq<Result<(), String>>,
    k: int,
)
    requires
        is_run(logger, states, outcomes),
        states[0] is Done,
        0 <= k < states.len(),
    ensures
        states[k] == states[0],
    decreases k,
{
    if k > 0 {
        lemma_done_stays_done(logger, states, outcomes, k - 1);
        assert(is_step(logger, states, outcomes, k - 1));
    }
}

/// A write that fails ends the dispatch with that failure, and no hook is
/// fired for the record that was not written.
pub proof fn lemma_failed_write_fires_no_hook<F: Formatter, H: Hooks>(
    logger: Logger<F, H>,
    states: Seq<Dispatch>,
    outcomes: Seq<Result<(), String>>,
    k: int,
)
    requires
        is_run(logger, states, outcomes),
        states[0] is Write,
        outcomes.len() > 0,
        outcomes[0] is Err,
        1 <= k < states.len(),
    ensures
        states[k] == Dispatch::Done(
            Err::<PostAction, LogError>(LogError::Write(outcomes[0]->Err_0)),
        ),
    decreases k,
{
    assert(is_step(logger, states, outcomes, k - 1));
    if k > 1 {
        lemma_failed_write_fires_no_hook(logger, states, outcomes, k - 1);
    }
}

/// `part` stands in `whole` from place `start` on.
pub open spec fn occurs_at(whole: Seq<char>, part: Seq<char>, start: int) -> bool {
    &&& 0 <= start
    &&& start + part.len() <= whole.len()
    &&& whole.subrange(start, start + part.len()) == part
}

/// `part` stands somewhere in `whole`, unbroken.
pub open spec fn holds(whole: Seq<char>, part: Seq<char>) -> bool {
    exists|start: int| occurs_at(whole, part, start)
}

/// A field as a line of text shows it.
pub open spec fn field_text(field: (Seq<char>, Json)) -> Seq<char> {
    " "@ + field.0 + "="@ + text_value(field.1)
}

/// A text that stands in `whole` stands in `head + whole + tail` too.
proof fn lemma_holds_inside(head: Seq<char>, whole: Seq<char>, tail: Seq<char>, part: Seq<char>)
    requires
        holds(whole, part),
    ensures
        holds(head + whole + tail, part),
{
    let start = choose|start: int| occurs_at(whole, part, start);
    let all = head + whole + tail;
    assert(all.subrange(head.len() + start, head.len() + start + part.len()) =~= whole.subrange(
        start,
        start + part.len(),
    ));
    assert(occurs_at(all, part, head.len() + start));
}

/// The field at place `at` stands in the text of the first `count` fields
/// once `count` is past it.
proof fn lemma_fields_text_holds_field(fields: Seq<(Seq<char>, Json)>, at: int, count: nat)
    requires
        0 <= at < count <= fields.len(),
    ensures
        holds(fields_text(fields, count), field_text(fields[at])),
    decreases count,
{
    let before = fields_text(fields, (count - 1) as nat);
    let last = field_text(fields[count - 1]);
    assert(fields_text(fields, count) =~= before + last);
    if at == count - 1 {
        assert((before + last).subrange(before.len() as int, (before.len() + last.len()) as int)
            =~= last);
        assert(occurs_at(before + last, last, before.len() as int));
    } else {
        lemma_fields_text_holds_field(fields, at, (count - 1) as nat);
        lemma_holds_inside(Seq::<char>::empty(), before, last, field_text(fields[at]));
        assert(Seq::<char>::empty() + before + last =~= before + last);
    }
}

/// A line of text holds the message, and every field as its key, an equals
/// sign and its value.
pub proof fn lemma_text_line_holds_message_and_fields(
    time: Seq<char>,
    level: Seq<char>,
    message: Seq<char>,
    fields: Seq<(Seq<char>, Json)>,
)
    ensures
        holds(text_line(time, level, message, fields), message),
        forall|at: int|
            0 <= at < fields.len() ==> holds(
                text_line(time, level, message, fields),
                field_text(#[trigger] fields[at]),
            ),
{
    let line = text_line(time, level, message, fields);
    let head = "["@ + time + "] ["@ + level + "] "@;
    let all = fields_text(fields, fields.len());
    assert(line =~= head + message + (all + "\n"@));
    assert(message.subrange(0, message.len() as int) =~= message);
    assert(occurs_at(message, message, 0));
    lemma_holds_inside(head, message, all + "\n"@, message);
    assert forall|at: int| 0 <= at < fields.len() implies holds(
        line,
        field_text(#[trigger] fields[at]),
    ) by {
        lemma_fields_text_holds_field(fields, at, fields.len());
        lemma_holds_inside(head + message, all, "\n"@, field_text(fields[at]));
        assert(line =~= head + message + all + "\n"@);
    }
}

/// The text formatter and the JSON formatter render the same message and the
/// same fields. What the text formatter gives for an entry is a line that
/// holds the message of the entry and each of its fields; what the JSON
/// formatter gives for the same entry is the text of an object whose member
/// `message` is that message and whose member `fields` is the object of
/// those fields.
pub proof fn lemma_formatters_render_the_same_entry(
    pattern: Seq<char>,
    colors: bool,
    pretty: bool,
    entry: EntryView,
    text: Seq<u8>,
    json: Seq<u8>,
)
    requires
        text_renders(pattern, colors, entry, Ok::<Seq<u8>, FormatError>(text)),
        json_renders(pretty, entry, Ok::<Seq<u8>, FormatError>(json)),
    ensures
        exists|time: Seq<char>, level: Seq<char>|
            {
                let line = #[trigger] text_line(time, level, entry.message, entry.fields);
                &&& text == encode_utf8(line)
                &&& holds(line, entry.message)
                &&& forall|at: int|
                    0 <= at < entry.fields.len() ==> holds(
                        line,
                        field_text(#[trigger] entry.fields[at]),
                    )
            },
        exists|time: Seq<char>|
            {
                let document = #[trigger] entry_document(entry, time);
                &&& json == encode_utf8(entry_text(entry, time, pretty) + "\n"@)
                &&& document is Object
                &&& document->Object_0.len() == 4
                &&& document->Object_0[2] == ("message"@, Json::Text(entry.message))
                &&& document->Object_0[3] == ("fields"@, Json::Object(entry.fields))
            },
{
    let shown = formatted_time(entry.timestamp.secs, entry.timestamp.nanos, pattern);
    let time = shown->Some_0;
    let bare = entry.level.name();
    let colored = painted(bare, entry.level.tint_spec(), entry.level.emphasized_spec());
    let level = if text == encode_utf8(text_line(time, bare, entry.message, entry.fields)) {
        bare
    } else {
        colored
    };
    lemma_text_line_holds_message_and_fields(time, level, entry.message, entry.fields);
    assert(text == encode_utf8(text_line(time, level, entry.message, entry.fields)));
    let stamp = rfc3339_zulu_time(entry.timestamp.secs, entry.timestamp.nanos)->Some_0;
    let document = entry_document(entry, stamp);
    assert(document->Object_0[2] == ("message"@, Json::Text(entry.message)));
    assert(document->Object_0[3] == ("fields"@, Json::Object(entry.fields)));
}

/// A dispatch that is driven to its end without a pause fires a hook once
/// for an entry whose level the hook asks for, and never for an entry of
/// another level, and no hook makes it fail: where the record is written, a
/// hook whose answer to the level of the entry is always the same is among
/// the hooks fired exactly once where that answer holds the level, and not at
/// all where it does not, and the dispatch ends with success.
pub proof fn lemma_conclusion_fires_each_hook_once<F: Formatter, H: Hooks>(
    logger: Logger<F, H>,
    state: Dispatch,
    result: Result<PostAction, LogError>,
    places: Seq<usize>,
    reports: Seq<Seq<char>>,
    hook: int,
    asked: bool,
)
    requires
        state is Write,
        logger.concludes(state, Ok::<(), String>(()), result, places, reports),
        0 <= hook < logger.hook_count(),
        forall|levels: Seq<Level>| #[trigger]
            logger.hooks_spec().declares(hook, levels) ==> (levels.contains(
                state->Write_entry.level,
            ) <==> asked),
    ensures
        times(places, hook) == if asked {
            1nat
        } else {
            0nat
        },
        result == Ok::<PostAction, LogError>(post_action(state->Write_entry.level)),
{
    let (states, outcomes) = choose|states: Seq<Dispatch>, outcomes: Seq<Result<(), String>>|
        {
            &&& #[trigger] is_run(logger, states, outcomes)
            &&& states[0] == state
            &&& state is Write ==> outcomes.len() > 0 && outcomes[0] == Ok::<(), String>(())
            &&& states.last() == Dispatch::Done(result)
            &&& places == fire_places(states, states.len())
            &&& reports == reports_of(states, outcomes, outcomes.len())
        };
    lemma_hook_fires_once_when_asked(logger, states, outcomes, hook, asked);
    lemma_hook_failures_do_not_fail_the_dispatch(logger, states, outcomes, states.len() - 1);
}

} // verus!
