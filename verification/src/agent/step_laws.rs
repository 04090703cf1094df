//! What a step leaves in the log, told on the events and the blocks themselves.
use vstd::prelude::*;

use crate::agent::model::{FinishReason, ModelEventView, ToolCallView};
use crate::agent::turn::{
    Action, DefinitionView, RunView, Stage, action_fits, advanced, answered, asking, begun, heard,
    heard_all, ids_after,
};
use crate::json::Tree;
use crate::session::event::{BlockView, EventView};
use crate::session::ids::{IdKind, after, id_text, later};
use crate::session::log::SessionView;
use crate::tool::registry::Tool;

verus! {

/// The run after events of the completion, one behind the other.
pub open spec fn heard_each(r: RunView, events: Seq<ModelEventView>) -> RunView
    decreases events.len(),
{
    if events.len() == 0 {
        r
    } else {
        heard(heard_each(r, events.drop_last()), events.last())
    }
}

/// The text of the assistant's chunks in a log, put together.
pub open spec fn chunk_text(log: Seq<EventView>) -> Seq<char>
    decreases log.len(),
{
    if log.len() == 0 {
        Seq::empty()
    } else {
        match log.last() {
            EventView::AssistantChunk { text, .. } => chunk_text(log.drop_last()) + text,
            _ => chunk_text(log.drop_last()),
        }
    }
}

/// What the model said in events of the completion, put together.
pub open spec fn spoken(events: Seq<ModelEventView>) -> Seq<char>
    decreases events.len(),
{
    if events.len() == 0 {
        Seq::empty()
    } else {
        match events.last() {
            ModelEventView::Text(s) => spoken(events.drop_last()) + s,
            _ => spoken(events.drop_last()),
        }
    }
}

/// The calls that the model asked for in events of the completion, in order.
pub open spec fn requested(events: Seq<ModelEventView>) -> Seq<ToolCallView>
    decreases events.len(),
{
    if events.len() == 0 {
        Seq::empty()
    } else {
        match events.last() {
            ModelEventView::ToolCall(c) => requested(events.drop_last()).push(c),
            _ => requested(events.drop_last()),
        }
    }
}

/// The events that tell something while the model speaks: its text and its reasoning.
pub open spec fn utterances(events: Seq<ModelEventView>) -> Seq<ModelEventView>
    decreases events.len(),
{
    if events.len() == 0 {
        Seq::empty()
    } else if events.last() is Text || events.last() is Reasoning {
        utterances(events.drop_last()).push(events.last())
    } else {
        utterances(events.drop_last())
    }
}

/// The reason that was given last for the end of the completion.
pub open spec fn last_reason(events: Seq<ModelEventView>) -> FinishReason
    decreases events.len(),
{
    if events.len() == 0 {
        FinishReason::Stop
    } else {
        match events.last() {
            ModelEventView::Done(reason) => reason,
            _ => last_reason(events.drop_last()),
        }
    }
}

/// Whether an event of the log is the chunk for an event of the completion.
pub open spec fn chunk_of(logged: EventView, e: ModelEventView, id: Seq<char>) -> bool {
    match e {
        ModelEventView::Text(s) => logged == (EventView::AssistantChunk {
            message_id: id,
            text: s,
        }),
        ModelEventView::Reasoning(s) => logged == (EventView::ReasoningChunk {
            message_id: id,
            text: s,
        }),
        _ => false,
    }
}

proof fn lemma_listening(b: RunView, ids: u64, events: Seq<ModelEventView>)
    ensures
        ({
            let r = asking(b, ids);
            let h = heard_each(r, events);
            let told = utterances(events);
            &&& h.turn.stage == Stage::Listening
            &&& h.turn.message_id == r.turn.message_id
            &&& h.turn.step_id == r.turn.step_id
            &&& h.turn.turn_id == b.turn.turn_id
            &&& h.turn.next_call == 0
            &&& h.turn.text == spoken(events)
            &&& h.turn.calls == requested(events)
            &&& h.turn.finish == last_reason(events)
            &&& h.log.len() == b.log.len() + 1 + told.len()
            &&& h.log.take(b.log.len() as int) == b.log
            &&& h.log[b.log.len() as int] == (EventView::StepStart { step_id: r.turn.step_id })
            &&& forall|i: int|
                0 <= i < told.len() ==> chunk_of(
                    h.log[b.log.len() + 1 + i],
                    #[trigger] told[i],
                    r.turn.message_id,
                )
            &&& chunk_text(h.log.skip((b.log.len() + 1) as int)) == spoken(events)
        }),
    decreases events.len(),
{
    let r = asking(b, ids);
    let from = (b.log.len() + 1) as int;
    let h = heard_each(r, events);
    if events.len() == 0 {
        assert(h.log.take(b.log.len() as int) =~= b.log);
        assert(h.log.skip(from) =~= Seq::empty());
        assert(h.turn.text =~= spoken(events));
        assert(h.turn.calls =~= requested(events));
    } else {
        let front = events.drop_last();
        lemma_listening(b, ids, front);
        let p = heard_each(r, front);
        let e = events.last();
        if e is Text || e is Reasoning {
            assert(h.log.skip(from) =~= p.log.skip(from).push(h.log.last()));
            assert(h.log.skip(from).drop_last() =~= p.log.skip(from));
            assert(h.log =~= p.log.push(h.log.last()));
        } else {
            assert(h.log == p.log);
        }
        assert(h.log.take(b.log.len() as int) =~= b.log);
        let told = utterances(events);
        let before = utterances(front);
        assert forall|i: int| 0 <= i < told.len() implies chunk_of(
            h.log[from + i],
            #[trigger] told[i],
            r.turn.message_id,
        ) by {
            if i < before.len() {
                assert(told[i] == before[i]);
                assert(h.log[from + i] == p.log[from + i]);
            }
        }
    }
}

/// A step logs its start, then every piece of text and reasoning as it came, then one message. The
/// message has what was said as its first block, where anything was said and whether or not tools
/// are called, and behind it a block for each call, in order; what was said is the text of the
/// chunks. Then the calls are made, where the model ended for them, or the step ends.
pub proof fn lemma_message_is_what_was_heard(
    b: RunView,
    ids: u64,
    events: Seq<ModelEventView>,
)
    ensures
        ({
            let r = asking(b, ids);
            let h = heard_each(r, events);
            let e = heard_all(h);
            let at = h.log.len() as int;
            let said = chunk_text(h.log.skip((b.log.len() + 1) as int));
            let calls = requested(events);
            let texts: int = if said.len() > 0 {
                1
            } else {
                0
            };
            let goes_on = calls.len() > 0 && last_reason(events) == FinishReason::ToolCalls;
            &&& at == b.log.len() + 1 + utterances(events).len()
            &&& e.log.take(b.log.len() as int) == b.log
            &&& e.log[b.log.len() as int] == (EventView::StepStart {
                step_id: id_text(IdKind::Step, ids),
            })
            &&& forall|i: int|
                0 <= i < utterances(events).len() ==> chunk_of(
                    e.log[b.log.len() + 1 + i],
                    #[trigger] utterances(events)[i],
                    id_text(IdKind::Message, after(after(ids))),
                )
            &&& said == spoken(events)
            &&& e.log[at] matches EventView::AssistantMessage { message_id, content }
                && message_id == id_text(IdKind::Message, after(after(ids))) && content.len()
                == texts + calls.len() && (said.len() > 0 ==> content[0] == (BlockView::Text {
                text: said,
            })) && (forall|i: int|
                0 <= i < calls.len() ==> (#[trigger] content[texts + i] matches BlockView::ToolCall {
                    id,
                    name,
                    arguments,
                } && id == calls[i].id && name == calls[i].name && arguments
                    == calls[i].arguments))
            &&& goes_on ==> e.log.len() == at + 1 && e.turn.stage == Stage::Calling
            &&& !goes_on ==> e.log.len() == at + 2 && e.turn.stage == Stage::Closing
                && e.log[at + 1] == (EventView::StepEnd { step_id: id_text(IdKind::Step, ids) })
        }),
{
    lemma_listening(b, ids, events);
    let h = heard_each(asking(b, ids), events);
    let e = heard_all(h);
    assert(e.log.take(b.log.len() as int) =~= h.log.take(b.log.len() as int));
    assert forall|i: int| 0 <= i < utterances(events).len() implies chunk_of(
        e.log[b.log.len() + 1 + i],
        #[trigger] utterances(events)[i],
        id_text(IdKind::Message, after(after(ids))),
    ) by {
        assert(e.log[b.log.len() + 1 + i] == h.log[b.log.len() + 1 + i]);
    }
}

/// What is said and asked for does not depend on where a completion is cut.
pub proof fn lemma_heard_in_parts(a: Seq<ModelEventView>, b: Seq<ModelEventView>)
    ensures
        spoken(a + b) == spoken(a) + spoken(b),
        requested(a + b) == requested(a) + requested(b),
        utterances(a + b) == utterances(a) + utterances(b),
    decreases b.len(),
{
    if b.len() == 0 {
        assert(a + b =~= a);
        assert(spoken(a) + spoken(b) =~= spoken(a));
        assert(requested(a) + requested(b) =~= requested(a));
        assert(utterances(a) + utterances(b) =~= utterances(a));
    } else {
        lemma_heard_in_parts(a, b.drop_last());
        assert((a + b).drop_last() =~= a + b.drop_last());
        assert((a + b).last() == b.last());
        assert(spoken(a + b) =~= spoken(a) + spoken(b));
        assert(requested(a + b) =~= requested(a) + requested(b));
        assert(utterances(a + b) =~= utterances(a) + utterances(b));
    }
}

/// The run after tools answered, each in its turn: a call is made, then its answer comes.
pub open spec fn acted(
    r: RunView,
    answers: Seq<(Tree, bool)>,
    ids: u64,
    max_steps: nat,
) -> RunView
    decreases answers.len(),
{
    if answers.len() == 0 {
        r
    } else {
        let called = advanced(acted(r, answers.drop_last(), ids, max_steps), ids, max_steps);
        answered(called, answers.last().0, answers.last().1)
    }
}

/// The calls of a message are made in order, and each answer is logged behind its call and under
/// its identity, with the output and the mark that the tool gave.
pub proof fn lemma_each_call_is_answered(
    r: RunView,
    answers: Seq<(Tree, bool)>,
    ids: u64,
    max_steps: nat,
)
    requires
        r.turn.stage == Stage::Calling,
        r.turn.next_call + answers.len() <= r.turn.calls.len(),
    ensures
        ({
            let after_all = acted(r, answers, ids, max_steps);
            let n = r.log.len() as int;
            &&& after_all.turn.stage == Stage::Calling
            &&& after_all.turn.calls == r.turn.calls
            &&& after_all.turn.steps == r.turn.steps
            &&& after_all.turn.step_id == r.turn.step_id
            &&& after_all.turn.turn_id == r.turn.turn_id
            &&& after_all.turn.next_call == r.turn.next_call + answers.len()
            &&& after_all.log.len() == n + 2 * answers.len()
            &&& after_all.log.take(n) == r.log
            &&& forall|i: int|
                0 <= i < answers.len() ==> {
                    let call = r.turn.calls[r.turn.next_call + i];
                    &&& after_all.log[n + 2 * i] == (EventView::ToolCall {
                        tool_call_id: call.id,
                        tool_name: call.name,
                        arguments: call.arguments,
                    })
                    &&& after_all.log[n + 2 * i + 1] == (EventView::ToolResult {
                        tool_call_id: call.id,
                        output: (#[trigger] answers[i]).0,
                        is_error: answers[i].1,
                    })
                }
        }),
    decreases answers.len(),
{
    let n = r.log.len() as int;
    let after_all = acted(r, answers, ids, max_steps);
    if answers.len() == 0 {
        assert(after_all.log.take(n) =~= r.log);
    } else {
        let front = answers.drop_last();
        lemma_each_call_is_answered(r, front, ids, max_steps);
        let p = acted(r, front, ids, max_steps);
        let called = advanced(p, ids, max_steps);
        assert(called.log =~= p.log.push(called.log.last()));
        assert(after_all.log =~= called.log.push(after_all.log.last()));
        assert(after_all.log.take(n) =~= p.log.take(n));
        assert forall|i: int| 0 <= i < answers.len() implies {
            let call = r.turn.calls[r.turn.next_call + i];
            &&& after_all.log[n + 2 * i] == (EventView::ToolCall {
                tool_call_id: call.id,
                tool_name: call.name,
                arguments: call.arguments,
            })
            &&& after_all.log[n + 2 * i + 1] == (EventView::ToolResult {
                tool_call_id: call.id,
                output: (#[trigger] answers[i]).0,
                is_error: answers[i].1,
            })
        } by {
            if i < front.len() {
                assert(front[i] == answers[i]);
                assert(after_all.log[n + 2 * i] == p.log[n + 2 * i]);
                assert(after_all.log[n + 2 * i + 1] == p.log[n + 2 * i + 1]);
            } else {
                assert(i == front.len());
            }
        }
    }
}

/// Once every call of a step is answered the step ends, and the model is asked again while the
/// budget lasts; where it is spent the turn ends. A turn whose last step asked for nothing ends.
pub proof fn lemma_steps_follow_each_other(r: RunView, ids: u64, max_steps: nat)
    requires
        r.turn.stage == Stage::Closing || (r.turn.stage == Stage::Calling && r.turn.next_call
            == r.turn.calls.len()),
    ensures
        ({
            let e = advanced(r, ids, max_steps);
            let n = r.log.len() as int;
            let end = EventView::TurnEnd { turn_id: r.turn.turn_id };
            &&& e.log.take(n) == r.log
            &&& r.turn.stage == Stage::Closing ==> e.turn.stage == Stage::Ended && e.log.len() == n
                + 1 && e.log[n] == end
            &&& r.turn.stage == Stage::Calling ==> e.log.len() == n + 2 && e.log[n]
                == (EventView::StepEnd { step_id: r.turn.step_id })
            &&& r.turn.stage == Stage::Calling && r.turn.steps >= max_steps ==> e.turn.stage
                == Stage::Ended && e.log[n + 1] == end
            &&& r.turn.stage == Stage::Calling && r.turn.steps < max_steps ==> e.turn.stage
                == Stage::Listening && e.turn.steps == r.turn.steps + 1 && e.log[n + 1]
                == (EventView::StepStart { step_id: id_text(IdKind::Step, ids) })
        }),
{
    let e = advanced(r, ids, max_steps);
    assert(e.log.take(r.log.len() as int) =~= r.log);
}

/// A step takes identities of its own: the next number lies behind those of the step, of the listing of
/// its tools and of its message, and nothing else takes any.
pub proof fn lemma_steps_take_their_own_identities(r: RunView, ids: u64, max_steps: nat)
    requires
        ids <= u64::MAX - 3,
    ensures
        ({
            let e = advanced(r, ids, max_steps);
            let asks = r.turn.stage != Stage::Listening && e.turn.stage == Stage::Listening;
            &&& asks ==> ids_after(r, e, ids) == ids + 3 && e.turn.step_id == id_text(
                IdKind::Step,
                ids,
            ) && e.turn.message_id == id_text(IdKind::Message, (ids + 2) as u64)
            &&& !asks ==> ids_after(r, e, ids) == ids
        }),
{
    reveal_with_fuel(later, 4);
}

/// A tool is called with the call that the model asked for, under its identity, in the session of the
/// turn and in the workspace of that session. The model is asked where the turn listens to it, and
/// the report of a turn that ended is all of its log.
pub proof fn lemma_actions_are_of_the_turn<T: Tool>(
    a: Action,
    before: RunView,
    after_run: RunView,
    ids: u64,
    session: SessionView,
    d: DefinitionView,
    tools: Seq<(Seq<char>, T)>,
)
    requires
        action_fits(a, before, after_run, ids, session, d, tools),
    ensures
        a matches Action::Call(o) ==> o.call@ == before.turn.calls[before.turn.next_call as int]
            && o.context@.session_id == session.id && o.context@.cwd == session.workspace
            && o.context@.tool_call_id == o.call@.id && after_run.turn.stage == Stage::Waiting,
        a matches Action::Ask(q) ==> after_run.turn.stage == Stage::Listening && q@.model == d.model,
        a matches Action::Finish(report) ==> after_run.turn.stage == Stage::Ended
            && report.events.deep_view() == after_run.log,
        a is Wait ==> before.turn.stage == Stage::Listening || before.turn.stage == Stage::Waiting
            || before.turn.stage == Stage::Ended,
{
}

/// A turn opens with its mark and the user's input, as one text, behind what was logged before.
pub proof fn lemma_turn_opens_with_the_input(
    log: Seq<EventView>,
    ids: u64,
    input: Seq<char>,
    max_steps: nat,
)
    ensures
        ({
            let r = begun(log, ids, input);
            let n = log.len() as int;
            &&& r.log.len() == n + 2
            &&& r.log.take(n) == log
            &&& r.log[n] == (EventView::TurnStart { turn_id: id_text(IdKind::Turn, ids) })
            &&& r.log[n + 1] matches EventView::UserMessage { content, .. } && content.len() == 1
                && content[0] == (BlockView::Text { text: input })
            &&& max_steps > 0 ==> advanced(r, after(after(ids)), max_steps).turn.stage
                == Stage::Listening
        }),
{
    assert(begun(log, ids, input).log.take(log.len() as int) =~= log);
}

} // verus!
