//! What every run writes to the log, whatever the model and the tools say.
use vstd::prelude::*;

use crate::agent::model::{ModelEventView, ToolCallView, block_calls};
use crate::agent::turn::{
    RunView, Stage, TurnView, advanced, answered, assistant_content, begun, closed_step,
    from_ready, heard, heard_all, wants_tools,
};
use crate::json::Tree;
use crate::session::event::{BlockView, EventView};

verus! {

/// Where a log stands in the grammar of turns:
/// `TurnStart UserMessage (StepStart chunk* AssistantMessage (ToolCall ToolResult)* StepEnd)*
/// TurnEnd`, with a `WorkflowStep` wherever a tool reports one.
pub enum Place {
    /// No turn is open.
    Outside,
    /// A turn was opened.
    Opened { turn: Seq<char> },
    /// Between two steps; after the last one only the end may follow.
    Between { turn: Seq<char>, steps: nat, last: bool },
    /// The assistant is speaking.
    Speaking {
        turn: Seq<char>,
        steps: nat,
        step: Seq<char>,
        said: Seq<char>,
        message: Option<Seq<char>>,
    },
    /// The assistant has spoken, and `next` of its calls were answered.
    Acting { turn: Seq<char>, steps: nat, step: Seq<char>, calls: Seq<ToolCallView>, next: nat },
    /// A call was made and is not answered yet.
    Pending { turn: Seq<char>, steps: nat, step: Seq<char>, calls: Seq<ToolCallView>, next: nat },
}

/// Whether a chunk or message may carry an identity, given that of the chunks before it.
pub open spec fn same_message(message: Option<Seq<char>>, id: Seq<char>) -> bool {
    match message {
        Some(m) => m == id,
        None => true,
    }
}

/// The tool call that a block asks for.
pub open spec fn asked_for(b: BlockView) -> Option<ToolCallView> {
    match b {
        BlockView::ToolCall { id, name, arguments } => Some(ToolCallView { id, name, arguments }),
        _ => None,
    }
}

/// How many blocks stand in front of the calls in a message that says a text: one, which is that
/// text, or none where nothing was said.
pub open spec fn text_blocks(said: Seq<char>) -> int {
    if said.len() > 0 {
        1
    } else {
        0
    }
}

/// Whether content says a text and asks for calls: the text is the first block, where it is not
/// empty, whether or not calls follow, and every block behind it is a call.
pub open spec fn tells(content: Seq<BlockView>, said: Seq<char>) -> bool {
    &&& text_blocks(said) <= content.len()
    &&& said.len() > 0 ==> content[0] == (BlockView::Text { text: said })
    &&& forall|i: int|
        text_blocks(said) <= i < content.len() ==> asked_for(#[trigger] content[i]) is Some
}

/// The calls in content, behind its text.
pub open spec fn told_calls(content: Seq<BlockView>, said: Seq<char>) -> Seq<ToolCallView> {
    Seq::new(
        (content.len() - text_blocks(said)) as nat,
        |i: int| asked_for(content[text_blocks(said) + i])->0,
    )
}

/// The place after one more event, or nothing where the event may not stand there.
pub open spec fn next_place(p: Place, e: EventView) -> Option<Place> {
    match (p, e) {
        (_, EventView::WorkflowStep { .. }) => Some(p),
        (Place::Outside, EventView::TurnStart { turn_id }) => Some(Place::Opened { turn: turn_id }),
        (Place::Opened { turn }, EventView::UserMessage { .. }) => Some(
            Place::Between { turn, steps: 0, last: false },
        ),
        (Place::Between { turn, steps, last }, EventView::StepStart { step_id }) => if last {
            None
        } else {
            Some(
                Place::Speaking {
                    turn,
                    steps: steps + 1,
                    step: step_id,
                    said: Seq::empty(),
                    message: None,
                },
            )
        },
        (Place::Between { turn, .. }, EventView::TurnEnd { turn_id }) => if turn_id == turn {
            Some(Place::Outside)
        } else {
            None
        },
        (
            Place::Speaking { turn, steps, step, said, message },
            EventView::AssistantChunk { message_id, text },
        ) => if same_message(message, message_id) {
            Some(
                Place::Speaking { turn, steps, step, said: said + text, message: Some(message_id) },
            )
        } else {
            None
        },
        (
            Place::Speaking { turn, steps, step, said, message },
            EventView::ReasoningChunk { message_id, .. },
        ) => if same_message(message, message_id) {
            Some(Place::Speaking { turn, steps, step, said, message: Some(message_id) })
        } else {
            None
        },
        (
            Place::Speaking { turn, steps, step, said, message },
            EventView::AssistantMessage { message_id, content },
        ) => if same_message(message, message_id) && tells(content, said) {
            Some(Place::Acting { turn, steps, step, calls: told_calls(content, said), next: 0 })
        } else {
            None
        },
        (
            Place::Acting { turn, steps, step, calls, next },
            EventView::ToolCall { tool_call_id, tool_name, arguments },
        ) => if next < calls.len() && calls[next as int] == (ToolCallView {
            id: tool_call_id,
            name: tool_name,
            arguments,
        }) {
            Some(Place::Pending { turn, steps, step, calls, next })
        } else {
            None
        },
        (
            Place::Pending { turn, steps, step, calls, next },
            EventView::ToolResult { tool_call_id, .. },
        ) => if next < calls.len() && calls[next as int].id == tool_call_id {
            Some(Place::Acting { turn, steps, step, calls, next: next + 1 })
        } else {
            None
        },
        (Place::Acting { turn, steps, step, calls, next }, EventView::StepEnd { step_id }) => if step_id
            == step && (next == 0 || next == calls.len()) {
            Some(Place::Between { turn, steps, last: next == 0 })
        } else {
            None
        },
        _ => None,
    }
}

/// Where a log stands that begins outside a turn, or nothing where it is no such log.
pub open spec fn place(log: Seq<EventView>) -> Option<Place>
    decreases log.len(),
{
    if log.len() == 0 {
        Some(Place::Outside)
    } else {
        match place(log.drop_last()) {
            Some(p) => next_place(p, log.last()),
            None => None,
        }
    }
}

/// Whether a turn is where the log says that it is.
pub open spec fn fits(p: Option<Place>, t: TurnView) -> bool {
    match t.stage {
        Stage::Ready => p == Some(
            Place::Between { turn: t.turn_id, steps: t.steps, last: false },
        ),
        Stage::Listening => p matches Some(Place::Speaking { turn, steps, step, said, message })
            && turn == t.turn_id && steps == t.steps && step == t.step_id && said == t.text
            && same_message(message, t.message_id) && t.next_call == 0,
        Stage::Calling => p == Some(
            Place::Acting {
                turn: t.turn_id,
                steps: t.steps,
                step: t.step_id,
                calls: t.calls,
                next: t.next_call,
            },
        ) && t.next_call <= t.calls.len() && t.calls.len() > 0,
        Stage::Waiting => p == Some(
            Place::Pending {
                turn: t.turn_id,
                steps: t.steps,
                step: t.step_id,
                calls: t.calls,
                next: t.next_call,
            },
        ) && t.next_call < t.calls.len(),
        Stage::Closing => p == Some(
            Place::Between { turn: t.turn_id, steps: t.steps, last: true },
        ),
        Stage::Ended => p == Some(Place::Outside),
    }
}

/// What can happen to a run.
pub enum Move {
    /// It goes on by itself; identities are made from the given number on.
    Advance { ids: u64 },
    /// The model says something.
    Hear { event: ModelEventView },
    /// The model falls silent.
    EndOfStream,
    /// A tool answers.
    Answer { output: Tree, is_error: bool },
    /// A tool reports a phase of the workflow.
    Report { mode: Seq<char>, step: Seq<char> },
}

/// The run after one move.
pub open spec fn moved(r: RunView, m: Move, max_steps: nat) -> RunView {
    match m {
        Move::Advance { ids } => advanced(r, ids, max_steps),
        Move::Hear { event } => heard(r, event),
        Move::EndOfStream => heard_all(r),
        Move::Answer { output, is_error } => answered(r, output, is_error),
        Move::Report { mode, step } => RunView {
            log: r.log.push(EventView::WorkflowStep { mode, step }),
            ..r
        },
    }
}

/// The run after any number of moves.
pub open spec fn after_moves(r: RunView, moves: Seq<Move>, max_steps: nat) -> RunView
    decreases moves.len(),
{
    if moves.len() == 0 {
        r
    } else {
        moved(after_moves(r, moves.drop_last(), max_steps), moves.last(), max_steps)
    }
}

proof fn lemma_place_push(log: Seq<EventView>, from: int, e: EventView)
    requires
        0 <= from <= log.len(),
    ensures
        place(log.push(e).skip(from)) == (match place(log.skip(from)) {
            Some(p) => next_place(p, e),
            None => None,
        }),
{
    assert(log.push(e).skip(from) =~= log.skip(from).push(e));
    assert(log.skip(from).push(e).drop_last() =~= log.skip(from));
}

proof fn lemma_calls_of_content(text: Seq<char>, calls: Seq<ToolCallView>)
    ensures
        tells(assistant_content(text, calls), text),
        told_calls(assistant_content(text, calls), text) == calls,
{
    let content = assistant_content(text, calls);
    let from = text_blocks(text);
    assert(content.len() == from + calls.len());
    assert forall|i: int| from <= i < content.len() implies asked_for(#[trigger] content[i])
        == Some(calls[i - from]) by {}
    assert(told_calls(content, text) =~= calls);
}

/// Content that says a text and asks for calls is the content of a message of that text and those
/// calls, and nothing else is: the text and the calls can be read off the blocks.
pub proof fn lemma_content_is_read_off(
    content: Seq<BlockView>,
    said: Seq<char>,
    calls: Seq<ToolCallView>,
)
    ensures
        content == assistant_content(said, calls) <==> tells(content, said) && told_calls(
            content,
            said,
        ) == calls,
        tells(content, said) ==> told_calls(content, said) == block_calls(content),
{
    lemma_calls_of_content(said, calls);
    if tells(content, said) {
        let own = told_calls(content, said);
        let from = text_blocks(said);
        let whole = assistant_content(said, own);
        assert(whole.len() == content.len());
        assert forall|i: int| 0 <= i < content.len() implies whole[i] == content[i] by {
            if i >= from {
                assert(asked_for(content[i]) is Some);
                assert(own[i - from] == asked_for(content[from + (i - from)])->0);
            }
        }
        assert(whole =~= content);
        lemma_told_are_block_calls(content, said);
    }
}

proof fn lemma_told_are_block_calls(content: Seq<BlockView>, said: Seq<char>)
    requires
        tells(content, said),
    ensures
        told_calls(content, said) == block_calls(content),
    decreases content.len(),
{
    let from = text_blocks(said);
    if content.len() == 0 {
        assert(told_calls(content, said) =~= block_calls(content));
    } else if content.len() == from {
        assert(content.last() == content[0]);
        let none = content.drop_last();
        assert(none.len() == 0);
        assert(block_calls(none) =~= Seq::empty());
        assert(told_calls(content, said) =~= Seq::empty());
    } else {
        let front = content.drop_last();
        assert forall|i: int| from <= i < front.len() implies asked_for(#[trigger] front[i])
            is Some by {
            assert(front[i] == content[i]);
        }
        lemma_told_are_block_calls(front, said);
        let last = content[content.len() - 1];
        assert(content.last() == last);
        assert(asked_for(last) is Some);
        assert(told_calls(content, said) =~= told_calls(front, said).push(asked_for(last)->0));
    }
}

/// Whether a run that began behind `from` events is where its log says, within its budget.
pub open spec fn in_grammar(r: RunView, from: int, max_steps: nat) -> bool {
    &&& 0 <= from <= r.log.len()
    &&& fits(place(r.log.skip(from)), r.turn)
    &&& r.turn.steps <= max_steps
}

proof fn lemma_from_ready(r: RunView, from: int, ids: u64, max_steps: nat)
    requires
        in_grammar(r, from, max_steps),
        r.turn.stage == Stage::Ready,
    ensures
        in_grammar(from_ready(r, ids, max_steps), from, max_steps),
        r.log.is_prefix_of(from_ready(r, ids, max_steps).log),
{
    let after = from_ready(r, ids, max_steps);
    lemma_place_push(r.log, from, after.log.last());
    assert(r.log =~= after.log.subrange(0, r.log.len() as int));
}

/// One move keeps a run in the grammar and within its budget, and never changes what is logged.
pub proof fn lemma_move(r: RunView, from: int, m: Move, max_steps: nat)
    requires
        in_grammar(r, from, max_steps),
    ensures
        in_grammar(moved(r, m, max_steps), from, max_steps),
        r.log.is_prefix_of(moved(r, m, max_steps).log),
{
    let after = moved(r, m, max_steps);
    match m {
        Move::Advance { ids } => {
            match r.turn.stage {
                Stage::Ready => {
                    lemma_from_ready(r, from, ids, max_steps);
                },
                Stage::Calling => {
                    if r.turn.next_call < r.turn.calls.len() {
                        lemma_place_push(r.log, from, after.log.last());
                        assert(r.log =~= after.log.subrange(0, r.log.len() as int));
                    } else {
                        let mid = closed_step(r, Stage::Ready);
                        lemma_place_push(r.log, from, mid.log.last());
                        lemma_from_ready(mid, from, ids, max_steps);
                        assert(r.log =~= mid.log.subrange(0, r.log.len() as int));
                        assert(r.log =~= after.log.subrange(0, r.log.len() as int));
                    }
                },
                Stage::Closing => {
                    lemma_place_push(r.log, from, after.log.last());
                    assert(r.log =~= after.log.subrange(0, r.log.len() as int));
                },
                _ => {
                    assert(r.log =~= after.log.subrange(0, r.log.len() as int));
                },
            }
        },
        Move::Hear { event } => {
            if r.turn.stage == Stage::Listening && (event is Text || event is Reasoning) {
                lemma_place_push(r.log, from, after.log.last());
            }
            assert(r.log =~= after.log.subrange(0, r.log.len() as int));
        },
        Move::EndOfStream => {
            if r.turn.stage == Stage::Listening {
                let content = assistant_content(r.turn.text, r.turn.calls);
                let said = RunView {
                    turn: TurnView { stage: Stage::Calling, ..r.turn },
                    log: r.log.push(
                        EventView::AssistantMessage { message_id: r.turn.message_id, content },
                    ),
                };
                lemma_calls_of_content(r.turn.text, r.turn.calls);
                lemma_place_push(r.log, from, said.log.last());
                if !wants_tools(r.turn) {
                    lemma_place_push(said.log, from, after.log.last());
                }
            }
            assert(r.log =~= after.log.subrange(0, r.log.len() as int));
        },
        Move::Answer { output, is_error } => {
            if r.turn.stage == Stage::Waiting {
                lemma_place_push(r.log, from, after.log.last());
            }
            assert(r.log =~= after.log.subrange(0, r.log.len() as int));
        },
        Move::Report { mode, step } => {
            lemma_place_push(r.log, from, after.log.last());
            assert(r.log =~= after.log.subrange(0, r.log.len() as int));
        },
    }
}

/// Whatever the model says and the tools answer, and in whatever order they are heard: what a run
/// writes is a log of the grammar, of at most `max_steps` steps, behind what was logged before.
/// Steps, calls and answers carry matching identities, the calls are made in the order in which
/// the assistant asked for them, and its message is what it said piece by piece. A run that has
/// ended has closed its turn.
pub proof fn lemma_every_run_is_in_grammar(
    log: Seq<EventView>,
    ids: u64,
    input: Seq<char>,
    moves: Seq<Move>,
    max_steps: nat,
)
    ensures
        ({
            let r = after_moves(begun(log, ids, input), moves, max_steps);
            &&& log.is_prefix_of(r.log)
            &&& in_grammar(r, log.len() as int, max_steps)
            &&& r.turn.stage == Stage::Ended ==> place(r.log.skip(log.len() as int)) == Some(
                Place::Outside,
            )
        }),
    decreases moves.len(),
{
    let first = begun(log, ids, input);
    let from = log.len() as int;
    if moves.len() == 0 {
        let opened = log.push(first.log[from]);
        assert(log.skip(from) =~= Seq::empty());
        lemma_place_push(log, from, first.log[from]);
        lemma_place_push(opened, from, first.log.last());
        assert(first.log =~= opened.push(first.log.last()));
        assert(log =~= first.log.subrange(0, from));
    } else {
        lemma_every_run_is_in_grammar(log, ids, input, moves.drop_last(), max_steps);
        let r = after_moves(first, moves.drop_last(), max_steps);
        let after = after_moves(first, moves, max_steps);
        lemma_move(r, from, moves.last(), max_steps);
        assert(log =~= r.log.subrange(0, from));
        assert(r.log =~= after.log.subrange(0, r.log.len() as int));
        assert(log =~= after.log.subrange(0, from));
    }
}

} // verus!
