//! What the command line reads of an answer, shows of a session and takes from the keys.
use vstd::prelude::*;
use vstd::string::*;

use crate::agent::model::{FinishReason, ModelEventView};
use crate::cli::http::{
    CompletionView, calls_in, chunks, completion_events, completion_in, lemma_pieces_make_the_text,
    together,
};
use crate::cli::report::{config_text, event_texts, name_lines, padded, tool_line, tool_lines};
use crate::cli::tui::{AppView, Color, Key, SpanView, ends, event_lines, pressed, said, submission};
use crate::json::{Tree, json_compact, json_read};
use crate::session::event::{BlockView, EventView};
use crate::session::log::text_lines;
use crate::session::record::event_tree;
use crate::text::{begins, holds, truncated};
use crate::text_laws::{
    blank_text, lemma_held_in_front, lemma_part_is_held, lemma_trimmed_is_the_core, tight,
};
use crate::tool::description::DescriptionView;

verus! {

// ---------- answers ----------

/// The calls in a list are those of its first items, then those of the others. An item whose
/// function has a name is one call, with the identity that it gives and the value of its arguments;
/// one without is none.
pub proof fn lemma_calls_in_parts(a: Seq<Tree>, b: Seq<Tree>, one: Tree)
    ensures
        calls_in(a + b) == calls_in(a) + calls_in(b),
        !(one.index("function"@).at("name"@) matches Some(Tree::Text(_))) ==> calls_in(
            seq![one],
        ).len() == 0,
        one.index("function"@).at("name"@) matches Some(Tree::Text(name)) ==> {
            let calls = calls_in(seq![one]);
            &&& calls.len() == 1
            &&& calls[0].name == name
            &&& one.at("id"@) matches Some(Tree::Text(id)) ==> calls[0].id == id
            &&& !(one.at("id"@) matches Some(Tree::Text(_))) ==> calls[0].id.len() == 0
            &&& one.index("function"@).at("arguments"@) matches Some(Tree::Text(s)) ==> (match json_read(
                s,
            ) {
                Ok(t) => calls[0].arguments == t,
                Err(_) => calls[0].arguments == Tree::Null,
            })
            &&& !(one.index("function"@).at("arguments"@) matches Some(Tree::Text(_))) ==> (
            match json_read("{}"@) {
                Ok(t) => calls[0].arguments == t,
                Err(_) => calls[0].arguments == Tree::Null,
            })
        },
    decreases b.len(),
{
    reveal_strlit("");
    assert(seq![one].drop_last() =~= Seq::empty());
    assert(seq![one].last() == one);
    assert(calls_in(Seq::empty()) =~= Seq::empty());
    if b.len() == 0 {
        assert(a + b =~= a);
        assert(calls_in(a) + calls_in(b) =~= calls_in(a));
    } else {
        lemma_calls_in_parts(a, b.drop_last(), one);
        assert((a + b).drop_last() =~= a + b.drop_last());
        assert((a + b).last() == b.last());
        assert(calls_in(a + b) =~= calls_in(a) + calls_in(b));
    }
}

/// An answer is its first choice: the text of its message, the calls that it lists, and the reason
/// that it gives. Without a choice there is none.
pub proof fn lemma_answer_is_its_first_choice(answer: Tree)
    ensures
        answer.at("choices"@) matches Some(Tree::Array(choices)) ==> choices.len() > 0 ==> {
            let message = choices[0].index("message"@);
            &&& completion_in(answer) matches Ok(c)
            &&& message.at("content"@) matches Some(Tree::Text(s)) ==> c.content == s
            &&& !(message.at("content"@) matches Some(Tree::Text(_))) ==> c.content.len() == 0
            &&& message.at("tool_calls"@) matches Some(Tree::Array(items)) ==> c.tool_calls
                == calls_in(items)
            &&& !(message.at("tool_calls"@) matches Some(Tree::Array(_))) ==> c.tool_calls.len()
                == 0
            &&& choices[0].at("finish_reason"@) == Some(Tree::Text("tool_calls"@))
                <==> c.finish_reason == FinishReason::ToolCalls
            &&& choices[0].at("finish_reason"@) == Some(Tree::Text("length"@)) <==> c.finish_reason
                == FinishReason::Length
        },
        !(answer.at("choices"@) matches Some(Tree::Array(_))) ==> completion_in(answer) is Err,
        answer.at("choices"@) == Some(Tree::Array(Seq::empty())) ==> completion_in(answer) is Err,
{
    reveal_strlit("");
    reveal_strlit("tool_calls");
    reveal_strlit("length");
    assert("tool_calls"@.len() != "length"@.len());
}

/// The texts of events of a completion, put together.
pub open spec fn all_text(events: Seq<ModelEventView>) -> Seq<char>
    decreases events.len(),
{
    if events.len() == 0 {
        Seq::empty()
    } else {
        match events[0] {
            ModelEventView::Text(s) => s + all_text(events.drop_first()),
            _ => all_text(events.drop_first()),
        }
    }
}

proof fn lemma_text_of_pieces(pieces: Seq<Seq<char>>, rest: Seq<ModelEventView>)
    ensures
        all_text(Seq::new(pieces.len(), |i: int| ModelEventView::Text(pieces[i])) + rest)
            == together(pieces) + all_text(rest),
    decreases pieces.len(),
{
    let events = Seq::new(pieces.len(), |i: int| ModelEventView::Text(pieces[i]));
    let s = events + rest;
    if pieces.len() == 0 {
        assert(s =~= rest);
        assert(together(pieces) + all_text(rest) =~= all_text(rest));
    } else {
        let fewer = pieces.drop_first();
        lemma_text_of_pieces(fewer, rest);
        assert(s.drop_first() =~= Seq::new(fewer.len(), |i: int| ModelEventView::Text(fewer[i]))
            + rest);
        assert(s[0] == ModelEventView::Text(pieces[0]));
        assert(all_text(s) =~= together(pieces) + all_text(rest));
    }
}

proof fn lemma_no_text(events: Seq<ModelEventView>)
    requires
        forall|i: int| 0 <= i < events.len() ==> !((#[trigger] events[i]) is Text),
    ensures
        all_text(events).len() == 0,
    decreases events.len(),
{
    if events.len() > 0 {
        let rest = events.drop_first();
        assert forall|i: int| 0 <= i < rest.len() implies !((#[trigger] rest[i]) is Text) by {
            assert(rest[i] == events[i + 1]);
        }
        lemma_no_text(rest);
        assert(!(events[0] is Text));
    }
}

/// The events of a completion say all of its text, then every call in order, then why it ended.
pub proof fn lemma_completion_is_streamed(c: CompletionView)
    ensures
        ({
            let events = completion_events(c);
            let n = events.len() - 1 - c.tool_calls.len();
            &&& 0 <= n
            &&& all_text(events) == c.content
            &&& forall|i: int| 0 <= i < n ==> (#[trigger] events[i]) is Text
            &&& forall|i: int|
                0 <= i < c.tool_calls.len() ==> #[trigger] events[n + i] == ModelEventView::ToolCall(
                    c.tool_calls[i],
                )
            &&& events.last() == ModelEventView::Done(c.finish_reason)
        }),
{
    let events = completion_events(c);
    let pieces = chunks(c.content);
    let head = Seq::new(pieces.len(), |i: int| ModelEventView::Text(pieces[i]));
    let rest = Seq::new(c.tool_calls.len(), |i: int| ModelEventView::ToolCall(c.tool_calls[i])).push(
        ModelEventView::Done(c.finish_reason),
    );
    assert(events =~= head + rest);
    lemma_text_of_pieces(pieces, rest);
    lemma_no_text(rest);
    lemma_pieces_make_the_text(c.content);
    assert(together(pieces) + all_text(rest) =~= c.content);
}

// ---------- the screen ----------

/// Whether a line shows a text behind a label.
pub open spec fn shows(line: Seq<SpanView>, label: Seq<char>, color: Color, text: Seq<char>) -> bool {
    &&& line.len() == 2
    &&& line[0].text == label
    &&& line[0].color == color
    &&& line[1].text == text
}

/// What the assistant said has a line for each text of its message, in order, and none for its
/// calls, which have events of their own.
pub proof fn lemma_said_in_parts(a: Seq<BlockView>, b: Seq<BlockView>, one: BlockView)
    ensures
        said(a + b) == said(a) + said(b),
        one matches BlockView::Text { text } ==> said(seq![one]).len() == 1 && shows(
            said(seq![one])[0],
            "rh  "@,
            Color::Cyan,
            text,
        ),
        !(one is Text) ==> said(seq![one]).len() == 0,
    decreases b.len(),
{
    assert(seq![one].drop_last() =~= Seq::empty());
    assert(seq![one].last() == one);
    assert(said(Seq::empty()) =~= Seq::empty());
    if b.len() == 0 {
        assert(a + b =~= a);
        assert(said(a) + said(b) =~= said(a));
    } else {
        lemma_said_in_parts(a, b.drop_last(), one);
        assert((a + b).drop_last() =~= a + b.drop_last());
        assert((a + b).last() == b.last());
        assert(said(a + b) =~= said(a) + said(b));
    }
}

/// The screen shows who said what, which tool is called with what, and what it gave, marked by
/// whether it failed.
pub proof fn lemma_events_are_shown(
    id: Seq<char>,
    content: Seq<BlockView>,
    text: Seq<char>,
    arguments: Tree,
    is_error: bool,
)
    ensures
        ({
            let user = event_lines(EventView::UserMessage { message_id: id, content });
            let chunk = event_lines(EventView::AssistantChunk { message_id: id, text });
            let call = event_lines(
                EventView::ToolCall { tool_call_id: id, tool_name: text, arguments },
            );
            let result = event_lines(
                EventView::ToolResult { tool_call_id: id, output: arguments, is_error },
            );
            &&& user.len() == 1 && shows(user[0], "you "@, Color::Green, text_lines(content))
            &&& event_lines(EventView::AssistantMessage { message_id: id, content }) == said(content)
            &&& chunk.len() == 1 && shows(chunk[0], "rh  "@, Color::Cyan, text)
            &&& call.len() == 1 && call[0].len() == 2 && call[0][0].text == "tool"@ && holds(
                call[0][1].text,
                text,
            ) && holds(call[0][1].text, json_compact(arguments))
            &&& result.len() == 1 && result[0].len() == 2 && result[0][1].text == truncated(
                json_compact(arguments),
                500,
            )
            &&& is_error ==> result[0][0].text == "  ✗ "@ && result[0][0].color == Color::Red
            &&& !is_error ==> result[0][0].text == "  ✓ "@ && result[0][0].color == Color::Green
            &&& event_lines(EventView::ReasoningChunk { message_id: id, text }).len() == 0
            &&& event_lines(EventView::TurnStart { turn_id: id }).len() == 1
            &&& event_lines(EventView::StepEnd { step_id: id }).len() == 0
        }),
{
    let compact = json_compact(arguments);
    let line = " "@ + text + " "@ + compact;
    assert(line =~= " "@ + text + (" "@ + compact));
    lemma_part_is_held(" "@, text, " "@ + compact);
    lemma_part_is_held(" "@ + text + " "@, compact, Seq::empty());
    assert(line + Seq::<char>::empty() =~= line);
}

/// What is typed goes behind what was typed, and is taken back by the key for that; a key that ends the
/// program changes nothing.
pub proof fn lemma_typing(a: AppView, c: char, control: bool)
    requires
        !ends(Key::Char(c, control)),
    ensures
        pressed(a, Key::Char(c, control)).input == a.input.push(c),
        pressed(pressed(a, Key::Char(c, control)), Key::Backspace) == a,
        pressed(a, Key::Escape) == a,
        pressed(a, Key::Char('q', control)) == a,
        pressed(a, Key::Char('c', true)) == a,
        ends(Key::Escape),
        ends(Key::Char('q', control)),
        ends(Key::Char('c', true)),
        !ends(Key::Char('c', false)),
        !ends(Key::Enter),
        !ends(Key::Backspace),
{
    assert(a.input.push(c).drop_last() =~= a.input);
    assert(pressed(pressed(a, Key::Char(c, control)), Key::Backspace) =~= a);
}

/// What was typed is submitted without the white space around it, once: the line is empty then, and
/// nothing more is submitted while the turn runs. A blank line is not submitted.
pub proof fn lemma_submitting(a: AppView, pre: Seq<char>, core: Seq<char>, post: Seq<char>)
    requires
        a.input == pre + core + post,
        blank_text(pre),
        blank_text(post),
        tight(core),
    ensures
        core.len() > 0 && !a.running ==> submission(a) == Some(core) && pressed(
            a,
            Key::Enter,
        ).input.len() == 0 && pressed(a, Key::Enter).running && submission(pressed(a, Key::Enter))
            is None,
        core.len() == 0 || a.running ==> submission(a) is None && pressed(a, Key::Enter) == a,
        pressed(a, Key::Enter).lines == a.lines,
{
    lemma_trimmed_is_the_core(pre, core, post);
    reveal_with_fuel(crate::text::trimmed_start, 2);
    reveal_with_fuel(crate::text::trimmed_end, 2);
}

// ---------- reports ----------

/// The lines of tools, of names and of events are those of the first ones, then those of the others.
pub proof fn lemma_lines_in_parts(
    a: Seq<DescriptionView>,
    b: Seq<DescriptionView>,
    x: Seq<Seq<char>>,
    y: Seq<Seq<char>>,
    p: Seq<EventView>,
    q: Seq<EventView>,
)
    ensures
        tool_lines(a + b) == tool_lines(a) + tool_lines(b),
        name_lines(x + y) == name_lines(x) + name_lines(y),
        event_texts(p + q) == event_texts(p) + event_texts(q),
    decreases b.len() + y.len() + q.len(),
{
    if b.len() == 0 {
        assert(a + b =~= a);
        assert(tool_lines(a) + tool_lines(b) =~= tool_lines(a));
    } else {
        lemma_lines_in_parts(a, b.drop_last(), x, y, p, q);
        assert((a + b).drop_last() =~= a + b.drop_last());
        assert((a + b).last() == b.last());
        assert(tool_lines(a + b) =~= tool_lines(a) + tool_lines(b));
    }
    if y.len() == 0 {
        assert(x + y =~= x);
        assert(name_lines(x) + name_lines(y) =~= name_lines(x));
    } else {
        lemma_lines_in_parts(a, b, x, y.drop_last(), p, q);
        assert((x + y).drop_last() =~= x + y.drop_last());
        assert((x + y).last() == y.last());
        assert(name_lines(x + y) =~= name_lines(x) + name_lines(y));
    }
    if q.len() == 0 {
        assert(p + q =~= p);
        assert(event_texts(p) + event_texts(q) =~= event_texts(p));
    } else {
        lemma_lines_in_parts(a, b, x, y, p, q.drop_last());
        assert((p + q).drop_last() =~= p + q.drop_last());
        assert((p + q).last() == q.last());
        assert(event_texts(p + q) =~= event_texts(p) + event_texts(q));
    }
}

/// The composition of the harness lists its plugins, then its services, then its tools.
pub proof fn lemma_composition_is_listed(
    plugins: Seq<Seq<char>>,
    services: Seq<Seq<char>>,
    tools: Seq<Seq<char>>,
)
    ensures
        ({
            let a = "plugins (mount order):\n"@ + name_lines(plugins);
            let b = "\nservices:\n"@ + name_lines(services);
            let c = "\ntools:\n"@ + name_lines(tools);
            config_text(plugins, services, tools) == a + b + c
        }),
{
    let a = "plugins (mount order):\n"@ + name_lines(plugins);
    let b = "\nservices:\n"@ + name_lines(services);
    let c = "\ntools:\n"@ + name_lines(tools);
    assert(config_text(plugins, services, tools) =~= a + b + c);
}

/// The line of a tool holds its name and what it does, and names stand in a column. An event is
/// written as the JSON in which it is stored.
pub proof fn lemma_report_lines(d: DescriptionView, name: Seq<char>, width: nat, e: EventView)
    ensures
        holds(tool_line(d), d.name),
        holds(tool_line(d), d.description),
        holds(name_lines(seq![name]), name),
        event_texts(seq![e]) == json_compact(event_tree(e)) + seq!['\n'],
        begins(padded(name, width), name),
        name.len() <= width ==> padded(name, width).len() == width,
        name.len() >= width ==> padded(name, width) == name,
        forall|i: int|
            name.len() <= i < padded(name, width).len() ==> #[trigger] padded(name, width)[i] == ' ',
{
    reveal_strlit("\n");
    assert(padded(name, width).take(name.len() as int) =~= name);
    let p = padded(d.name, 12);
    let none: Seq<char> = Seq::empty();
    let pads = p.skip(d.name.len() as int);
    assert(p =~= none + d.name + pads);
    lemma_part_is_held(none, d.name, pads);
    let front = "- "@;
    let tail = " "@ + d.description + "\n"@;
    crate::text_laws::lemma_held_behind(front, p, d.name);
    lemma_held_in_front(front + p, tail, d.name);
    assert(tool_line(d) =~= front + p + tail);
    lemma_part_is_held(front + p + " "@, d.description, "\n"@);
    assert(seq![name].drop_last() =~= Seq::empty());
    assert(name_lines(Seq::empty()) =~= none);
    assert(name_lines(seq![name]) =~= "  - "@ + name + "\n"@);
    lemma_part_is_held("  - "@, name, "\n"@);
    assert(seq![e].drop_last() =~= Seq::empty());
    assert(event_texts(Seq::empty()) =~= none);
    assert(event_texts(seq![e]) =~= json_compact(event_tree(e)) + seq!['\n']);
}

} // verus!
