//! How the pieces of tool calls that a stream brings become calls, and what a stream tells.
use vstd::prelude::*;
use vstd::string::*;

use crate::agent::model::{FinishReason, ModelEventView};
use crate::bytes::{behind_line, first_line, has_line, line_text};
use crate::json::{Tree, json_read};
use crate::providers::sse::{
    AccView, SseView, assembled, assembled_all, at_end, call_events, fed, processed, unread,
    with_delta, with_line,
};
use crate::text::{lemma_span_is, trimmed_start, whitespace};

verus! {

/// The position of the call that a piece is for: its "index", and the first where it has none.
pub open spec fn position(piece: Tree) -> int {
    match piece.at("index"@) {
        Some(Tree::Unsigned(n)) => n as int,
        _ => 0,
    }
}

/// Whether a machine can count to the position of every piece.
pub open spec fn countable(pieces: Seq<Tree>) -> bool {
    forall|i: int| 0 <= i < pieces.len() ==> position(#[trigger] pieces[i]) <= usize::MAX
}

/// The text that a piece brings for a member of its function.
pub open spec fn brought(piece: Tree, member: Seq<char>) -> Option<Seq<char>> {
    match piece.at("function"@) {
        Some(f) => match f.at(member) {
            Some(Tree::Text(s)) => Some(s),
            _ => None,
        },
        None => None,
    }
}

/// The identity that a piece brings.
pub open spec fn brought_id(piece: Tree) -> Option<Seq<char>> {
    match piece.at("id"@) {
        Some(Tree::Text(s)) => Some(s),
        _ => None,
    }
}

/// What stands at a position among calls in assembly: nothing yet behind the last one.
pub open spec fn standing(calls: Seq<AccView>, k: int) -> AccView {
    if 0 <= k < calls.len() {
        calls[k]
    } else {
        AccView { id: Seq::empty(), name: Seq::empty(), arguments: Seq::empty() }
    }
}

/// A piece goes to the call at its own position, and to no other: that call gets the identity and
/// the name that the piece brings, and its arguments are continued; every call at another position
/// is as it was.
pub proof fn lemma_piece_goes_to_its_call(calls: Seq<AccView>, piece: Tree)
    requires
        position(piece) <= usize::MAX,
    ensures
        ({
            let k = position(piece);
            let old_call = standing(calls, k);
            let new_call = assembled(calls, piece)[k];
            &&& 0 <= k < assembled(calls, piece).len()
            &&& assembled(calls, piece).len() == (if k < calls.len() {
                calls.len() as int
            } else {
                k + 1
            })
            &&& brought_id(piece) matches Some(id) ==> new_call.id == id
            &&& brought_id(piece) is None ==> new_call.id == old_call.id
            &&& brought(piece, "name"@) matches Some(name) ==> name.len() > 0 ==> new_call.name
                == name
            &&& brought(piece, "name"@) matches Some(name) ==> name.len() == 0 ==> new_call.name
                == old_call.name
            &&& brought(piece, "name"@) is None ==> new_call.name == old_call.name
            &&& brought(piece, "arguments"@) matches Some(more) ==> new_call.arguments
                == old_call.arguments + more
            &&& brought(piece, "arguments"@) is None ==> new_call.arguments == old_call.arguments
            &&& forall|j: int|
                j != k && 0 <= j < assembled(calls, piece).len() ==> #[trigger] assembled(
                    calls,
                    piece,
                )[j] == standing(calls, j)
        }),
{
}

/// The arguments that pieces bring for the call at a position, one behind the other.
pub open spec fn arguments_at(pieces: Seq<Tree>, k: int) -> Seq<char>
    decreases pieces.len(),
{
    if pieces.len() == 0 {
        Seq::empty()
    } else {
        let before = arguments_at(pieces.drop_last(), k);
        match brought(pieces.last(), "arguments"@) {
            Some(more) => if position(pieces.last()) == k {
                before + more
            } else {
                before
            },
            None => before,
        }
    }
}

/// The name that pieces bring for the call at a position: the last that is not empty.
pub open spec fn name_at(pieces: Seq<Tree>, k: int) -> Seq<char>
    decreases pieces.len(),
{
    if pieces.len() == 0 {
        Seq::empty()
    } else {
        match brought(pieces.last(), "name"@) {
            Some(name) => if position(pieces.last()) == k && name.len() > 0 {
                name
            } else {
                name_at(pieces.drop_last(), k)
            },
            None => name_at(pieces.drop_last(), k),
        }
    }
}

/// The identity that pieces bring for the call at a position: the last one.
pub open spec fn id_at(pieces: Seq<Tree>, k: int) -> Seq<char>
    decreases pieces.len(),
{
    if pieces.len() == 0 {
        Seq::empty()
    } else {
        match brought_id(pieces.last()) {
            Some(id) => if position(pieces.last()) == k {
                id
            } else {
                id_at(pieces.drop_last(), k)
            },
            None => id_at(pieces.drop_last(), k),
        }
    }
}

/// One more than the highest position among pieces; none where there are no pieces.
pub open spec fn positions(pieces: Seq<Tree>) -> int
    decreases pieces.len(),
{
    if pieces.len() == 0 {
        0
    } else {
        let before = positions(pieces.drop_last());
        if position(pieces.last()) < before {
            before
        } else {
            position(pieces.last()) + 1
        }
    }
}

/// Pieces with different positions make different calls. Of all the pieces of a stream, however
/// they are mixed, the call at position `k` has the arguments of exactly those for `k`, in order,
/// and the last name and identity among them.
pub proof fn lemma_calls_are_put_together(pieces: Seq<Tree>)
    requires
        countable(pieces),
    ensures
        ({
            let calls = assembled_all(Seq::empty(), pieces);
            &&& calls.len() == positions(pieces)
            &&& forall|k: int|
                0 <= k < calls.len() ==> (#[trigger] calls[k]).arguments == arguments_at(pieces, k)
                    && calls[k].name == name_at(pieces, k) && calls[k].id == id_at(pieces, k)
            &&& forall|k: int|
                calls.len() <= k ==> #[trigger] arguments_at(pieces, k).len() == 0 && name_at(
                    pieces,
                    k,
                ).len() == 0 && id_at(pieces, k).len() == 0
        }),
    decreases pieces.len(),
{
    if pieces.len() > 0 {
        let front = pieces.drop_last();
        assert forall|i: int| 0 <= i < front.len() implies position(#[trigger] front[i])
            <= usize::MAX by {
            assert(front[i] == pieces[i]);
        }
        lemma_calls_are_put_together(front);
        let before = assembled_all(Seq::empty(), front);
        let last = pieces.last();
        assert(last == pieces[pieces.len() - 1]);
        lemma_piece_goes_to_its_call(before, last);
        let calls = assembled_all(Seq::empty(), pieces);
        assert(calls == assembled(before, last));
        let at = position(last);
        assert forall|k: int| 0 <= k < calls.len() implies (#[trigger] calls[k]).arguments
            == arguments_at(pieces, k) && calls[k].name == name_at(pieces, k) && calls[k].id
            == id_at(pieces, k) by {
            assert(arguments_at(front, k) =~= standing(before, k).arguments);
            assert(name_at(front, k) =~= standing(before, k).name);
            assert(id_at(front, k) =~= standing(before, k).id);
            if k != at {
                assert(assembled(before, last)[k] == standing(before, k));
            }
        }
        assert forall|k: int| calls.len() <= k implies #[trigger] arguments_at(pieces, k).len()
            == 0 && name_at(pieces, k).len() == 0 && id_at(pieces, k).len() == 0 by {
            assert(arguments_at(front, k).len() == 0);
        }
    }
}

/// Where the pieces of a stream are cut into messages does not matter.
pub proof fn lemma_pieces_in_parts(calls: Seq<AccView>, a: Seq<Tree>, b: Seq<Tree>)
    ensures
        assembled_all(calls, a + b) == assembled_all(assembled_all(calls, a), b),
    decreases b.len(),
{
    if b.len() == 0 {
        assert(a + b =~= a);
    } else {
        lemma_pieces_in_parts(calls, a, b.drop_last());
        assert((a + b).drop_last() =~= a + b.drop_last());
        assert((a + b).last() == b.last());
    }
}

// ---------- one message ----------

/// What the first choice of a message brings, where it has one.
pub open spec fn first_choice(message: Tree) -> Option<Tree> {
    match message.at("choices"@) {
        Some(Tree::Array(choices)) => if choices.len() > 0 {
            Some(choices[0])
        } else {
            None
        },
        _ => None,
    }
}

/// A text that the delta of a message brings, where it is not empty.
pub open spec fn delta_text(message: Tree, member: Seq<char>) -> Option<Seq<char>> {
    match first_choice(message) {
        Some(c) => match c.at("delta"@) {
            Some(d) => match d.at(member) {
                Some(Tree::Text(s)) => if s.len() > 0 {
                    Some(s)
                } else {
                    None
                },
                _ => None,
            },
            None => None,
        },
        None => None,
    }
}

/// The pieces of calls that a message brings.
pub open spec fn delta_pieces(message: Tree) -> Seq<Tree> {
    match first_choice(message) {
        Some(c) => match c.at("delta"@) {
            Some(d) => match d.at("tool_calls"@) {
                Some(Tree::Array(pieces)) => pieces,
                _ => Seq::empty(),
            },
            None => Seq::empty(),
        },
        None => Seq::empty(),
    }
}

/// The events that a message brings at once: its reasoning, then its text.
pub open spec fn delta_events(message: Tree) -> Seq<ModelEventView> {
    let reasoning: Seq<ModelEventView> = match delta_text(message, "reasoning_content"@) {
        Some(s) => seq![ModelEventView::Reasoning(s)],
        None => Seq::empty(),
    };
    match delta_text(message, "content"@) {
        Some(s) => reasoning.push(ModelEventView::Text(s)),
        None => reasoning,
    }
}

/// A message adds its reasoning and its text to the events, its pieces to the calls, and changes
/// the reason for the end only where it gives one: the words for tool calls and for a length that
/// was reached mean that, and any other word is a plain stop.
pub proof fn lemma_message_is_told(v: SseView, message: Tree)
    ensures
        ({
            let w = with_delta(v, message);
            &&& w.pending == v.pending + delta_events(message)
            &&& w.calls == assembled_all(v.calls, delta_pieces(message))
            &&& w.finished == v.finished
            &&& w.buf == v.buf
            &&& match first_choice(message) {
                Some(c) => match c.at("finish_reason"@) {
                    Some(Tree::Text(s)) => {
                        &&& s == "tool_calls"@ ==> w.finish == FinishReason::ToolCalls
                        &&& s == "length"@ ==> w.finish == FinishReason::Length
                        &&& s != "tool_calls"@ && s != "length"@ ==> w.finish == FinishReason::Stop
                    },
                    _ => w.finish == v.finish,
                },
                None => w.finish == v.finish,
            }
        }),
{
    reveal_strlit("tool_calls");
    reveal_strlit("length");
    assert("tool_calls"@.len() != "length"@.len());
    let w = with_delta(v, message);
    assert(assembled_all(v.calls, Seq::empty()) == v.calls);
    assert(w.pending =~= v.pending + delta_events(message));
}

/// The reader after messages, one behind the other.
pub open spec fn told(v: SseView, messages: Seq<Tree>) -> SseView
    decreases messages.len(),
{
    if messages.len() == 0 {
        v
    } else {
        with_delta(told(v, messages.drop_last()), messages.last())
    }
}

/// All the pieces of calls that messages bring, in order.
pub open spec fn all_pieces(messages: Seq<Tree>) -> Seq<Tree>
    decreases messages.len(),
{
    if messages.len() == 0 {
        Seq::empty()
    } else {
        all_pieces(messages.drop_last()) + delta_pieces(messages.last())
    }
}

/// All the events that messages bring at once, in order.
pub open spec fn all_events(messages: Seq<Tree>) -> Seq<ModelEventView>
    decreases messages.len(),
{
    if messages.len() == 0 {
        Seq::empty()
    } else {
        all_events(messages.drop_last()) + delta_events(messages.last())
    }
}

proof fn lemma_messages_are_told(v: SseView, messages: Seq<Tree>)
    ensures
        told(v, messages).pending == v.pending + all_events(messages),
        told(v, messages).calls == assembled_all(v.calls, all_pieces(messages)),
        told(v, messages).finished == v.finished,
        told(v, messages).buf == v.buf,
    decreases messages.len(),
{
    if messages.len() == 0 {
        assert(v.pending + all_events(messages) =~= v.pending);
        assert(assembled_all(v.calls, all_pieces(messages)) == v.calls);
    } else {
        let front = messages.drop_last();
        lemma_messages_are_told(v, front);
        lemma_message_is_told(told(v, front), messages.last());
        lemma_pieces_in_parts(v.calls, all_pieces(front), delta_pieces(messages.last()));
        assert(v.pending + all_events(messages) =~= (v.pending + all_events(front)) + delta_events(
            messages.last(),
        ));
    }
}

// ---------- the end ----------

/// Whether an event tells of a call with an identity, a name, and the value of its arguments: what
/// their text is read as, and null where it is no JSON.
pub open spec fn tells_call(
    e: ModelEventView,
    id: Seq<char>,
    name: Seq<char>,
    arguments: Seq<char>,
) -> bool {
    &&& e matches ModelEventView::ToolCall(c)
    &&& c.id == id
    &&& c.name == name
    &&& match json_read(arguments) {
        Ok(t) => c.arguments == t,
        Err(_) => c.arguments == Tree::Null,
    }
}

/// The calls of two parts are told one part behind the other; a call with a name is told once, and
/// one without is not.
pub proof fn lemma_calls_are_told_in_order(a: Seq<AccView>, b: Seq<AccView>, one: AccView)
    ensures
        call_events(a + b) == call_events(a) + call_events(b),
        one.name.len() == 0 ==> call_events(seq![one]).len() == 0,
        one.name.len() > 0 ==> call_events(seq![one]).len() == 1 && tells_call(
            call_events(seq![one])[0],
            one.id,
            one.name,
            one.arguments,
        ),
    decreases b.len(),
{
    assert(seq![one].drop_last() =~= Seq::empty());
    assert(call_events(Seq::empty()) =~= Seq::empty());
    if b.len() == 0 {
        assert(a + b =~= a);
        assert(call_events(a) + call_events(b) =~= call_events(a));
    } else {
        lemma_calls_are_told_in_order(a, b.drop_last(), one);
        assert((a + b).drop_last() =~= a + b.drop_last());
        assert((a + b).last() == b.last());
        assert(call_events(a + b) =~= call_events(a) + call_events(b));
    }
}

proof fn lemma_named_calls_are_told(calls: Seq<AccView>)
    requires
        forall|k: int| 0 <= k < calls.len() ==> (#[trigger] calls[k]).name.len() > 0,
    ensures
        call_events(calls).len() == calls.len(),
        forall|k: int|
            0 <= k < calls.len() ==> tells_call(
                #[trigger] call_events(calls)[k],
                calls[k].id,
                calls[k].name,
                calls[k].arguments,
            ),
    decreases calls.len(),
{
    if calls.len() > 0 {
        let front = calls.drop_last();
        assert forall|k: int| 0 <= k < front.len() implies (#[trigger] front[k]).name.len() > 0 by {
            assert(front[k] == calls[k]);
        }
        lemma_named_calls_are_told(front);
        assert(calls.last() == calls[calls.len() - 1]);
        let told_calls = call_events(calls);
        assert forall|k: int| 0 <= k < calls.len() implies tells_call(
            #[trigger] told_calls[k],
            calls[k].id,
            calls[k].name,
            calls[k].arguments,
        ) by {
            if k < front.len() {
                assert(told_calls[k] == call_events(front)[k]);
            }
        }
    }
}

/// What a completion of messages tells in the end, where every position among its pieces has a
/// name: the texts and reasonings as they came, then one call for each position, in order, with the
/// arguments of exactly the pieces for it, then once that it is over.
pub proof fn lemma_completion_is_told(messages: Seq<Tree>)
    requires
        countable(all_pieces(messages)),
        forall|k: int|
            0 <= k < positions(all_pieces(messages)) ==> #[trigger] name_at(
                all_pieces(messages),
                k,
            ).len() > 0,
    ensures
        ({
            let pieces = all_pieces(messages);
            let front = all_events(messages);
            let events = at_end(told(unread(), messages)).pending;
            &&& events.len() == front.len() + positions(pieces) + 1
            &&& events.take(front.len() as int) == front
            &&& forall|k: int|
                0 <= k < positions(pieces) ==> tells_call(
                    #[trigger] events[front.len() + k],
                    id_at(pieces, k),
                    name_at(pieces, k),
                    arguments_at(pieces, k),
                )
            &&& events.last() == ModelEventView::Done(told(unread(), messages).finish)
        }),
{
    let pieces = all_pieces(messages);
    let v = told(unread(), messages);
    lemma_messages_are_told(unread(), messages);
    lemma_calls_are_put_together(pieces);
    assert(v.pending =~= all_events(messages));
    assert forall|k: int| 0 <= k < v.calls.len() implies (#[trigger] v.calls[k]).name.len() > 0 by {
        assert(name_at(pieces, k).len() > 0);
    }
    lemma_named_calls_are_told(v.calls);
    let front = all_events(messages);
    let events = at_end(v).pending;
    assert(events =~= front + call_events(v.calls) + seq![ModelEventView::Done(v.finish)]);
    assert(events.take(front.len() as int) =~= front);
    assert forall|k: int| 0 <= k < positions(pieces) implies tells_call(
        #[trigger] events[front.len() + k],
        id_at(pieces, k),
        name_at(pieces, k),
        arguments_at(pieces, k),
    ) by {
        assert(events[front.len() + k] == call_events(v.calls)[k]);
        assert(v.calls[k].name == name_at(pieces, k));
    }
}

// ---------- lines ----------

/// A line that says `data:` brings the message behind it, with or without a blank in between; the
/// word for the end brings the end, and any other line brings nothing.
pub proof fn lemma_lines_bring_messages(v: SseView, text: Seq<char>, message: Tree, other: Seq<char>)
    requires
        !v.finished,
        text.len() > 0,
        !whitespace(text[0]),
        text != "[DONE]"@,
        json_read(text) matches Ok(t) && t == message,
        other.len() < 5 || other.take(5) != "data:"@,
    ensures
        with_line(v, "data:"@ + text) == with_delta(v, message),
        with_line(v, "data: "@ + text) == with_delta(v, message),
        with_line(v, "data: [DONE]"@) == at_end(v),
        with_line(v, "data:[DONE]"@) == at_end(v),
        with_line(v, other) == v,
{
    reveal_strlit("data:");
    reveal_strlit("data: ");
    reveal_strlit("[DONE]");
    reveal_strlit("data: [DONE]");
    reveal_strlit("data:[DONE]");
    let a = "data:"@ + text;
    assert(a.take(5) =~= "data:"@);
    assert(a.skip(5) =~= text);
    assert(trimmed_start(text) == text);
    let b = "data: "@ + text;
    assert(b.take(5) =~= "data:"@);
    let rest = b.skip(5);
    assert(rest[0] == ' ');
    assert(rest.drop_first() =~= text);
    assert(whitespace(' '));
    assert(trimmed_start(rest) == text);
    let c = "data: [DONE]"@;
    assert(c.take(5) =~= "data:"@);
    assert(c.skip(5)[0] == ' ');
    assert(c.skip(5).drop_first() =~= "[DONE]"@);
    assert(!whitespace('['));
    assert(trimmed_start("[DONE]"@) == "[DONE]"@);
    assert(trimmed_start(c.skip(5)) == "[DONE]"@);
    let d = "data:[DONE]"@;
    assert(d.take(5) =~= "data:"@);
    assert(d.skip(5) =~= "[DONE]"@);
}

/// The reader after lines, one behind the other.
pub open spec fn lines_read(v: SseView, lines: Seq<Seq<char>>) -> SseView
    decreases lines.len(),
{
    if lines.len() == 0 {
        v
    } else {
        with_line(lines_read(v, lines.drop_last()), lines.last())
    }
}

/// The lines in which a stream brings texts.
pub open spec fn data_lines(texts: Seq<Seq<char>>) -> Seq<Seq<char>> {
    Seq::new(texts.len(), |i: int| "data: "@ + texts[i])
}

/// A whole stream tells what its messages bring: the lines of a completion are read as its messages,
/// one for each line and in order, and the line for the end tells the calls and the reason.
pub proof fn lemma_stream_is_told(v: SseView, texts: Seq<Seq<char>>, messages: Seq<Tree>)
    requires
        !v.finished,
        texts.len() == messages.len(),
        forall|i: int|
            0 <= i < texts.len() ==> (#[trigger] texts[i]).len() > 0 && !whitespace(texts[i][0])
                && texts[i] != "[DONE]"@ && json_read(texts[i]) == Ok::<Tree, Seq<char>>(
                messages[i],
            ),
    ensures
        lines_read(v, data_lines(texts)) == told(v, messages),
        with_line(lines_read(v, data_lines(texts)), "data: [DONE]"@) == at_end(told(v, messages)),
        !told(v, messages).finished,
    decreases texts.len(),
{
    reveal_strlit("data: ");
    let lines = data_lines(texts);
    let none: Seq<char> = Seq::empty();
    lemma_messages_are_told(v, messages);
    if texts.len() > 0 {
        let front = texts.drop_last();
        let fewer = messages.drop_last();
        assert forall|i: int| 0 <= i < front.len() implies (#[trigger] front[i]).len() > 0
            && !whitespace(front[i][0]) && front[i] != "[DONE]"@ && json_read(front[i]) == Ok::<
            Tree,
            Seq<char>,
        >(fewer[i]) by {
            assert(front[i] == texts[i] && fewer[i] == messages[i]);
        }
        lemma_stream_is_told(v, front, fewer);
        assert(lines.drop_last() =~= data_lines(front));
        let last = texts[texts.len() - 1];
        assert(lines.last() == "data: "@ + last);
        assert(messages.last() == messages[texts.len() - 1]);
        lemma_lines_bring_messages(told(v, fewer), last, messages.last(), none);
    }
    lemma_end_line(told(v, messages));
}

proof fn lemma_end_line(v: SseView)
    requires
        !v.finished,
    ensures
        with_line(v, "data: [DONE]"@) == at_end(v),
{
    reveal_strlit("data:");
    reveal_strlit("[DONE]");
    reveal_strlit("data: [DONE]");
    let c = "data: [DONE]"@;
    assert(c.take(5) =~= "data:"@);
    assert(c.skip(5)[0] == ' ');
    assert(c.skip(5).drop_first() =~= "[DONE]"@);
    assert(!whitespace('['));
    assert(trimmed_start("[DONE]"@) == "[DONE]"@);
    assert(trimmed_start(c.skip(5)) == "[DONE]"@);
}

/// A line that arrives whole is read at once, as the text that its bytes stand for.
pub proof fn lemma_line_is_read(v: SseView, line: Seq<u8>)
    requires
        v.buf.len() == 0,
        forall|i: int| 0 <= i < line.len() ==> line[i] != 10u8,
    ensures
        fed(v, line.push(10u8)) == with_line(v, line_text(line.push(10u8))),
{
    let whole = line.push(10u8);
    let w = SseView { buf: v.buf + whole, ..v };
    assert(w.buf =~= whole);
    assert forall|j: int| 0 <= j < line.len() implies whole[j] != 10u8 by {
        assert(whole[j] == line[j]);
    }
    lemma_span_is(whole, 10u8, line.len() as int);
    assert(has_line(whole));
    assert(first_line(whole) =~= whole);
    assert(behind_line(whole) =~= Seq::empty());
    let cut = SseView { buf: behind_line(w.buf), ..w };
    assert(cut =~= v);
    let next = with_line(v, line_text(whole));
    assert(next.buf == v.buf);
    lemma_span_is(next.buf, 10u8, 0);
    assert(!has_line(next.buf));
    assert(processed(next) == next);
    assert(processed(w) == processed(next));
}

} // verus!
