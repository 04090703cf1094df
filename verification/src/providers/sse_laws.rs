//! What a reader of the event stream promises, however the bytes arrive.
use vstd::prelude::*;

use crate::agent::model::ModelEventView;
use crate::bytes::{behind_line, first_line, has_line, lemma_line_stays, line_text};
use crate::providers::sse::{
    AccView, SseView, at_end, call_events, fed, processed, unread, with_line,
};

verus! {

proof fn lemma_processed_with_more(v: SseView, more: Seq<u8>)
    ensures
        processed(SseView { buf: v.buf + more, ..v }) == processed(
            SseView { buf: processed(v).buf + more, ..processed(v) },
        ),
    decreases v.buf.len(),
{
    if has_line(v.buf) {
        lemma_line_stays(v.buf, more);
        let line = line_text(first_line(v.buf));
        let next = with_line(SseView { buf: behind_line(v.buf), ..v }, line);
        let wide = SseView { buf: v.buf + more, ..v };
        assert(has_line(wide.buf));
        let wide_next = with_line(SseView { buf: behind_line(wide.buf), ..wide }, line);
        assert(next.buf == behind_line(v.buf));
        assert(wide_next == SseView { buf: next.buf + more, ..next });
        lemma_processed_with_more(next, more);
        assert(processed(v) == processed(next));
        assert(processed(wide) == processed(wide_next));
    }
}

/// How the bytes are cut into pieces does not matter: two pieces one after the other are read as
/// one.
pub proof fn lemma_pieces_do_not_matter(v: SseView, a: Seq<u8>, b: Seq<u8>)
    ensures
        fed(fed(v, a), b) == fed(v, a + b),
{
    lemma_processed_with_more(SseView { buf: v.buf + a, ..v }, b);
    assert((v.buf + a) + b =~= v.buf + (a + b));
}

/// A reader with further events in front of those that it has to hand out.
pub open spec fn behind(front: Seq<ModelEventView>, v: SseView) -> SseView {
    SseView { pending: front + v.pending, ..v }
}

proof fn lemma_line_behind(front: Seq<ModelEventView>, v: SseView, line: Seq<char>)
    ensures
        with_line(behind(front, v), line) == behind(front, with_line(v, line)),
{
    assert(with_line(behind(front, v), line) =~= behind(front, with_line(v, line)));
}

proof fn lemma_processed_behind(front: Seq<ModelEventView>, v: SseView)
    ensures
        processed(behind(front, v)) == behind(front, processed(v)),
    decreases v.buf.len(),
{
    if has_line(v.buf) {
        let line = line_text(first_line(v.buf));
        let cut = SseView { buf: behind_line(v.buf), ..v };
        lemma_line_behind(front, cut, line);
        lemma_processed_behind(front, with_line(cut, line));
        let w = behind(front, v);
        assert(SseView { buf: behind_line(w.buf), ..w } == behind(front, cut));
    }
}

/// Events are only ever added behind those that wait: handing some out before more bytes come
/// changes neither what follows nor its order.
pub proof fn lemma_waiting_events_stay(front: Seq<ModelEventView>, v: SseView, bytes: Seq<u8>)
    ensures
        fed(behind(front, v), bytes) == behind(front, fed(v, bytes)),
        at_end(behind(front, v)) == behind(front, at_end(v)),
{
    let w = SseView { buf: v.buf + bytes, ..v };
    lemma_processed_behind(front, w);
    assert(behind(front, w) == SseView {
        buf: behind(front, v).buf + bytes,
        ..behind(front, v)
    });
    assert(at_end(behind(front, v)) =~= behind(front, at_end(v)));
}

/// Whether no event tells of the end.
pub open spec fn open_ended(events: Seq<ModelEventView>) -> bool {
    forall|i: int| 0 <= i < events.len() ==> !((#[trigger] events[i]) is Done)
}

/// Whether the last event, and no other, tells of the end.
pub open spec fn ends_once(events: Seq<ModelEventView>) -> bool {
    &&& events.len() > 0
    &&& events.last() is Done
    &&& open_ended(events.drop_last())
}

/// Whether a reader that nothing was taken from tells of the end once it was reached, and once.
pub open spec fn tidy(v: SseView) -> bool {
    if v.finished {
        ends_once(v.pending)
    } else {
        open_ended(v.pending)
    }
}

proof fn lemma_calls_are_open(calls: Seq<AccView>)
    ensures
        open_ended(call_events(calls)),
    decreases calls.len(),
{
    if calls.len() > 0 {
        lemma_calls_are_open(calls.drop_last());
    }
}

proof fn lemma_end_is_tidy(v: SseView)
    requires
        tidy(v),
    ensures
        tidy(at_end(v)),
{
    if !v.finished {
        lemma_calls_are_open(v.calls);
        let w = at_end(v);
        let front = v.pending + call_events(v.calls);
        assert(w.pending.drop_last() =~= front);
        assert(w.pending.last() == ModelEventView::Done(v.finish));
        assert forall|i: int| 0 <= i < front.len() implies !((#[trigger] front[i]) is Done) by {
            if i < v.pending.len() {
                assert(front[i] == v.pending[i]);
            } else {
                assert(front[i] == call_events(v.calls)[i - v.pending.len()]);
            }
        }
    }
}

proof fn lemma_line_is_tidy(v: SseView, line: Seq<char>)
    requires
        tidy(v),
    ensures
        tidy(with_line(v, line)),
{
    lemma_end_is_tidy(v);
}

proof fn lemma_processed_is_tidy(v: SseView)
    requires
        tidy(v),
    ensures
        tidy(processed(v)),
    decreases v.buf.len(),
{
    if has_line(v.buf) {
        let cut = SseView { buf: behind_line(v.buf), ..v };
        let line = line_text(first_line(v.buf));
        lemma_line_is_tidy(cut, line);
        lemma_processed_is_tidy(with_line(cut, line));
    }
}

/// The reader after pieces of the stream.
pub open spec fn fed_all(pieces: Seq<Seq<u8>>) -> SseView
    decreases pieces.len(),
{
    if pieces.len() == 0 {
        unread()
    } else {
        fed(fed_all(pieces.drop_last()), pieces.last())
    }
}

proof fn lemma_fed_is_tidy(pieces: Seq<Seq<u8>>)
    ensures
        tidy(fed_all(pieces)),
    decreases pieces.len(),
{
    if pieces.len() > 0 {
        lemma_fed_is_tidy(pieces.drop_last());
        let v = fed_all(pieces.drop_last());
        lemma_processed_is_tidy(SseView { buf: v.buf + pieces.last(), ..v });
    }
}

/// Whatever bytes come, and however they are cut: the events of a stream tell of the end exactly
/// once, and as the last thing.
pub proof fn lemma_stream_ends_once(pieces: Seq<Seq<u8>>)
    ensures
        ends_once(at_end(fed_all(pieces)).pending),
{
    lemma_fed_is_tidy(pieces);
    lemma_end_is_tidy(fed_all(pieces));
}

/// Once the end was told of, nothing that follows is heard.
pub proof fn lemma_nothing_after_the_end(v: SseView, bytes: Seq<u8>)
    requires
        v.finished,
    ensures
        fed(v, bytes).pending == v.pending,
        fed(v, bytes).finished,
    decreases v.buf.len() + bytes.len(),
{
    let w = SseView { buf: v.buf + bytes, ..v };
    if has_line(w.buf) {
        let cut = SseView { buf: behind_line(w.buf), ..w };
        let line = line_text(first_line(w.buf));
        assert(with_line(cut, line) == cut);
        assert(cut.buf + Seq::<u8>::empty() =~= cut.buf);
        lemma_nothing_after_the_end(cut, Seq::empty());
        assert(fed(cut, Seq::empty()) == processed(cut));
    }
}

} // verus!
