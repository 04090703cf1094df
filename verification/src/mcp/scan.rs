//! What is looked for in the event streams of servers.
use vstd::prelude::*;
use vstd::string::*;

use crate::bytes::{
    behind_line, extend, first_line, has_line, lemma_line_stays, line_text, take_line,
};
use crate::duplicate::Duplicate;
use crate::json::{Json, Tree, json_read, parse};
use crate::text::{begins, same, strip_prefix, trim, trim_start, trimmed, trimmed_start};

verus! {

/// The data on a line of an event stream.
pub open spec fn data_of(line: Seq<char>) -> Option<Seq<char>> {
    if begins(line, "data:"@) {
        Some(trimmed_start(line.skip("data:"@.len() as int)))
    } else {
        None
    }
}

fn read_data(line: &str) -> (r: Option<String>)
    ensures
        r.deep_view() == data_of(line@),
{
    match strip_prefix(line, "data:") {
        Some(rest) => Some(trim_start(rest.as_str())),
        None => None,
    }
}

// ---------- the endpoint of a server ----------

/// A search for the endpoint that a server announces.
#[derive(Debug)]
pub struct EndpointScan {
    buf: Vec<u8>,
    event: String,
    endpoint: Option<String>,
}

/// What a search for the endpoint stands for.
#[verifier::ext_equal]
pub struct EndpointView {
    pub buf: Seq<u8>,
    /// The name of the event that the lines belong to.
    pub event: Seq<char>,
    pub endpoint: Option<Seq<char>>,
}

impl View for EndpointScan {
    type V = EndpointView;

    closed spec fn view(&self) -> EndpointView {
        EndpointView {
            buf: self.buf@,
            event: self.event@,
            endpoint: self.endpoint.deep_view(),
        }
    }
}

/// The search after one line: it names the event, announces the endpoint, or ends the event.
pub open spec fn endpoint_line(v: EndpointView, line: Seq<char>) -> EndpointView {
    if begins(line, "event:"@) {
        EndpointView { event: trimmed(line.skip("event:"@.len() as int)), ..v }
    } else if data_of(line) is Some {
        if v.event == "endpoint"@ {
            EndpointView { endpoint: data_of(line), ..v }
        } else {
            v
        }
    } else if line.len() == 0 {
        EndpointView { event: Seq::empty(), ..v }
    } else {
        v
    }
}

/// The search after the whole lines in its buffer, up to the endpoint.
pub open spec fn endpoint_lines(v: EndpointView) -> EndpointView
    decreases v.buf.len(),
{
    if v.endpoint is None && has_line(v.buf) {
        endpoint_lines(
            endpoint_line(
                EndpointView { buf: behind_line(v.buf), ..v },
                line_text(first_line(v.buf)),
            ),
        )
    } else {
        v
    }
}

/// The search after more bytes.
pub open spec fn endpoint_fed(v: EndpointView, bytes: Seq<u8>) -> EndpointView {
    endpoint_lines(EndpointView { buf: v.buf + bytes, ..v })
}

impl EndpointScan {
    /// Nothing was read yet.
    pub fn new() -> (r: EndpointScan)
        ensures
            r@ == (EndpointView { buf: Seq::empty(), event: Seq::empty(), endpoint: None }),
    {
        EndpointScan { buf: Vec::new(), event: String::new(), endpoint: None }
    }

    fn handle_line(&mut self, line: &str)
        ensures
            final(self)@ == endpoint_line(old(self)@, line@),
    {
        match strip_prefix(line, "event:") {
            Some(rest) => {
                self.event = trim(rest.as_str());
            },
            None => {
                match read_data(line) {
                    Some(data) => {
                        if same(self.event.as_str(), "endpoint") {
                            self.endpoint = Some(data);
                        }
                    },
                    None => {
                        if line.is_empty() {
                            self.event = String::new();
                        }
                    },
                }
            },
        }
    }

    /// Takes more bytes, and gives the endpoint once it was announced.
    pub fn feed(&mut self, bytes: &Vec<u8>) -> (r: Option<String>)
        ensures
            final(self)@ == endpoint_fed(old(self)@, bytes@),
            r.deep_view() == final(self)@.endpoint,
    {
        extend(&mut self.buf, bytes);
        let ghost start = self@;
        loop
            invariant
                start == (EndpointView { buf: old(self)@.buf + bytes@, ..old(self)@ }),
                endpoint_lines(self@) == endpoint_lines(start),
            ensures
                self@ == endpoint_lines(start),
            decreases self@.buf.len(),
        {
            if self.endpoint.is_some() {
                break;
            }
            match take_line(&mut self.buf) {
                Some(line) => {
                    self.handle_line(line.as_str());
                },
                None => {
                    break;
                },
            }
        }
        self.endpoint.duplicate()
    }
}

/// What is said where a server announces no endpoint.
pub fn no_endpoint() -> (r: String)
    ensures
        r@ == "MCP SSE 服务器未返回 endpoint 事件"@,
{
    "MCP SSE 服务器未返回 endpoint 事件".to_owned()
}

proof fn lemma_endpoint_with_more(v: EndpointView, more: Seq<u8>)
    ensures
        endpoint_lines(EndpointView { buf: v.buf + more, ..v }) == endpoint_lines(
            EndpointView { buf: endpoint_lines(v).buf + more, ..endpoint_lines(v) },
        ),
    decreases v.buf.len(),
{
    if v.endpoint is None && has_line(v.buf) {
        lemma_line_stays(v.buf, more);
        let line = line_text(first_line(v.buf));
        let next = endpoint_line(EndpointView { buf: behind_line(v.buf), ..v }, line);
        let wide = EndpointView { buf: v.buf + more, ..v };
        let wide_next = endpoint_line(
            EndpointView { buf: behind_line(wide.buf), ..wide },
            line,
        );
        assert(wide_next == EndpointView { buf: next.buf + more, ..next });
        lemma_endpoint_with_more(next, more);
        assert(endpoint_lines(v) == endpoint_lines(next));
        assert(endpoint_lines(wide) == endpoint_lines(wide_next));
    }
}

/// How the bytes are cut does not matter for the endpoint that is found.
pub proof fn lemma_endpoint_pieces(v: EndpointView, a: Seq<u8>, b: Seq<u8>)
    ensures
        endpoint_fed(endpoint_fed(v, a), b) == endpoint_fed(v, a + b),
{
    lemma_endpoint_with_more(EndpointView { buf: v.buf + a, ..v }, b);
    assert((v.buf + a) + b =~= v.buf + (a + b));
}

// ---------- answers ----------

/// A search for answers.
#[derive(Debug)]
pub struct AnswerScan {
    buf: Vec<u8>,
    answers: Vec<Json>,
}

/// What a search for answers stands for.
#[verifier::ext_equal]
pub struct AnswerView {
    pub buf: Seq<u8>,
    /// The messages that carry an identity, and were not handed out yet.
    pub answers: Seq<Tree>,
}

impl View for AnswerScan {
    type V = AnswerView;

    closed spec fn view(&self) -> AnswerView {
        AnswerView { buf: self.buf@, answers: self.answers.deep_view() }
    }
}

/// The message with an identity on a line.
pub open spec fn answer_on(line: Seq<char>) -> Option<Tree> {
    match data_of(line) {
        Some(data) => match json_read(data) {
            Ok(t) => if t.at("id"@) is Some {
                Some(t)
            } else {
                None
            },
            Err(_) => None,
        },
        None => None,
    }
}

/// The search after the whole lines in its buffer.
pub open spec fn answer_lines(v: AnswerView) -> AnswerView
    decreases v.buf.len(),
{
    if has_line(v.buf) {
        answer_lines(
            AnswerView {
                buf: behind_line(v.buf),
                answers: (match answer_on(line_text(first_line(v.buf))) {
                    Some(t) => v.answers.push(t),
                    None => v.answers,
                }),
            },
        )
    } else {
        v
    }
}

/// The search after more bytes.
pub open spec fn answer_fed(v: AnswerView, bytes: Seq<u8>) -> AnswerView {
    answer_lines(AnswerView { buf: v.buf + bytes, ..v })
}

fn read_answer(line: &str) -> (r: Option<Json>)
    ensures
        r.deep_view() == answer_on(line@),
{
    match read_data(line) {
        Some(data) => match parse(data.as_str()) {
            Ok(j) => if j.get("id").is_some() {
                Some(j)
            } else {
                None
            },
            Err(_) => None,
        },
        None => None,
    }
}

impl AnswerScan {
    /// Nothing was read yet.
    pub fn new() -> (r: AnswerScan)
        ensures
            r@ == (AnswerView { buf: Seq::empty(), answers: Seq::empty() }),
    {
        let r = AnswerScan { buf: Vec::new(), answers: Vec::new() };
        assert(r@.answers =~= Seq::empty());
        r
    }

    /// Takes more bytes.
    pub fn feed(&mut self, bytes: &Vec<u8>)
        ensures
            final(self)@ == answer_fed(old(self)@, bytes@),
    {
        extend(&mut self.buf, bytes);
        let ghost start = self@;
        loop
            invariant
                start == (AnswerView { buf: old(self)@.buf + bytes@, ..old(self)@ }),
                answer_lines(self@) == answer_lines(start),
            ensures
                self@ == answer_lines(start),
            decreases self@.buf.len(),
        {
            let ghost before = self@.answers;
            match take_line(&mut self.buf) {
                Some(line) => {
                    match read_answer(line.as_str()) {
                        Some(j) => {
                            self.answers.push(j);
                            assert(self@.answers =~= before.push(j@));
                        },
                        None => {},
                    }
                },
                None => {
                    break;
                },
            }
        }
    }

    /// Hands out the next answer.
    pub fn next(&mut self) -> (r: Option<Json>)
        ensures
            match r {
                Some(j) => {
                    &&& old(self)@.answers.len() > 0
                    &&& j@ == old(self)@.answers[0]
                    &&& final(self)@ == (AnswerView {
                        answers: old(self)@.answers.drop_first(),
                        ..old(self)@
                    })
                },
                None => old(self)@.answers.len() == 0 && final(self)@ == old(self)@,
            },
    {
        if self.answers.len() > 0 {
            let ghost before = self@.answers;
            let j = self.answers.remove(0);
            assert(self@.answers =~= before.drop_first());
            Some(j)
        } else {
            None
        }
    }
}

proof fn lemma_answers_with_more(v: AnswerView, more: Seq<u8>)
    ensures
        answer_lines(AnswerView { buf: v.buf + more, ..v }) == answer_lines(
            AnswerView { buf: answer_lines(v).buf + more, ..answer_lines(v) },
        ),
    decreases v.buf.len(),
{
    if has_line(v.buf) {
        lemma_line_stays(v.buf, more);
        let answers = match answer_on(line_text(first_line(v.buf))) {
            Some(t) => v.answers.push(t),
            None => v.answers,
        };
        let next = AnswerView { buf: behind_line(v.buf), answers };
        let wide = AnswerView { buf: v.buf + more, ..v };
        lemma_answers_with_more(next, more);
        assert(answer_lines(v) == answer_lines(next));
        assert(answer_lines(wide) == answer_lines(AnswerView { buf: next.buf + more, ..next }));
    }
}

/// How the bytes are cut does not matter for the answers that are found.
pub proof fn lemma_answer_pieces(v: AnswerView, a: Seq<u8>, b: Seq<u8>)
    ensures
        answer_fed(answer_fed(v, a), b) == answer_fed(v, a + b),
{
    lemma_answers_with_more(AnswerView { buf: v.buf + a, ..v }, b);
    assert((v.buf + a) + b =~= v.buf + (a + b));
}

} // verus!
