//! The terminal screen: a transcript that follows the session, and a line of input.
use vstd::prelude::*;
use vstd::string::*;

use crate::agent::turn::{AgentDefinition, plain_definition};
use crate::duplicate::Duplicate;
use crate::json::json_compact;
use crate::session::event::{BlockView, ContentBlock, EventView, SessionEvent};
use crate::session::log::{text_lines, text_of};
use crate::text::{chars_of, concat2, concat3, text_between, trim, trimmed, truncate, truncated};

verus! {

/// A colour.
#[derive(Debug, Clone, Copy, PartialEq, Eq, Structural)]
pub enum Color {
    Plain,
    DarkGray,
    Green,
    Cyan,
    Yellow,
    Red,
}

/// A piece of text in one style.
#[derive(Debug, Clone)]
pub struct Span {
    pub text: String,
    pub color: Color,
    pub bold: bool,
}

/// What a piece of text stands for.
#[verifier::ext_equal]
pub struct SpanView {
    pub text: Seq<char>,
    pub color: Color,
    pub bold: bool,
}

impl View for Span {
    type V = SpanView;

    open spec fn view(&self) -> SpanView {
        SpanView { text: self.text@, color: self.color, bold: self.bold }
    }
}

impl DeepView for Span {
    type V = SpanView;

    open spec fn deep_view(&self) -> SpanView {
        self@
    }
}

impl Duplicate for Span {
    fn duplicate(&self) -> (r: Self) {
        Span { text: self.text.clone(), color: self.color, bold: self.bold }
    }
}

/// A line of the transcript.
#[derive(Debug, Clone)]
pub struct Line {
    pub spans: Vec<Span>,
}

impl View for Line {
    type V = Seq<SpanView>;

    open spec fn view(&self) -> Seq<SpanView> {
        self.spans.deep_view()
    }
}

impl DeepView for Line {
    type V = Seq<SpanView>;

    open spec fn deep_view(&self) -> Seq<SpanView> {
        self@
    }
}

impl Duplicate for Line {
    fn duplicate(&self) -> (r: Self) {
        Line { spans: self.spans.duplicate() }
    }
}

/// A coloured text on a line of its own.
pub open spec fn note(text: Seq<char>, color: Color) -> Seq<SpanView> {
    seq![SpanView { text, color, bold: false }]
}

/// A coloured text before a plain one.
pub open spec fn labelled(
    label: Seq<char>,
    color: Color,
    bold: bool,
    text: Seq<char>,
) -> Seq<SpanView> {
    seq![
        SpanView { text: label, color, bold },
        SpanView { text, color: Color::Plain, bold: false },
    ]
}

fn note_line(text: &str, color: Color) -> (r: Line)
    ensures
        r@ == note(text@, color),
{
    let mut spans: Vec<Span> = Vec::new();
    spans.push(Span { text: text.to_owned(), color, bold: false });
    assert(spans.deep_view() =~= note(text@, color));
    Line { spans }
}

fn labelled_line(label: &str, color: Color, bold: bool, text: &str) -> (r: Line)
    ensures
        r@ == labelled(label@, color, bold, text@),
{
    let mut spans: Vec<Span> = Vec::new();
    spans.push(Span { text: label.to_owned(), color, bold });
    spans.push(Span { text: text.to_owned(), color: Color::Plain, bold: false });
    assert(spans.deep_view() =~= labelled(label@, color, bold, text@));
    Line { spans }
}

/// The lines of what the assistant said: one for each text. Its calls have events of their own.
pub open spec fn said(content: Seq<BlockView>) -> Seq<Seq<SpanView>>
    decreases content.len(),
{
    if content.len() == 0 {
        Seq::empty()
    } else {
        match content.last() {
            BlockView::Text { text } => said(content.drop_last()).push(
                labelled("rh  "@, Color::Cyan, true, text),
            ),
            _ => said(content.drop_last()),
        }
    }
}

/// The lines of an event.
pub open spec fn event_lines(e: EventView) -> Seq<Seq<SpanView>> {
    match e {
        EventView::UserMessage { content, .. } => seq![
            labelled("you "@, Color::Green, true, text_lines(content)),
        ],
        EventView::AssistantMessage { content, .. } => said(content),
        EventView::AssistantChunk { text, .. } => seq![
            labelled("rh  "@, Color::Cyan, true, text),
        ],
        EventView::ToolCall { tool_name, arguments, .. } => seq![
            labelled(
                "tool"@,
                Color::Yellow,
                true,
                " "@ + tool_name + " "@ + json_compact(arguments),
            ),
        ],
        EventView::ToolResult { output, is_error, .. } => seq![
            labelled(
                (if is_error {
                    "  ✗ "@
                } else {
                    "  ✓ "@
                }),
                (if is_error {
                    Color::Red
                } else {
                    Color::Green
                }),
                false,
                truncated(json_compact(output), 500),
            ),
        ],
        EventView::TurnStart { .. } => seq![note("── turn ──"@, Color::DarkGray)],
        _ => Seq::empty(),
    }
}

fn one_line(line: Line) -> (r: Vec<Line>)
    ensures
        r.deep_view() == seq![line@],
{
    let mut out: Vec<Line> = Vec::new();
    out.push(line);
    assert(out.deep_view() =~= seq![line@]);
    out
}

fn said_lines(content: &Vec<ContentBlock>) -> (out: Vec<Line>)
    ensures
        out.deep_view() == said(content.deep_view()),
{
    let ghost all = content.deep_view();
    let mut out: Vec<Line> = Vec::new();
    let mut i: usize = 0;
    assert(out.deep_view() =~= said(all.take(0)));
    while i < content.len()
        invariant
            i <= content@.len(),
            all == content.deep_view(),
            out.deep_view() == said(all.take(i as int)),
        decreases content@.len() - i,
    {
        proof {
            assert(all.take(i + 1).drop_last() =~= all.take(i as int));
            assert(all.take(i + 1).last() == content@[i as int]@);
        }
        let ghost before = out.deep_view();
        match &content[i] {
            ContentBlock::Text { text } => {
                let line = labelled_line("rh  ", Color::Cyan, true, text.as_str());
                out.push(line);
                assert(out.deep_view() =~= before.push(line@));
            },
            _ => {},
        }
        i = i + 1;
    }
    assert(all.take(i as int) =~= all);
    out
}

/// Renders an event as lines of the transcript.
pub fn render_event(event: &SessionEvent) -> (out: Vec<Line>)
    ensures
        out.deep_view() == event_lines(event@),
{
    match event {
        SessionEvent::UserMessage { content, .. } => {
            let text = text_of(content);
            one_line(labelled_line("you ", Color::Green, true, text.as_str()))
        },
        SessionEvent::AssistantMessage { content, .. } => said_lines(content),
        SessionEvent::AssistantChunk { text, .. } => one_line(
            labelled_line("rh  ", Color::Cyan, true, text.as_str()),
        ),
        SessionEvent::ToolCall { tool_name, arguments, .. } => {
            let mut text = concat3(" ", tool_name.as_str(), " ");
            text.append(arguments.to_text().as_str());
            one_line(labelled_line("tool", Color::Yellow, true, text.as_str()))
        },
        SessionEvent::ToolResult { output, is_error, .. } => {
            let text = truncate(output.to_text().as_str(), 500);
            let line = if *is_error {
                labelled_line("  ✗ ", Color::Red, false, text.as_str())
            } else {
                labelled_line("  ✓ ", Color::Green, false, text.as_str())
            };
            one_line(line)
        },
        SessionEvent::TurnStart { .. } => one_line(note_line("── turn ──", Color::DarkGray)),
        _ => {
            let out: Vec<Line> = Vec::new();
            assert(out.deep_view() =~= Seq::empty());
            out
        },
    }
}

/// The state of the screen.
#[derive(Debug)]
pub struct App {
    lines: Vec<Line>,
    input: String,
    running: bool,
}

/// What the state of the screen stands for.
#[verifier::ext_equal]
pub struct AppView {
    /// The transcript.
    pub lines: Seq<Seq<SpanView>>,
    pub input: Seq<char>,
    /// Whether a turn is running.
    pub running: bool,
}

impl View for App {
    type V = AppView;

    closed spec fn view(&self) -> AppView {
        AppView { lines: self.lines.deep_view(), input: self.input@, running: self.running }
    }
}

/// A key, as far as the screen tells keys apart.
#[derive(Debug, Clone, Copy, PartialEq, Eq, Structural)]
pub enum Key {
    /// A character, and whether the control key was held.
    Char(char, bool),
    Enter,
    Backspace,
    Escape,
    Other,
}

/// What a key calls for beyond the screen.
#[derive(Debug, PartialEq, Eq)]
pub enum Reaction {
    Nothing,
    /// The program ends.
    Quit,
    /// A turn begins on an input.
    Run(String),
}

/// Whether a key ends the program.
pub open spec fn ends(key: Key) -> bool {
    match key {
        Key::Char(c, control) => c == 'q' || (c == 'c' && control),
        Key::Escape => true,
        _ => false,
    }
}

/// The input that is submitted: what was typed, unless it is blank or a turn is running.
pub open spec fn submission(a: AppView) -> Option<Seq<char>> {
    if trimmed(a.input).len() == 0 || a.running {
        None
    } else {
        Some(trimmed(a.input))
    }
}

/// The screen after a key.
pub open spec fn pressed(a: AppView, key: Key) -> AppView {
    if ends(key) {
        a
    } else {
        match key {
            Key::Enter => match submission(a) {
                Some(_) => AppView { input: Seq::empty(), running: true, ..a },
                None => a,
            },
            Key::Backspace => AppView {
                input: (if a.input.len() > 0 {
                    a.input.drop_last()
                } else {
                    a.input
                }),
                ..a
            },
            Key::Char(c, _) => AppView { input: a.input.push(c), ..a },
            _ => a,
        }
    }
}

/// The lines that fit on a screen of the given height, with its border: the last ones.
pub open spec fn shown(lines: Seq<Seq<SpanView>>, height: u16) -> Seq<Seq<SpanView>> {
    let room = if height >= 2 {
        height - 2
    } else {
        0
    };
    if lines.len() > room {
        lines.skip(lines.len() - room)
    } else {
        lines
    }
}

impl Default for App {
    fn default() -> (r: Self)
        ensures
            r@ == (AppView {
                lines: seq![note("type a task and press Enter (q to quit)"@, Color::DarkGray)],
                input: Seq::empty(),
                running: false,
            }),
    {
        let r = App {
            lines: one_line(
                note_line("type a task and press Enter (q to quit)", Color::DarkGray),
            ),
            input: String::new(),
            running: false,
        };
        assert(r.input@ =~= Seq::empty());
        r
    }
}

impl App {
    /// Adds an event of the session to the transcript.
    pub fn push_event(&mut self, event: &SessionEvent)
        ensures
            final(self)@ == (AppView {
                lines: old(self)@.lines + event_lines(event@),
                ..old(self)@
            }),
    {
        let ghost before = self@.lines;
        let mut lines = render_event(event);
        let ghost more = lines.deep_view();
        self.lines.append(&mut lines);
        assert(self.lines.deep_view() =~= before + more);
    }

    /// Takes note that the turn is over; a failure is told in the transcript.
    pub fn done(&mut self, result: Result<(), String>)
        ensures
            final(self)@ == (AppView {
                lines: (match result {
                    Ok(()) => old(self)@.lines,
                    Err(e) => old(self)@.lines.push(labelled("error "@, Color::Red, true, e@)),
                }),
                running: false,
                ..old(self)@
            }),
    {
        let ghost before = self@.lines;
        self.running = false;
        match result {
            Ok(()) => {},
            Err(e) => {
                let line = labelled_line("error ", Color::Red, true, e.as_str());
                self.lines.push(line);
                assert(self.lines.deep_view() =~= before.push(line@));
            },
        }
    }

    /// Takes up what was typed as the input of a turn.
    pub fn submit(&mut self) -> (r: Option<String>)
        ensures
            r.deep_view() == submission(old(self)@),
            final(self)@ == pressed(old(self)@, Key::Enter),
    {
        let input = trim(self.input.as_str());
        if input.as_str().is_empty() || self.running {
            return None;
        }
        self.input = String::new();
        assert(self.input@ =~= Seq::empty());
        self.running = true;
        Some(input)
    }

    /// Takes in a key, and tells what it calls for.
    pub fn press(&mut self, key: Key) -> (r: Reaction)
        ensures
            final(self)@ == pressed(old(self)@, key),
            match r {
                Reaction::Quit => ends(key),
                Reaction::Run(input) => key == Key::Enter && submission(old(self)@) == Some(input@),
                Reaction::Nothing => !ends(key) && (key == Key::Enter ==> submission(
                    old(self)@,
                ) is None),
            },
    {
        match key {
            Key::Char(c, control) => if c == 'q' || (c == 'c' && control) {
                Reaction::Quit
            } else {
                self.input.push(c);
                Reaction::Nothing
            },
            Key::Escape => Reaction::Quit,
            Key::Enter => match self.submit() {
                Some(input) => Reaction::Run(input),
                None => Reaction::Nothing,
            },
            Key::Backspace => {
                let v = chars_of(self.input.as_str());
                if v.len() > 0 {
                    let rest = text_between(&v, 0, v.len() - 1);
                    assert(rest@ =~= self@.input.drop_last());
                    self.input = rest;
                }
                Reaction::Nothing
            },
            Key::Other => Reaction::Nothing,
        }
    }

    /// The title over the transcript.
    pub fn title(&self) -> (r: String)
        ensures
            r@ == " rh — Rust Harness Agent · "@ + (if self@.running {
                "working…"@
            } else {
                "idle"@
            }) + " · Enter: send · q: quit "@,
    {
        let status = if self.running { "working…" } else { "idle" };
        concat3(" rh — Rust Harness Agent · ", status, " · Enter: send · q: quit ")
    }

    /// The lines that fit on a screen of the given height: the last ones.
    pub fn visible(&self, height: u16) -> (r: Vec<Line>)
        ensures
            r.deep_view() == shown(self@.lines, height),
    {
        let room: usize = if height >= 2 {
            (height - 2) as usize
        } else {
            0
        };
        let start: usize = if self.lines.len() > room {
            self.lines.len() - room
        } else {
            0
        };
        let ghost all = self@.lines;
        let mut out: Vec<Line> = Vec::new();
        let mut i: usize = start;
        while i < self.lines.len()
            invariant
                start <= i <= self.lines@.len(),
                all == self.lines.deep_view(),
                out.deep_view() == all.subrange(start as int, i as int),
            decreases self.lines@.len() - i,
        {
            let ghost before = out.deep_view();
            out.push(self.lines[i].duplicate());
            assert(out.deep_view() =~= before.push(all[i as int]));
            assert(all.subrange(start as int, i + 1) =~= before.push(all[i as int]));
            i = i + 1;
        }
        assert(out.deep_view() =~= shown(all, height));
        out
    }

    /// What was typed.
    pub fn input(&self) -> (r: &str)
        ensures
            r@ == self@.input,
    {
        self.input.as_str()
    }

    /// The line of input.
    pub fn prompt(&self) -> (r: String)
        ensures
            r@ == "> "@ + self@.input,
    {
        concat2("> ", self.input.as_str())
    }
}

/// Where the cursor stands on the line of input: behind what was typed, `len` bytes of it, and
/// never beyond the border.
pub fn cursor_column(len: usize, width: u16) -> (r: u16)
    requires
        len % 65536 <= 65533,
    ensures
        r == (if 2 + len % 65536 < width {
            2 + len % 65536
        } else if width > 0 {
            width - 1
        } else {
            0
        }),
{
    let n: u16 = (len % 65536) as u16;
    if 2 + n < width {
        2 + n
    } else if width > 0 {
        width - 1
    } else {
        0
    }
}

/// The agent behind the screen.
pub fn tui_definition() -> (r: AgentDefinition)
    ensures
        r@ == plain_definition(
            "rh-tui"@,
            "mock"@,
            "You are a Rust harness agent. Use tools when useful."@,
        ),
{
    AgentDefinition::plain("rh-tui", "mock", "You are a Rust harness agent. Use tools when useful.")
}

/// The newest lines of the transcript are on the screen: all of them, or as many as there is room
/// for.
pub proof fn lemma_newest_lines_are_shown(lines: Seq<Seq<SpanView>>, height: u16)
    ensures
        shown(lines, height).len() <= lines.len(),
        shown(lines, height) == lines.skip(lines.len() - shown(lines, height).len()),
        height >= 2 && lines.len() >= height - 2 ==> shown(lines, height).len() == height - 2,
{
    assert(lines.skip(0) =~= lines);
}

} // verus!
