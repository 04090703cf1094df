//! One turn: the user's input, then steps of a model request and the tool calls that it asks for.
//! The model and the tools are outside; what they say is handed in as it comes.
use vstd::prelude::*;
use vstd::string::*;

use crate::agent::model::{
    FinishReason, ModelEvent, ModelEventView, ModelMessage, ModelRequest, ModelToolCall,
    RequestView, ToolCallView, wires,
};
use crate::duplicate::Duplicate;
use crate::json::{Json, Tree};
use crate::session::event::{BlockView, ContentBlock, EventView, SessionEvent, text_content};
use crate::session::ids::{IdKind, Ids, after, id_text, later, next_call_id, next_id};
use crate::session::log::{Session, SessionView};
use crate::session::projection::model_history;
use crate::tool::call::{ToolCallContext, fresh_call};
use crate::tool::registry::{Tool, ToolRegistry, manifest};

verus! {

/// What an agent is made from: its name, its model, its prompt, its tools and its step budget.
#[derive(Debug, Clone)]
pub struct AgentDefinition {
    pub name: String,
    pub model: String,
    pub system_prompt: String,
    pub tool_ids: Vec<String>,
    pub max_steps: usize,
}

/// What a definition stands for.
#[verifier::ext_equal]
pub struct DefinitionView {
    pub name: Seq<char>,
    pub model: Seq<char>,
    pub system_prompt: Seq<char>,
    pub tool_ids: Seq<Seq<char>>,
    pub max_steps: nat,
}

impl View for AgentDefinition {
    type V = DefinitionView;

    open spec fn view(&self) -> DefinitionView {
        DefinitionView {
            name: self.name@,
            model: self.model@,
            system_prompt: self.system_prompt@,
            tool_ids: self.tool_ids.deep_view(),
            max_steps: self.max_steps as nat,
        }
    }
}

impl Duplicate for AgentDefinition {
    fn duplicate(&self) -> (r: Self) {
        AgentDefinition {
            name: self.name.clone(),
            model: self.model.clone(),
            system_prompt: self.system_prompt.clone(),
            tool_ids: self.tool_ids.duplicate(),
            max_steps: self.max_steps,
        }
    }
}

impl DeepView for AgentDefinition {
    type V = DefinitionView;

    open spec fn deep_view(&self) -> DefinitionView {
        self@
    }
}

/// The steps that an agent may take where nothing else is said.
pub fn default_max_steps() -> (r: usize)
    ensures
        r == 8,
{
    8
}

/// A definition without tools of its own and with the default step budget.
pub open spec fn plain_definition(
    name: Seq<char>,
    model: Seq<char>,
    system_prompt: Seq<char>,
) -> DefinitionView {
    DefinitionView { name, model, system_prompt, tool_ids: Seq::empty(), max_steps: 8 }
}

impl AgentDefinition {
    /// A definition without tools of its own and with the default step budget.
    pub fn plain(name: &str, model: &str, system_prompt: &str) -> (r: AgentDefinition)
        ensures
            r@ == plain_definition(name@, model@, system_prompt@),
    {
        let r = AgentDefinition {
            name: name.to_owned(),
            model: model.to_owned(),
            system_prompt: system_prompt.to_owned(),
            tool_ids: Vec::new(),
            max_steps: default_max_steps(),
        };
        assert(r@ =~= plain_definition(name@, model@, system_prompt@));
        r
    }
}

impl Default for AgentDefinition {
    fn default() -> (r: Self)
        ensures
            r@ == plain_definition(
                "rh-agent"@,
                "deepseek-chat"@,
                "You are a harness agent. Call tools when useful."@,
            ),
    {
        AgentDefinition::plain(
            "rh-agent",
            "deepseek-chat",
            "You are a harness agent. Call tools when useful.",
        )
    }
}

/// The durable transcript of a run: the log of the session after the turn closed.
#[derive(Debug, Clone)]
pub struct RunReport {
    pub events: Vec<SessionEvent>,
}

/// What a turn waits for.
#[derive(Debug, Clone, Copy, PartialEq, Eq, Structural)]
pub enum Stage {
    /// A step may begin.
    Ready,
    /// The model is speaking.
    Listening,
    /// Tool calls are to be made.
    Calling,
    /// A tool is running.
    Waiting,
    /// Nothing is owed any more.
    Closing,
    /// The turn is closed.
    Ended,
}

/// A turn in progress.
#[derive(Debug)]
pub struct Turn {
    turn_id: String,
    stage: Stage,
    steps: usize,
    step_id: String,
    message_id: String,
    text: String,
    calls: Vec<ModelToolCall>,
    next_call: usize,
    finish: FinishReason,
}

/// What a turn stands for.
#[verifier::ext_equal]
pub struct TurnView {
    pub turn_id: Seq<char>,
    pub stage: Stage,
    /// The steps that were begun.
    pub steps: nat,
    pub step_id: Seq<char>,
    pub message_id: Seq<char>,
    /// What the model said in this step.
    pub text: Seq<char>,
    /// The calls that the model asked for in this step.
    pub calls: Seq<ToolCallView>,
    /// How many of them were answered.
    pub next_call: nat,
    pub finish: FinishReason,
}

impl View for Turn {
    type V = TurnView;

    closed spec fn view(&self) -> TurnView {
        TurnView {
            turn_id: self.turn_id@,
            stage: self.stage,
            steps: self.steps as nat,
            step_id: self.step_id@,
            message_id: self.message_id@,
            text: self.text@,
            calls: self.calls.deep_view(),
            next_call: self.next_call as nat,
            finish: self.finish,
        }
    }
}

/// A turn, and the log that it writes to.
#[verifier::ext_equal]
pub struct RunView {
    pub turn: TurnView,
    pub log: Seq<EventView>,
}

/// A turn, and the log that it writes to.
pub open spec fn run(turn: TurnView, log: Seq<EventView>) -> RunView {
    RunView { turn, log }
}

/// A session with another log.
pub open spec fn with_log(s: SessionView, log: Seq<EventView>) -> SessionView {
    SessionView { log, ..s }
}

/// The run after its input was claimed.
pub open spec fn begun(log: Seq<EventView>, ids: u64, input: Seq<char>) -> RunView {
    let turn_id = id_text(IdKind::Turn, ids);
    RunView {
        turn: TurnView {
            turn_id,
            stage: Stage::Ready,
            steps: 0,
            step_id: ""@,
            message_id: ""@,
            text: Seq::empty(),
            calls: Seq::empty(),
            next_call: 0,
            finish: FinishReason::Stop,
        },
        log: log.push(EventView::TurnStart { turn_id }).push(
            EventView::UserMessage {
                message_id: id_text(IdKind::Message, after(ids)),
                content: seq![BlockView::Text { text: input }],
            },
        ),
    }
}

/// The run after a step began: the model is about to speak. Three identities are taken: for the
/// step, for the listing of the tools, and for the message.
pub open spec fn asking(r: RunView, ids: u64) -> RunView {
    let step_id = id_text(IdKind::Step, ids);
    RunView {
        turn: TurnView {
            stage: Stage::Listening,
            steps: r.turn.steps + 1,
            step_id,
            message_id: id_text(IdKind::Message, after(after(ids))),
            text: Seq::empty(),
            calls: Seq::empty(),
            next_call: 0,
            finish: FinishReason::Stop,
            ..r.turn
        },
        log: r.log.push(EventView::StepStart { step_id }),
    }
}

/// The run after the turn closed.
pub open spec fn closed_turn(r: RunView) -> RunView {
    RunView {
        turn: TurnView { stage: Stage::Ended, ..r.turn },
        log: r.log.push(EventView::TurnEnd { turn_id: r.turn.turn_id }),
    }
}

/// The run after the current step closed.
pub open spec fn closed_step(r: RunView, stage: Stage) -> RunView {
    RunView {
        turn: TurnView { stage, ..r.turn },
        log: r.log.push(EventView::StepEnd { step_id: r.turn.step_id }),
    }
}

/// The run where a step may begin: another step, or the end where the budget is spent.
pub open spec fn from_ready(r: RunView, ids: u64, max_steps: nat) -> RunView {
    if r.turn.steps < max_steps {
        asking(r, ids)
    } else {
        closed_turn(r)
    }
}

/// The run after the next tool call was logged.
pub open spec fn calling(r: RunView) -> RunView {
    let call = r.turn.calls[r.turn.next_call as int];
    RunView {
        turn: TurnView { stage: Stage::Waiting, ..r.turn },
        log: r.log.push(
            EventView::ToolCall {
                tool_call_id: call.id,
                tool_name: call.name,
                arguments: call.arguments,
            },
        ),
    }
}

/// The run after the next thing that it can do by itself.
pub open spec fn advanced(r: RunView, ids: u64, max_steps: nat) -> RunView {
    match r.turn.stage {
        Stage::Ready => from_ready(r, ids, max_steps),
        Stage::Calling => if r.turn.next_call < r.turn.calls.len() {
            calling(r)
        } else {
            from_ready(closed_step(r, Stage::Ready), ids, max_steps)
        },
        Stage::Closing => closed_turn(r),
        _ => r,
    }
}

/// The number of the next identity after the run went on: a step takes three.
pub open spec fn ids_after(before: RunView, after_run: RunView, ids: u64) -> u64 {
    if after_run.turn.stage == Stage::Listening && before.turn.stage != Stage::Listening {
        later(ids, 3)
    } else {
        ids
    }
}

/// The run after one event of the completion.
pub open spec fn heard(r: RunView, e: ModelEventView) -> RunView {
    if r.turn.stage != Stage::Listening {
        r
    } else {
        match e {
            ModelEventView::Text(s) => RunView {
                turn: TurnView { text: r.turn.text + s, ..r.turn },
                log: r.log.push(
                    EventView::AssistantChunk { message_id: r.turn.message_id, text: s },
                ),
            },
            ModelEventView::Reasoning(s) => RunView {
                log: r.log.push(
                    EventView::ReasoningChunk { message_id: r.turn.message_id, text: s },
                ),
                ..r
            },
            ModelEventView::ToolCall(c) => RunView {
                turn: TurnView { calls: r.turn.calls.push(c), ..r.turn },
                ..r
            },
            ModelEventView::Done(reason) => RunView {
                turn: TurnView { finish: reason, ..r.turn },
                ..r
            },
        }
    }
}

/// The content of the assistant's message: the text, where there is any, then the calls.
pub open spec fn assistant_content(text: Seq<char>, calls: Seq<ToolCallView>) -> Seq<BlockView> {
    (if text.len() > 0 {
        seq![BlockView::Text { text }]
    } else {
        Seq::empty()
    }) + Seq::new(
        calls.len(),
        |i: int|
            BlockView::ToolCall {
                id: calls[i].id,
                name: calls[i].name,
                arguments: calls[i].arguments,
            },
    )
}

/// Whether the step goes on with tool calls.
pub open spec fn wants_tools(t: TurnView) -> bool {
    t.finish == FinishReason::ToolCalls && t.calls.len() > 0
}

/// The run after the completion ended.
pub open spec fn heard_all(r: RunView) -> RunView {
    if r.turn.stage != Stage::Listening {
        r
    } else {
        let said = RunView {
            turn: TurnView { stage: Stage::Calling, ..r.turn },
            log: r.log.push(
                EventView::AssistantMessage {
                    message_id: r.turn.message_id,
                    content: assistant_content(r.turn.text, r.turn.calls),
                },
            ),
        };
        if wants_tools(r.turn) {
            said
        } else {
            closed_step(said, Stage::Closing)
        }
    }
}

/// The run after the tool answered.
pub open spec fn answered(r: RunView, output: Tree, is_error: bool) -> RunView {
    if r.turn.stage != Stage::Waiting || r.turn.next_call >= r.turn.calls.len() {
        r
    } else {
        RunView {
            turn: TurnView {
                stage: Stage::Calling,
                next_call: r.turn.next_call + 1,
                ..r.turn
            },
            log: r.log.push(
                EventView::ToolResult {
                    tool_call_id: r.turn.calls[r.turn.next_call as int].id,
                    output,
                    is_error,
                },
            ),
        }
    }
}

/// A tool call to be made.
#[derive(Debug)]
pub struct ToolOrder {
    pub call: ModelToolCall,
    pub context: ToolCallContext,
}

/// What a run asks of the outside.
#[derive(Debug)]
pub enum Action {
    /// Ask the model, and hand in what it says.
    Ask(ModelRequest),
    /// Call a tool, and hand in its answer.
    Call(ToolOrder),
    /// The turn is closed.
    Finish(RunReport),
    /// Nothing: the model or a tool is owed an answer, or the turn was closed before.
    Wait,
}

/// The request of a step. It is made of the log and the definition alone.
pub open spec fn request_of<T: Tool>(
    log: Seq<EventView>,
    session: SessionView,
    ids: u64,
    d: DefinitionView,
    tools: Seq<(Seq<char>, T)>,
) -> RequestView {
    RequestView {
        model: d.model,
        messages: wires(model_history(Some(d.system_prompt), log)),
        tools: manifest(
            tools,
            fresh_call(session.id, id_text(IdKind::ToolCall, ids), session.workspace),
        ),
    }
}

/// What `advance` asks for, given the run before and the run after.
pub open spec fn action_fits<T: Tool>(
    a: Action,
    before: RunView,
    after_run: RunView,
    ids: u64,
    session: SessionView,
    d: DefinitionView,
    tools: Seq<(Seq<char>, T)>,
) -> bool {
    let moves = before.turn.stage == Stage::Ready || before.turn.stage == Stage::Calling
        || before.turn.stage == Stage::Closing;
    match a {
        Action::Ask(q) => {
            &&& moves
            &&& after_run.turn.stage == Stage::Listening
            &&& q@ == request_of(after_run.log, session, after(ids), d, tools)
        },
        Action::Call(o) => {
            &&& moves
            &&& after_run.turn.stage == Stage::Waiting
            &&& o.call@ == before.turn.calls[before.turn.next_call as int]
            &&& o.context@ == fresh_call(session.id, o.call@.id, session.workspace)
        },
        Action::Finish(report) => {
            &&& moves
            &&& after_run.turn.stage == Stage::Ended
            &&& report.events.deep_view() == after_run.log
        },
        Action::Wait => !moves,
    }
}

fn assistant_blocks(text: &str, calls: &Vec<ModelToolCall>) -> (blocks: Vec<ContentBlock>)
    ensures
        blocks.deep_view() == assistant_content(text@, calls.deep_view()),
{
    let mut blocks: Vec<ContentBlock> = Vec::new();
    if !text.is_empty() {
        blocks.push(ContentBlock::Text { text: text.to_owned() });
    }
    let ghost head = blocks.deep_view();
    let ghost whole = assistant_content(text@, calls.deep_view());
    assert(head =~= (if text@.len() > 0 {
        seq![BlockView::Text { text: text@ }]
    } else {
        Seq::empty()
    }));
    let mut i: usize = 0;
    assert(head =~= whole.take(head.len() as int));
    while i < calls.len()
        invariant
            i <= calls@.len(),
            whole == assistant_content(text@, calls.deep_view()),
            whole.len() == head.len() + calls@.len(),
            forall|k: int|
                0 <= k < calls@.len() ==> whole[head.len() + k] == (BlockView::ToolCall {
                    id: (#[trigger] calls@[k]).id@,
                    name: calls@[k].name@,
                    arguments: calls@[k].arguments@,
                }),
            blocks.deep_view() == whole.take(head.len() + i),
        decreases calls@.len() - i,
    {
        let ghost before = blocks.deep_view();
        blocks.push(
            ContentBlock::ToolCall {
                id: calls[i].id.clone(),
                name: calls[i].name.clone(),
                arguments: calls[i].arguments.duplicate(),
            },
        );
        assert(blocks.deep_view() =~= before.push(whole[head.len() + i]));
        assert(whole.take(head.len() + i + 1) =~= before.push(whole[head.len() + i]));
        i = i + 1;
    }
    assert(whole.take(head.len() + i) =~= whole);
    blocks
}

impl Turn {
    /// Claims the input: the turn opens and the user's message is logged.
    pub fn begin(session: &mut Session, ids: &mut Ids, input: &str) -> (r: Turn)
        ensures
            run(r@, final(session)@.log) == begun(old(session)@.log, old(ids).at(), input@),
            final(session)@ == with_log(old(session)@, final(session)@.log),
            final(ids).at() == later(old(ids).at(), 2),
    {
        proof {
            reveal_with_fuel(later, 4);
        }
        let turn_id = next_id(ids, IdKind::Turn);
        let _ = session.append(SessionEvent::TurnStart { turn_id: turn_id.clone() });
        let message_id = next_id(ids, IdKind::Message);
        let _ = session.append(
            SessionEvent::UserMessage { message_id, content: text_content(input) },
        );
        let r = Turn {
            turn_id,
            stage: Stage::Ready,
            steps: 0,
            step_id: "".to_owned(),
            message_id: "".to_owned(),
            text: String::new(),
            calls: Vec::new(),
            next_call: 0,
            finish: FinishReason::Stop,
        };
        assert(r@.calls =~= Seq::empty());
        r
    }

    /// What the turn waits for.
    pub fn stage(&self) -> (r: Stage)
        ensures
            r == self@.stage,
    {
        self.stage
    }

    fn close(&mut self, session: &mut Session) -> (report: RunReport)
        ensures
            run(final(self)@, final(session)@.log) == closed_turn(
                run(old(self)@, old(session)@.log),
            ),
            final(session)@ == with_log(old(session)@, final(session)@.log),
            report.events.deep_view() == final(session)@.log,
    {
        let _ = session.append(SessionEvent::TurnEnd { turn_id: self.turn_id.clone() });
        self.stage = Stage::Ended;
        RunReport { events: session.events() }
    }

    fn ask<T: Tool>(
        &mut self,
        session: &mut Session,
        ids: &mut Ids,
        definition: &AgentDefinition,
        tools: &ToolRegistry<T>,
    ) -> (q: ModelRequest)
        requires
            old(self)@.steps < definition@.max_steps,
        ensures
            run(final(self)@, final(session)@.log) == asking(
                run(old(self)@, old(session)@.log),
                old(ids).at(),
            ),
            final(session)@ == with_log(old(session)@, final(session)@.log),
            final(ids).at() == later(old(ids).at(), 3),
            q@ == request_of(
                final(session)@.log,
                old(session)@,
                after(old(ids).at()),
                definition@,
                tools@,
            ),
    {
        proof {
            reveal_with_fuel(later, 4);
        }
        let step_id = next_id(ids, IdKind::Step);
        let _ = session.append(SessionEvent::StepStart { step_id: step_id.clone() });
        let messages = session.derive_messages(Some(definition.system_prompt.as_str()));
        let model_messages = ModelMessage::from_session(&messages);
        let call_id = next_call_id(ids);
        let workspace = session.workspace();
        let listing = ToolCallContext::new(
            session.id(),
            call_id.as_str(),
            workspace.as_str(),
        );
        let q = ModelRequest {
            model: definition.model.clone(),
            messages: model_messages,
            tools: tools.list(&listing),
        };
        self.message_id = next_id(ids, IdKind::Message);
        self.step_id = step_id;
        self.steps = self.steps + 1;
        self.stage = Stage::Listening;
        self.text = String::new();
        self.calls = Vec::new();
        self.next_call = 0;
        self.finish = FinishReason::Stop;
        assert(self@.calls =~= Seq::empty());
        q
    }

    fn go_on<T: Tool>(
        &mut self,
        session: &mut Session,
        ids: &mut Ids,
        definition: &AgentDefinition,
        tools: &ToolRegistry<T>,
    ) -> (a: Action)
        requires
            old(self)@.stage == Stage::Ready,
        ensures
            run(final(self)@, final(session)@.log) == from_ready(
                run(old(self)@, old(session)@.log),
                old(ids).at(),
                definition@.max_steps,
            ),
            final(session)@ == with_log(old(session)@, final(session)@.log),
            final(ids).at() == (if final(self)@.stage == Stage::Listening {
                later(old(ids).at(), 3)
            } else {
                old(ids).at()
            }),
            match a {
                Action::Ask(q) => {
                    &&& final(self)@.stage == Stage::Listening
                    &&& q@ == request_of(
                        final(session)@.log,
                        old(session)@,
                        after(old(ids).at()),
                        definition@,
                        tools@,
                    )
                },
                Action::Finish(report) => {
                    &&& final(self)@.stage == Stage::Ended
                    &&& report.events.deep_view() == final(session)@.log
                },
                _ => false,
            },
    {
        if self.steps < definition.max_steps {
            Action::Ask(self.ask(session, ids, definition, tools))
        } else {
            Action::Finish(self.close(session))
        }
    }

    /// Does the next thing that the turn can do by itself, and tells what it asks of the outside.
    pub fn advance<T: Tool>(
        &mut self,
        session: &mut Session,
        ids: &mut Ids,
        definition: &AgentDefinition,
        tools: &ToolRegistry<T>,
    ) -> (a: Action)
        ensures
            run(final(self)@, final(session)@.log) == advanced(
                run(old(self)@, old(session)@.log),
                old(ids).at(),
                definition@.max_steps,
            ),
            final(session)@ == with_log(old(session)@, final(session)@.log),
            final(ids).at() == ids_after(
                run(old(self)@, old(session)@.log),
                run(final(self)@, final(session)@.log),
                old(ids).at(),
            ),
            action_fits(
                a,
                run(old(self)@, old(session)@.log),
                run(final(self)@, final(session)@.log),
                old(ids).at(),
                old(session)@,
                definition@,
                tools@,
            ),
    {
        match self.stage {
            Stage::Ready => self.go_on(session, ids, definition, tools),
            Stage::Calling => {
                if self.next_call < self.calls.len() {
                    let call = self.calls[self.next_call].duplicate();
                    let _ = session.append(
                        SessionEvent::ToolCall {
                            tool_call_id: call.id.clone(),
                            tool_name: call.name.clone(),
                            arguments: call.arguments.duplicate(),
                        },
                    );
                    let workspace = session.workspace();
                    let context = ToolCallContext::new(
                        session.id(),
                        call.id.as_str(),
                        workspace.as_str(),
                    );
                    self.stage = Stage::Waiting;
                    Action::Call(ToolOrder { call, context })
                } else {
                    let _ = session.append(
                        SessionEvent::StepEnd { step_id: self.step_id.clone() },
                    );
                    self.stage = Stage::Ready;
                    self.go_on(session, ids, definition, tools)
                }
            },
            Stage::Closing => Action::Finish(self.close(session)),
            _ => Action::Wait,
        }
    }

    /// Takes one event of the completion.
    pub fn hear(&mut self, session: &mut Session, event: ModelEvent)
        ensures
            run(final(self)@, final(session)@.log) == heard(
                run(old(self)@, old(session)@.log),
                event@,
            ),
            final(session)@ == with_log(old(session)@, final(session)@.log),
    {
        if self.stage != Stage::Listening {
            return;
        }
        match event {
            ModelEvent::Text(chunk) => {
                self.text.append(chunk.as_str());
                let _ = session.append(
                    SessionEvent::AssistantChunk {
                        message_id: self.message_id.clone(),
                        text: chunk,
                    },
                );
            },
            ModelEvent::Reasoning(chunk) => {
                let _ = session.append(
                    SessionEvent::ReasoningChunk {
                        message_id: self.message_id.clone(),
                        text: chunk,
                    },
                );
            },
            ModelEvent::ToolCall(call) => {
                let ghost before = self@.calls;
                self.calls.push(call);
                assert(self@.calls =~= before.push(call@));
            },
            ModelEvent::Done(reason) => {
                self.finish = reason;
            },
        }
    }

    /// The completion ended: the assembled message is logged.
    pub fn end_of_stream(&mut self, session: &mut Session)
        ensures
            run(final(self)@, final(session)@.log) == heard_all(
                run(old(self)@, old(session)@.log),
            ),
            final(session)@ == with_log(old(session)@, final(session)@.log),
    {
        if self.stage != Stage::Listening {
            return;
        }
        let content = assistant_blocks(self.text.as_str(), &self.calls);
        let _ = session.append(
            SessionEvent::AssistantMessage { message_id: self.message_id.clone(), content },
        );
        if self.finish == FinishReason::ToolCalls && self.calls.len() > 0 {
            self.stage = Stage::Calling;
        } else {
            let _ = session.append(SessionEvent::StepEnd { step_id: self.step_id.clone() });
            self.stage = Stage::Closing;
        }
    }

    /// Takes the answer of the tool that was called.
    pub fn answer(&mut self, session: &mut Session, output: Json, is_error: bool)
        ensures
            run(final(self)@, final(session)@.log) == answered(
                run(old(self)@, old(session)@.log),
                output@,
                is_error,
            ),
            final(session)@ == with_log(old(session)@, final(session)@.log),
    {
        if self.stage != Stage::Waiting || self.next_call >= self.calls.len() {
            return;
        }
        let _ = session.append(
            SessionEvent::ToolResult {
                tool_call_id: self.calls[self.next_call].id.clone(),
                output,
                is_error,
            },
        );
        self.next_call = self.next_call + 1;
        self.stage = Stage::Calling;
    }
}

} // verus!
