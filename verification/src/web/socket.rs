//! The conversation with a browser over one socket: a session, its live events, and its input.
use vstd::prelude::*;
use vstd::string::*;

use crate::agent::turn::{AgentDefinition, plain_definition};
use crate::codec::Codec;
use crate::json::{Json, Tree, json_compact, json_read, object, parse};
use crate::keyed::lemma_found_carries_its_name;
use crate::providers::hub::{ModelHub, ProviderConfig, in_use};
use crate::session::event::SessionEvent;
use crate::session::ids::{Ids, after};
use crate::session::log::{Session, SessionView, fresh};
use crate::session::record::event_tree;
use crate::session::store::{
    FileWrite, SessionStore, StoreView, free_number, inserted, new_session_id, saved, session_at,
};
use crate::text::{clip, clipped, concat2, lemma_trimmed_beginning, same, trim, trimmed};
use crate::web::catalog::{ModelRoute, RouteView};

verus! {

/// A frame that tells of an error.
pub open spec fn error_text(error: Seq<char>) -> Seq<char> {
    json_compact(object().with("type"@, Tree::Text("error"@)).with("error"@, Tree::Text(error)))
}

/// A frame that tells of an error.
pub fn error_frame(error: &str) -> (r: String)
    ensures
        r@ == error_text(error@),
{
    Json::object().with("type", Json::text("error")).with("error", Json::text(error)).to_text()
}

/// The first frame of a conversation: the session that it is about.
pub open spec fn hello_text(session_id: Seq<char>) -> Seq<char> {
    json_compact(
        object().with("type"@, Tree::Text("hello"@)).with("session_id"@, Tree::Text(session_id)),
    )
}

/// A frame that carries an event of the session.
pub fn event_frame(event: &SessionEvent) -> (r: String)
    ensures
        r@ == json_compact(event_tree(event@)),
{
    event.to_json().to_text()
}

/// One conversation.
#[derive(Debug)]
pub struct Socket {
    session_id: String,
    running: bool,
}

/// What a conversation stands for.
#[verifier::ext_equal]
pub struct SocketView {
    pub session_id: Seq<char>,
    /// Whether a turn is running.
    pub running: bool,
}

impl View for Socket {
    type V = SocketView;

    closed spec fn view(&self) -> SocketView {
        SocketView { session_id: self.session_id@, running: self.running }
    }
}

/// A conversation that was just begun.
#[derive(Debug)]
pub struct Attached {
    pub socket: Socket,
    /// The first frame.
    pub hello: String,
    /// The file of a session that was created for it.
    pub save: Option<FileWrite>,
}

/// The input that a frame carries: that of an input frame, unless it is blank.
pub open spec fn input_in(frame: Seq<char>) -> Option<Seq<char>> {
    match json_read(frame) {
        Err(_) => None,
        Ok(value) => if value.text_at("type"@) == Some("input"@) {
            let input = trimmed(
                (match value.text_at("text"@) {
                    Some(s) => s,
                    None => ""@,
                }),
            );
            if input.len() == 0 {
                None
            } else {
                Some(input)
            }
        } else {
            None
        },
    }
}

impl Socket {
    /// Begins a conversation about the session that is asked for, or about a fresh one where there
    /// is no such session. Without a store there is only an error to tell.
    pub fn attach(
        store: Option<&mut SessionStore>,
        ids: &mut Ids,
        requested: Option<&str>,
        now: u64,
    ) -> (r: Result<Attached, String>)
        ensures
            match store {
                None => {
                    &&& r matches Err(frame)
                    &&& frame@ == error_text("未注册会话存储"@)
                    &&& final(ids).at() == old(ids).at()
                },
                Some(st) => if requested is Some && session_at((*st)@.sessions, requested->0@) is Some {
                    &&& r matches Ok(a)
                    &&& a.socket@ == (SocketView { session_id: requested->0@, running: false })
                    &&& a.hello@ == hello_text(requested->0@)
                    &&& a.save is None
                    &&& (*final(st))@ == (*st)@
                    &&& final(ids).at() == old(ids).at()
                } else {
                    let s = fresh(
                        new_session_id((*st)@.sessions, old(ids).at()),
                        "新会话"@,
                        (*st)@.observed,
                        (*st)@.home,
                        now,
                    );
                    &&& r matches Ok(a)
                    &&& a.socket@ == (SocketView { session_id: s.id, running: false })
                    &&& a.hello@ == hello_text(s.id)
                    &&& a.save.deep_view() == saved((*st)@.dir, s)
                    &&& (*final(st))@ == (StoreView {
                        sessions: inserted((*st)@.sessions, s),
                        ..(*st)@
                    })
                    &&& final(ids).at() == after(free_number((*st)@.sessions, old(ids).at()))
                },
            },
    {
        let store = match store {
            Some(st) => st,
            None => return Err(error_frame("未注册会话存储")),
        };
        let known = match requested {
            Some(id) => match store.get(id) {
                Some(_) => Some(id.to_owned()),
                None => None,
            },
            None => None,
        };
        let (session_id, save) = match known {
            Some(id) => (id, None),
            None => {
                let created = store.create_fresh(ids, now);
                (created.id, created.save)
            },
        };
        let hello = Json::object().with("type", Json::text("hello")).with(
            "session_id",
            Json::text(session_id.as_str()),
        ).to_text();
        Ok(Attached { socket: Socket { session_id, running: false }, hello, save })
    }

    /// The session that the conversation is about.
    pub fn session_id(&self) -> (r: &str)
        ensures
            r@ == self@.session_id,
    {
        self.session_id.as_str()
    }

    /// Whether a turn is running.
    pub fn running(&self) -> (r: bool)
        ensures
            r == self@.running,
    {
        self.running
    }

    /// Takes in a frame, and gives the input of the turn to run. Only one turn runs at a time:
    /// while it does, input is passed over.
    pub fn heard(&mut self, frame: &str) -> (r: Option<String>)
        ensures
            r.deep_view() == (if old(self)@.running {
                None
            } else {
                input_in(frame@)
            }),
            final(self)@ == (SocketView {
                running: old(self)@.running || r is Some,
                ..old(self)@
            }),
    {
        let value = match parse(frame) {
            Ok(v) => v,
            Err(_) => return None,
        };
        let is_input = match value.str_at("type") {
            Some(t) => same(t, "input"),
            None => false,
        };
        if !is_input {
            return None;
        }
        let text = match value.str_at("text") {
            Some(t) => t,
            None => "",
        };
        let input = trim(text);
        if input.as_str().is_empty() || self.running {
            return None;
        }
        self.running = true;
        Some(input)
    }

    /// Takes note that the turn is over, and gives the frame to send where it failed.
    pub fn done(&mut self, result: Result<(), String>) -> (r: Option<String>)
        ensures
            final(self)@ == (SocketView { running: false, ..old(self)@ }),
            r.deep_view() == (match result {
                Ok(()) => None,
                Err(e) => Some(error_text(e@)),
            }),
    {
        self.running = false;
        match result {
            Ok(()) => None,
            Err(e) => Some(error_frame(e.as_str())),
        }
    }
}

/// The title of a session that is about to run on an input: an untitled one is named after it.
pub open spec fn title_after(title: Seq<char>, input: Seq<char>) -> Seq<char> {
    if title == "新会话"@ && trimmed(clipped(input, 30)).len() > 0 {
        clipped(input, 30)
    } else {
        title
    }
}

/// Names an untitled session after its first input.
pub fn auto_title(session: &mut Session, input: &str)
    ensures
        final(session)@ == (SessionView {
            title: title_after(old(session)@.title, input@),
            ..old(session)@
        }),
{
    if same(session.title().as_str(), "新会话") {
        let title = clip(input, 30);
        if trim(title.as_str()).as_str().is_empty() {
            session.set_title("新会话");
        } else {
            session.set_title(title.as_str());
        }
    }
}

/// What a turn needs: how the model is asked, and who asks it.
#[derive(Debug)]
pub struct TurnPlan {
    pub model: ModelRoute,
    pub definition: AgentDefinition,
}

/// The prompt of the agent behind the front end.
pub open spec fn web_prompt(workspace: Seq<char>) -> Seq<char> {
    "You are a Rust harness agent. Use tools when useful.\n\n"@ + workspace
}

/// Plans a turn with the model that is in use, in a workspace that is summed up.
pub fn plan_turn(hub: &ModelHub, workspace: &str) -> (r: Result<TurnPlan, String>)
    ensures
        match in_use(hub@) {
            Some((provider, model)) => {
                &&& r matches Ok(plan)
                &&& plan.model@ == (RouteView::OpenAi {
                    provider: (provider.base_url, provider.api_key),
                    model: model.id,
                })
                &&& plan.definition@ == plain_definition(
                    "rh-web"@,
                    model.id,
                    web_prompt(workspace@),
                )
            },
            None => {
                &&& r matches Err(e)
                &&& e@ == "没有可用的模型，请先在设置里添加并选择"@
            },
        },
{
    let (provider, model) = match hub.active() {
        Some(x) => x,
        None => return Err("没有可用的模型，请先在设置里添加并选择".to_owned()),
    };
    proof {
        lemma_found_carries_its_name::<ProviderConfig>(hub@.providers, hub@.active_provider->0);
    }
    match hub.build_provider_for(provider.id.as_str()) {
        Ok(route) => {
            let prompt = concat2(
                "You are a Rust harness agent. Use tools when useful.\n\n",
                workspace,
            );
            let definition = AgentDefinition::plain("rh-web", model.id.as_str(), prompt.as_str());
            Ok(TurnPlan { model: ModelRoute::OpenAi { provider: route, model: model.id }, definition })
        },
        Err(e) => Err(e),
    }
}

/// An input that a conversation takes up names an untitled session: its first characters are the
/// title.
pub proof fn lemma_input_is_a_title(frame: Seq<char>)
    requires
        input_in(frame) is Some,
    ensures
        title_after("新会话"@, input_in(frame)->0) == clipped(input_in(frame)->0, 30),
{
    let text = match json_read(frame)->Ok_0.text_at("text"@) {
        Some(s) => s,
        None => ""@,
    };
    lemma_trimmed_beginning(text, 30);
}

} // verus!
