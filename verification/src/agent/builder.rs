//! Building an agent from a definition and what the context offers.
use vstd::prelude::*;
use vstd::string::*;

use crate::agent::turn::{AgentDefinition, DefinitionView, Turn, begun, run, with_log};
use crate::duplicate::Duplicate;
use crate::harness::{Capability, CapabilityView, seen_capability, services};
use crate::host::context::Context;
use crate::session::ids::{Ids, later};
use crate::session::log::Session;
use crate::table::{at, lemma_mapped};
use crate::web::catalog::{ModelRoute, RouteView};

verus! {

/// A built agent: its definition, the session that it runs on and the model that it asks.
#[derive(Debug)]
pub struct Agent {
    definition: AgentDefinition,
    session_id: String,
    model: ModelRoute,
}

/// What an agent stands for.
#[verifier::ext_equal]
pub struct AgentView {
    pub definition: DefinitionView,
    pub session_id: Seq<char>,
    pub model: RouteView,
}

impl View for Agent {
    type V = AgentView;

    closed spec fn view(&self) -> AgentView {
        AgentView {
            definition: self.definition@,
            session_id: self.session_id@,
            model: self.model@,
        }
    }
}

impl Agent {
    /// What the agent was made from.
    pub fn definition(&self) -> (r: &AgentDefinition)
        ensures
            r@ == self@.definition,
    {
        &self.definition
    }

    /// The session that the agent runs on.
    pub fn session(&self) -> (r: &str)
        ensures
            r@ == self@.session_id,
    {
        self.session_id.as_str()
    }

    /// The model that the agent asks.
    pub fn model(&self) -> (r: &ModelRoute)
        ensures
            r@ == self@.model,
    {
        &self.model
    }

    /// Begins a turn on the session: the input is claimed, and the turn tells step by step what is
    /// asked of the model and the tools.
    pub fn run(&self, session: &mut Session, ids: &mut Ids, input: &str) -> (r: Turn)
        ensures
            run(r@, final(session)@.log) == begun(old(session)@.log, old(ids).at(), input@),
            final(session)@ == with_log(old(session)@, final(session)@.log),
            final(ids).at() == later(old(ids).at(), 2),
    {
        Turn::begin(session, ids, input)
    }
}

/// What an agent is built from.
#[derive(Debug)]
pub struct AgentBuilder {
    definition: AgentDefinition,
    model: Option<ModelRoute>,
}

impl View for AgentBuilder {
    type V = (DefinitionView, Option<RouteView>);

    closed spec fn view(&self) -> (DefinitionView, Option<RouteView>) {
        (self.definition@, self.model.deep_view())
    }
}

/// The agent that is built, or what the context lacks for it. A model that was given goes before
/// that of the context.
pub open spec fn built(
    definition: DefinitionView,
    model: Option<RouteView>,
    s: Seq<(Seq<char>, CapabilityView)>,
    session_id: Seq<char>,
) -> Result<AgentView, Seq<char>> {
    let chosen = match model {
        Some(m) => Some(m),
        None => match at(s, "ModelProvider"@) {
            Some(CapabilityView::Model(m)) => Some(m),
            _ => None,
        },
    };
    match chosen {
        None => Err("no model provider registered on the context"@),
        Some(m) => match at(s, "ToolRegistry"@) {
            Some(CapabilityView::Tools(_)) => Ok(
                AgentView { definition, session_id, model: m },
            ),
            _ => Err("no tool registry registered on the context"@),
        },
    }
}

impl AgentBuilder {
    pub fn new(definition: AgentDefinition) -> (r: AgentBuilder)
        ensures
            r@ == (definition@, None::<RouteView>),
    {
        AgentBuilder { definition, model: None }
    }

    /// Gives a model that goes before that of the context.
    pub fn with_model(self, model: ModelRoute) -> (r: AgentBuilder)
        ensures
            r@ == (self@.0, Some(model@)),
    {
        AgentBuilder { definition: self.definition, model: Some(model) }
    }

    /// Builds the agent for a session.
    pub fn build<H>(self, ctx: &Context<Capability, H>, session_id: &str) -> (r: Result<Agent, String>)
        ensures
            match r {
                Ok(a) => built(self@.0, self@.1, services(ctx@), session_id@) matches Ok(v) && v
                    == a@,
                Err(e) => built(self@.0, self@.1, services(ctx@), session_id@) matches Err(v) && v
                    == e@,
            },
    {
        proof {
            lemma_mapped(ctx@.services, seen_capability(), "ModelProvider"@, Capability::Shell);
            lemma_mapped(ctx@.services, seen_capability(), "ToolRegistry"@, Capability::Shell);
        }
        let model = match self.model {
            Some(m) => m,
            None => match ctx.service("ModelProvider") {
                Some(Capability::Model(m)) => m.duplicate(),
                _ => return Err("no model provider registered on the context".to_owned()),
            },
        };
        match ctx.service("ToolRegistry") {
            Some(Capability::Tools(_)) => Ok(
                Agent {
                    definition: self.definition,
                    session_id: session_id.to_owned(),
                    model,
                },
            ),
            _ => Err("no tool registry registered on the context".to_owned()),
        }
    }
}

} // verus!
