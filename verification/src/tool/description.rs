//! What is told of a tool: its description, its argument schema and its capabilities.
use vstd::prelude::*;

use crate::duplicate::Duplicate;
use crate::json::{Json, Tree, object};

verus! {

/// How calls of one tool may overlap.
#[derive(Debug, Clone, Copy, PartialEq, Eq, Structural)]
pub enum ToolConcurrency {
    /// One call at a time; others wait.
    Once,
    /// Any number of calls at once.
    Concurrent,
    /// Calls are queued and run strictly in order.
    Serial,
}

impl Default for ToolConcurrency {
    fn default() -> (r: Self)
        ensures
            r == ToolConcurrency::Once,
    {
        ToolConcurrency::Once
    }
}

/// What a tool can and does.
#[derive(Debug, Clone, Copy, PartialEq, Eq, Structural)]
pub struct ToolCapabilities {
    pub concurrency: ToolConcurrency,
    /// Whether the tool changes nothing.
    pub read_only: bool,
}

impl Default for ToolCapabilities {
    fn default() -> (r: Self)
        ensures
            r == (ToolCapabilities { concurrency: ToolConcurrency::Once, read_only: false }),
    {
        ToolCapabilities { concurrency: ToolConcurrency::Once, read_only: false }
    }
}

/// What a model is told of a tool: its name, what it does, and the JSON Schema of its arguments.
#[derive(Debug, Clone)]
pub struct ToolDescription {
    pub name: String,
    pub description: String,
    pub parameters: Json,
}

/// What a description stands for.
pub struct DescriptionView {
    pub name: Seq<char>,
    pub description: Seq<char>,
    pub parameters: Tree,
}

impl View for ToolDescription {
    type V = DescriptionView;

    open spec fn view(&self) -> DescriptionView {
        DescriptionView {
            name: self.name@,
            description: self.description@,
            parameters: self.parameters@,
        }
    }
}

impl DeepView for ToolDescription {
    type V = DescriptionView;

    open spec fn deep_view(&self) -> DescriptionView {
        self@
    }
}

impl Duplicate for ToolDescription {
    fn duplicate(&self) -> (r: Self) {
        ToolDescription {
            name: self.name.clone(),
            description: self.description.clone(),
            parameters: self.parameters.duplicate(),
        }
    }
}

/// The JSON form of a description.
pub open spec fn description_tree(d: DescriptionView) -> Tree {
    object().with("name"@, Tree::Text(d.name)).with("description"@, Tree::Text(d.description)).with(
        "parameters"@,
        d.parameters,
    )
}

impl ToolDescription {
    pub fn new(name: &str, description: &str, parameters: Json) -> (r: ToolDescription)
        ensures
            r@ == (DescriptionView {
                name: name@,
                description: description@,
                parameters: parameters@,
            }),
    {
        ToolDescription {
            name: name.to_owned(),
            description: description.to_owned(),
            parameters,
        }
    }

    /// The JSON form of the description.
    pub fn to_json(&self) -> (r: Json)
        ensures
            r@ == description_tree(self@),
    {
        Json::object().with("name", Json::text(self.name.as_str())).with(
            "description",
            Json::text(self.description.as_str()),
        ).with("parameters", self.parameters.duplicate())
    }
}

} // verus!
