//! Tool errors.
use vstd::prelude::*;
use vstd::string::*;

use crate::duplicate::Duplicate;
use crate::text::{concat2, concat3};

verus! {

/// The ways in which a tool can fail.
#[derive(Debug, Clone, Copy, PartialEq, Eq, Structural)]
pub enum ToolErrorKind {
    /// The tool can neither be run nor streamed.
    NotImplemented,
    /// No tool of this identity is registered.
    NotFound,
    /// The tool ran and failed.
    Execution,
    /// A service that the tool needs is not registered.
    MissingService,
}

/// The words for a kind of failure.
pub open spec fn kind_words(kind: ToolErrorKind) -> Seq<char> {
    match kind {
        ToolErrorKind::NotImplemented => "not implemented"@,
        ToolErrorKind::NotFound => "not found"@,
        ToolErrorKind::Execution => "execution failed"@,
        ToolErrorKind::MissingService => "missing service"@,
    }
}

impl ToolErrorKind {
    /// The words for the kind of failure.
    pub fn words(self) -> (r: &'static str)
        ensures
            r@ == kind_words(self),
    {
        match self {
            ToolErrorKind::NotImplemented => "not implemented",
            ToolErrorKind::NotFound => "not found",
            ToolErrorKind::Execution => "execution failed",
            ToolErrorKind::MissingService => "missing service",
        }
    }
}

/// The error that every tool returns.
#[derive(Debug, Clone)]
pub struct ToolError {
    pub kind: ToolErrorKind,
    pub message: String,
}

/// What a tool error stands for.
pub struct ErrorView {
    pub kind: ToolErrorKind,
    pub message: Seq<char>,
}

impl View for ToolError {
    type V = ErrorView;

    open spec fn view(&self) -> ErrorView {
        ErrorView { kind: self.kind, message: self.message@ }
    }
}

impl DeepView for ToolError {
    type V = ErrorView;

    open spec fn deep_view(&self) -> ErrorView {
        self@
    }
}

impl Duplicate for ToolError {
    fn duplicate(&self) -> (r: Self) {
        ToolError { kind: self.kind, message: self.message.clone() }
    }
}

/// A failure of a tool that ran.
pub open spec fn failed(message: Seq<char>) -> ErrorView {
    ErrorView { kind: ToolErrorKind::Execution, message }
}

/// The failure to find a tool.
pub open spec fn unknown_tool(id: Seq<char>) -> ErrorView {
    ErrorView { kind: ToolErrorKind::NotFound, message: "tool `"@ + id + "` not found"@ }
}

/// The failure of a tool that can neither be run nor streamed.
pub open spec fn unimplemented_tool(id: Seq<char>) -> ErrorView {
    ErrorView {
        kind: ToolErrorKind::NotImplemented,
        message: "tool `"@ + id + "` implements neither `run` nor `execute`"@,
    }
}

/// The failure to resolve a service.
pub open spec fn no_service(what: Seq<char>) -> ErrorView {
    ErrorView {
        kind: ToolErrorKind::MissingService,
        message: "required capability service not registered: "@ + what,
    }
}

/// An error as it is shown.
pub open spec fn error_text(e: ErrorView) -> Seq<char> {
    kind_words(e.kind) + ": "@ + e.message
}

impl ToolError {
    pub fn new(kind: ToolErrorKind, message: &str) -> (r: ToolError)
        ensures
            r@ == (ErrorView { kind, message: message@ }),
    {
        ToolError { kind, message: message.to_owned() }
    }

    /// A tool that can neither be run nor streamed.
    pub fn not_implemented(id: &str) -> (r: ToolError)
        ensures
            r@ == unimplemented_tool(id@),
    {
        let message = concat3("tool `", id, "` implements neither `run` nor `execute`");
        ToolError::new(ToolErrorKind::NotImplemented, message.as_str())
    }

    /// A tool that is not registered.
    pub fn not_found(id: &str) -> (r: ToolError)
        ensures
            r@ == unknown_tool(id@),
    {
        let message = concat3("tool `", id, "` not found");
        ToolError::new(ToolErrorKind::NotFound, message.as_str())
    }

    /// A service that is not registered.
    pub fn missing_service(what: &str) -> (r: ToolError)
        ensures
            r@ == no_service(what@),
    {
        let message = concat2("required capability service not registered: ", what);
        ToolError::new(ToolErrorKind::MissingService, message.as_str())
    }

    /// A failure of a tool that ran.
    pub fn execution(message: &str) -> (r: ToolError)
        ensures
            r@ == failed(message@),
    {
        ToolError::new(ToolErrorKind::Execution, message)
    }

    /// The error as it is shown.
    pub fn text(&self) -> (r: String)
        ensures
            r@ == error_text(self@),
    {
        concat3(self.kind.words(), ": ", self.message.as_str())
    }
}

} // verus!
