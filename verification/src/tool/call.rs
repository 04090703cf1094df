//! What a tool is handed for one call.
use vstd::prelude::*;
use vstd::string::*;

use crate::host::context::Context;
use crate::host::service::Service;
use crate::json::Json;
use crate::table::{Table, at};
use crate::tool::error::{ToolError, no_service};

verus! {

/// What a tool is handed for one call. The services that it needs it resolves from the context
/// that the call is made in.
#[derive(Debug)]
pub struct ToolCallContext {
    /// The session that the call belongs to.
    pub session_id: String,
    /// The directory that relative paths are resolved against.
    pub cwd: String,
    /// The identity of the call.
    pub tool_call_id: String,
    /// Further values, under their names.
    pub extensions: Table<Json>,
}

/// What a call context stands for.
#[verifier::ext_equal]
pub struct CallView {
    pub session_id: Seq<char>,
    pub cwd: Seq<char>,
    pub tool_call_id: Seq<char>,
    pub extensions: Seq<(Seq<char>, Json)>,
}

impl View for ToolCallContext {
    type V = CallView;

    open spec fn view(&self) -> CallView {
        CallView {
            session_id: self.session_id@,
            cwd: self.cwd@,
            tool_call_id: self.tool_call_id@,
            extensions: self.extensions@,
        }
    }
}

/// A call context without extensions.
pub open spec fn fresh_call(
    session_id: Seq<char>,
    tool_call_id: Seq<char>,
    cwd: Seq<char>,
) -> CallView {
    CallView { session_id, cwd, tool_call_id, extensions: Seq::empty() }
}

impl ToolCallContext {
    /// The context of a fresh call, in the working directory of the process.
    pub fn new(session_id: &str, tool_call_id: &str, cwd: &str) -> (r: ToolCallContext)
        ensures
            r@ == fresh_call(session_id@, tool_call_id@, cwd@),
    {
        ToolCallContext {
            session_id: session_id.to_owned(),
            cwd: cwd.to_owned(),
            tool_call_id: tool_call_id.to_owned(),
            extensions: Table::new(),
        }
    }

    /// The same call in another directory.
    pub fn with_cwd(self, cwd: &str) -> (r: ToolCallContext)
        ensures
            r@ == (CallView { cwd: cwd@, ..self@ }),
    {
        let mut r = self;
        r.cwd = cwd.to_owned();
        r
    }

    /// Resolves a service, or fails with an error that names it.
    pub fn service<'a, S: Service, H>(
        &self,
        context: &'a Context<S, H>,
        kind: &str,
        what: &str,
    ) -> (r: Result<&'a S, ToolError>)
        ensures
            match r {
                Ok(s) => at(context@.services, kind@) == Some(*s),
                Err(e) => at(context@.services, kind@) is None && e@ == no_service(what@),
            },
    {
        match context.service(kind) {
            Some(s) => Ok(s),
            None => Err(ToolError::missing_service(what)),
        }
    }
}

impl Default for ToolCallContext {
    fn default() -> (r: Self)
        ensures
            r@ == fresh_call(""@, ""@, "."@),
    {
        ToolCallContext::new("", "", ".")
    }
}

} // verus!
