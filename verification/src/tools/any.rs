//! Every tool under one type, whatever its source.
use vstd::prelude::*;

use crate::mcp::client::McpTool;
use crate::plugins::PluginTool;
use crate::tool::call::{CallView, ToolCallContext};
use crate::tool::description::{
    DescriptionView, ToolCapabilities, ToolConcurrency, ToolDescription,
};
use crate::tool::registry::Tool;
use crate::tools::files::{BashTool, FsReadTool, FsWriteTool};
use crate::tools::search::{GlobTool, GrepTool};
use crate::tools::skills::{SkillListTool, SkillTool};
use crate::tools::subagent::{TaskKillTool, TaskOutputTool, TaskTool, TaskWaitTool};
use crate::tools::todo::{TodoWriteTool, WorkflowStepTool};
use crate::tools::web::{WebFetchTool, WebSearchTool};

verus! {

/// A tool: a built-in one, one of a server, or one of a plugin.
#[derive(Debug)]
pub enum AnyTool {
    Bash(BashTool),
    FsRead(FsReadTool),
    FsWrite(FsWriteTool),
    TodoWrite(TodoWriteTool),
    WebFetch(WebFetchTool),
    WebSearch(WebSearchTool),
    Grep(GrepTool),
    Glob(GlobTool),
    Task(TaskTool),
    TaskOutput(TaskOutputTool),
    TaskWait(TaskWaitTool),
    TaskKill(TaskKillTool),
    WorkflowStep(WorkflowStepTool),
    Skill(SkillTool),
    SkillList(SkillListTool),
    Mcp(McpTool),
    Plugin(PluginTool),
}

/// What a tool can and does: only the one that reads files changes nothing, and only its calls may
/// overlap.
pub open spec fn capable(t: AnyTool) -> ToolCapabilities {
    if t is FsRead {
        ToolCapabilities { concurrency: ToolConcurrency::Concurrent, read_only: true }
    } else {
        ToolCapabilities { concurrency: ToolConcurrency::Once, read_only: false }
    }
}

impl Tool for AnyTool {
    open spec fn named(&self) -> Seq<char> {
        match self {
            AnyTool::Bash(t) => t.named(),
            AnyTool::FsRead(t) => t.named(),
            AnyTool::FsWrite(t) => t.named(),
            AnyTool::TodoWrite(t) => t.named(),
            AnyTool::WebFetch(t) => t.named(),
            AnyTool::WebSearch(t) => t.named(),
            AnyTool::Grep(t) => t.named(),
            AnyTool::Glob(t) => t.named(),
            AnyTool::Task(t) => t.named(),
            AnyTool::TaskOutput(t) => t.named(),
            AnyTool::TaskWait(t) => t.named(),
            AnyTool::TaskKill(t) => t.named(),
            AnyTool::WorkflowStep(t) => t.named(),
            AnyTool::Skill(t) => t.named(),
            AnyTool::SkillList(t) => t.named(),
            AnyTool::Mcp(t) => t.named(),
            AnyTool::Plugin(t) => t.named(),
        }
    }

    open spec fn described(&self) -> DescriptionView {
        match self {
            AnyTool::Bash(t) => t.described(),
            AnyTool::FsRead(t) => t.described(),
            AnyTool::FsWrite(t) => t.described(),
            AnyTool::TodoWrite(t) => t.described(),
            AnyTool::WebFetch(t) => t.described(),
            AnyTool::WebSearch(t) => t.described(),
            AnyTool::Grep(t) => t.described(),
            AnyTool::Glob(t) => t.described(),
            AnyTool::Task(t) => t.described(),
            AnyTool::TaskOutput(t) => t.described(),
            AnyTool::TaskWait(t) => t.described(),
            AnyTool::TaskKill(t) => t.described(),
            AnyTool::WorkflowStep(t) => t.described(),
            AnyTool::Skill(t) => t.described(),
            AnyTool::SkillList(t) => t.described(),
            AnyTool::Mcp(t) => t.described(),
            AnyTool::Plugin(t) => t.described(),
        }
    }

    open spec fn listed(&self, ctx: CallView) -> bool {
        match self {
            AnyTool::Bash(t) => t.listed(ctx),
            AnyTool::FsRead(t) => t.listed(ctx),
            AnyTool::FsWrite(t) => t.listed(ctx),
            AnyTool::TodoWrite(t) => t.listed(ctx),
            AnyTool::WebFetch(t) => t.listed(ctx),
            AnyTool::WebSearch(t) => t.listed(ctx),
            AnyTool::Grep(t) => t.listed(ctx),
            AnyTool::Glob(t) => t.listed(ctx),
            AnyTool::Task(t) => t.listed(ctx),
            AnyTool::TaskOutput(t) => t.listed(ctx),
            AnyTool::TaskWait(t) => t.listed(ctx),
            AnyTool::TaskKill(t) => t.listed(ctx),
            AnyTool::WorkflowStep(t) => t.listed(ctx),
            AnyTool::Skill(t) => t.listed(ctx),
            AnyTool::SkillList(t) => t.listed(ctx),
            AnyTool::Mcp(t) => t.listed(ctx),
            AnyTool::Plugin(t) => t.listed(ctx),
        }
    }

    fn id(&self) -> (r: String) {
        match self {
            AnyTool::Bash(t) => t.id(),
            AnyTool::FsRead(t) => t.id(),
            AnyTool::FsWrite(t) => t.id(),
            AnyTool::TodoWrite(t) => t.id(),
            AnyTool::WebFetch(t) => t.id(),
            AnyTool::WebSearch(t) => t.id(),
            AnyTool::Grep(t) => t.id(),
            AnyTool::Glob(t) => t.id(),
            AnyTool::Task(t) => t.id(),
            AnyTool::TaskOutput(t) => t.id(),
            AnyTool::TaskWait(t) => t.id(),
            AnyTool::TaskKill(t) => t.id(),
            AnyTool::WorkflowStep(t) => t.id(),
            AnyTool::Skill(t) => t.id(),
            AnyTool::SkillList(t) => t.id(),
            AnyTool::Mcp(t) => t.id(),
            AnyTool::Plugin(t) => t.id(),
        }
    }

    fn description(&self) -> (r: ToolDescription) {
        match self {
            AnyTool::Bash(t) => t.description(),
            AnyTool::FsRead(t) => t.description(),
            AnyTool::FsWrite(t) => t.description(),
            AnyTool::TodoWrite(t) => t.description(),
            AnyTool::WebFetch(t) => t.description(),
            AnyTool::WebSearch(t) => t.description(),
            AnyTool::Grep(t) => t.description(),
            AnyTool::Glob(t) => t.description(),
            AnyTool::Task(t) => t.description(),
            AnyTool::TaskOutput(t) => t.description(),
            AnyTool::TaskWait(t) => t.description(),
            AnyTool::TaskKill(t) => t.description(),
            AnyTool::WorkflowStep(t) => t.description(),
            AnyTool::Skill(t) => t.description(),
            AnyTool::SkillList(t) => t.description(),
            AnyTool::Mcp(t) => t.description(),
            AnyTool::Plugin(t) => t.description(),
        }
    }

    fn capabilities(&self) -> (r: ToolCapabilities)
        ensures
            r == capable(*self),
    {
        match self {
            AnyTool::Bash(t) => t.capabilities(),
            AnyTool::FsRead(t) => t.capabilities(),
            AnyTool::FsWrite(t) => t.capabilities(),
            AnyTool::TodoWrite(t) => t.capabilities(),
            AnyTool::WebFetch(t) => t.capabilities(),
            AnyTool::WebSearch(t) => t.capabilities(),
            AnyTool::Grep(t) => t.capabilities(),
            AnyTool::Glob(t) => t.capabilities(),
            AnyTool::Task(t) => t.capabilities(),
            AnyTool::TaskOutput(t) => t.capabilities(),
            AnyTool::TaskWait(t) => t.capabilities(),
            AnyTool::TaskKill(t) => t.capabilities(),
            AnyTool::WorkflowStep(t) => t.capabilities(),
            AnyTool::Skill(t) => t.capabilities(),
            AnyTool::SkillList(t) => t.capabilities(),
            AnyTool::Mcp(t) => t.capabilities(),
            AnyTool::Plugin(t) => t.capabilities(),
        }
    }

    fn should_list(&self, ctx: &ToolCallContext) -> (r: bool) {
        match self {
            AnyTool::Bash(t) => t.should_list(ctx),
            AnyTool::FsRead(t) => t.should_list(ctx),
            AnyTool::FsWrite(t) => t.should_list(ctx),
            AnyTool::TodoWrite(t) => t.should_list(ctx),
            AnyTool::WebFetch(t) => t.should_list(ctx),
            AnyTool::WebSearch(t) => t.should_list(ctx),
            AnyTool::Grep(t) => t.should_list(ctx),
            AnyTool::Glob(t) => t.should_list(ctx),
            AnyTool::Task(t) => t.should_list(ctx),
            AnyTool::TaskOutput(t) => t.should_list(ctx),
            AnyTool::TaskWait(t) => t.should_list(ctx),
            AnyTool::TaskKill(t) => t.should_list(ctx),
            AnyTool::WorkflowStep(t) => t.should_list(ctx),
            AnyTool::Skill(t) => t.should_list(ctx),
            AnyTool::SkillList(t) => t.should_list(ctx),
            AnyTool::Mcp(t) => t.should_list(ctx),
            AnyTool::Plugin(t) => t.should_list(ctx),
        }
    }

}

/// The built-in tools, in the order in which they are registered.
pub open spec fn builtin_list() -> Seq<AnyTool> {
    seq![
        AnyTool::Bash(BashTool),
        AnyTool::FsRead(FsReadTool),
        AnyTool::FsWrite(FsWriteTool),
        AnyTool::TodoWrite(TodoWriteTool),
        AnyTool::WebFetch(WebFetchTool),
        AnyTool::WebSearch(WebSearchTool),
        AnyTool::Grep(GrepTool),
        AnyTool::Glob(GlobTool),
        AnyTool::Task(TaskTool),
        AnyTool::TaskOutput(TaskOutputTool),
        AnyTool::TaskWait(TaskWaitTool),
        AnyTool::TaskKill(TaskKillTool),
        AnyTool::WorkflowStep(WorkflowStepTool),
        AnyTool::Skill(SkillTool),
        AnyTool::SkillList(SkillListTool),
    ]
}

/// The built-in tools, in the order in which they are registered.
pub fn builtin_tools() -> (tools: Vec<AnyTool>)
    ensures
        tools@ == builtin_list(),
{
    let mut tools: Vec<AnyTool> = Vec::new();
    tools.push(AnyTool::Bash(BashTool));
    tools.push(AnyTool::FsRead(FsReadTool));
    tools.push(AnyTool::FsWrite(FsWriteTool));
    tools.push(AnyTool::TodoWrite(TodoWriteTool));
    tools.push(AnyTool::WebFetch(WebFetchTool));
    tools.push(AnyTool::WebSearch(WebSearchTool));
    tools.push(AnyTool::Grep(GrepTool));
    tools.push(AnyTool::Glob(GlobTool));
    tools.push(AnyTool::Task(TaskTool));
    tools.push(AnyTool::TaskOutput(TaskOutputTool));
    tools.push(AnyTool::TaskWait(TaskWaitTool));
    tools.push(AnyTool::TaskKill(TaskKillTool));
    tools.push(AnyTool::WorkflowStep(WorkflowStepTool));
    tools.push(AnyTool::Skill(SkillTool));
    tools.push(AnyTool::SkillList(SkillListTool));
    assert(tools@ =~= builtin_list());
    tools
}

} // verus!
