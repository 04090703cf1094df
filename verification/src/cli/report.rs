//! What the commands print.
use vstd::prelude::*;
use vstd::string::*;

use crate::agent::turn::{AgentDefinition, plain_definition};
use crate::codec::Codec;
use crate::json::json_compact;
use crate::session::event::{EventView, SessionEvent};
use crate::session::record::event_tree;
use crate::text::concat3;
use crate::tool::call::ToolCallContext;
use crate::tool::description::DescriptionView;
use crate::tool::registry::{ToolRegistry, manifest};
use crate::tools::any::AnyTool;

verus! {

/// The agent that runs a task from the command line, on the model that the environment names.
pub fn run_definition(model: Option<String>) -> (r: AgentDefinition)
    ensures
        r@ == plain_definition(
            "rh-agent"@,
            (match model {
                Some(m) => m@,
                None => "deepseek-chat"@,
            }),
            "You are a Rust harness agent. Use tools when useful."@,
        ),
{
    let model = match model {
        Some(m) => m,
        None => "deepseek-chat".to_owned(),
    };
    AgentDefinition::plain(
        "rh-agent",
        model.as_str(),
        "You are a Rust harness agent. Use tools when useful.",
    )
}

/// A text filled up with blanks to a width.
pub open spec fn padded(s: Seq<char>, width: nat) -> Seq<char> {
    if s.len() < width {
        s + Seq::new((width - s.len()) as nat, |i: int| ' ')
    } else {
        s
    }
}

/// Fills a text up with blanks to a width.
pub fn pad(s: &str, width: usize) -> (r: String)
    ensures
        r@ == padded(s@, width as nat),
{
    let n = s.unicode_len();
    let mut r = s.to_owned();
    let mut i: usize = n;
    assert(r@ =~= s@ + Seq::new(0, |k: int| ' '));
    while i < width
        invariant
            n == s@.len(),
            n <= i,
            i <= width || i == n,
            r@ == s@ + Seq::new((i - n) as nat, |k: int| ' '),
        decreases width - i,
    {
        r.push(' ');
        i = i + 1;
        assert(r@ =~= s@ + Seq::new((i - n) as nat, |k: int| ' '));
    }
    assert(r@ =~= padded(s@, width as nat));
    r
}

/// The line of a tool.
pub open spec fn tool_line(d: DescriptionView) -> Seq<char> {
    "- "@ + padded(d.name, 12) + " "@ + d.description + "\n"@
}

/// The lines of tools.
pub open spec fn tool_lines(tools: Seq<DescriptionView>) -> Seq<char>
    decreases tools.len(),
{
    if tools.len() == 0 {
        Seq::empty()
    } else {
        tool_lines(tools.drop_last()) + tool_line(tools.last())
    }
}

/// The list of the tools, one to a line.
pub fn tools_report(registry: &ToolRegistry<AnyTool>, ctx: &ToolCallContext) -> (out: String)
    ensures
        out@ == tool_lines(manifest(registry@, ctx@)),
{
    let list = registry.list(ctx);
    let ghost all = list.deep_view();
    let mut out = String::new();
    let mut i: usize = 0;
    assert(out@ =~= tool_lines(all.take(0)));
    while i < list.len()
        invariant
            i <= list@.len(),
            all == list.deep_view(),
            out@ == tool_lines(all.take(i as int)),
        decreases list@.len() - i,
    {
        proof {
            assert(all.take(i + 1).drop_last() =~= all.take(i as int));
            assert(all.take(i + 1).last() == list@[i as int]@);
        }
        let ghost before = out@;
        out.append("- ");
        out.append(pad(list[i].name.as_str(), 12).as_str());
        out.append(" ");
        out.append(list[i].description.as_str());
        out.append("\n");
        assert(out@ =~= before + tool_line(all[i as int]));
        i = i + 1;
    }
    assert(all.take(i as int) =~= all);
    out
}

/// A list of names, one to a line.
pub open spec fn name_lines(names: Seq<Seq<char>>) -> Seq<char>
    decreases names.len(),
{
    if names.len() == 0 {
        Seq::empty()
    } else {
        name_lines(names.drop_last()) + ("  - "@ + names.last() + "\n"@)
    }
}

fn push_names(out: &mut String, names: &Vec<String>)
    ensures
        final(out)@ == old(out)@ + name_lines(names.deep_view()),
{
    let ghost head = out@;
    let ghost all = names.deep_view();
    let mut i: usize = 0;
    assert(head + name_lines(all.take(0)) =~= head);
    while i < names.len()
        invariant
            i <= names@.len(),
            all == names.deep_view(),
            out@ == head + name_lines(all.take(i as int)),
        decreases names@.len() - i,
    {
        proof {
            assert(all.take(i + 1).drop_last() =~= all.take(i as int));
            assert(all.take(i + 1).last() == names@[i as int]@);
        }
        out.append("  - ");
        out.append(names[i].as_str());
        out.append("\n");
        assert(out@ =~= head + name_lines(all.take(i + 1)));
        i = i + 1;
    }
    assert(all.take(i as int) =~= all);
}

/// The composition of the harness as text.
pub open spec fn config_text(
    plugins: Seq<Seq<char>>,
    services: Seq<Seq<char>>,
    tools: Seq<Seq<char>>,
) -> Seq<char> {
    "plugins (mount order):\n"@ + name_lines(plugins) + "\nservices:\n"@ + name_lines(services)
        + "\ntools:\n"@ + name_lines(tools)
}

/// The composition of the harness: plugins, services and tools.
pub fn config_report(plugins: &Vec<String>, services: &Vec<String>, tools: &Vec<String>) -> (out:
    String)
    ensures
        out@ == config_text(plugins.deep_view(), services.deep_view(), tools.deep_view()),
{
    let mut out = "plugins (mount order):\n".to_owned();
    push_names(&mut out, plugins);
    out.append("\nservices:\n");
    push_names(&mut out, services);
    out.append("\ntools:\n");
    push_names(&mut out, tools);
    out
}

/// The events of a log, one to a line.
pub open spec fn event_texts(log: Seq<EventView>) -> Seq<char>
    decreases log.len(),
{
    if log.len() == 0 {
        Seq::empty()
    } else {
        event_texts(log.drop_last()) + (json_compact(event_tree(log.last())) + "\n"@)
    }
}

/// The transcript of a run.
pub fn transcript(session_id: &str, events: &Vec<SessionEvent>) -> (out: String)
    ensures
        out@ == "== session transcript ("@ + session_id@ + ") ==\n"@ + event_texts(
            events.deep_view(),
        ),
{
    let mut out = concat3("== session transcript (", session_id, ") ==\n");
    let ghost head = out@;
    let ghost all = events.deep_view();
    let mut i: usize = 0;
    assert(head + event_texts(all.take(0)) =~= head);
    while i < events.len()
        invariant
            i <= events@.len(),
            all == events.deep_view(),
            out@ == head + event_texts(all.take(i as int)),
        decreases events@.len() - i,
    {
        proof {
            assert(all.take(i + 1).drop_last() =~= all.take(i as int));
            assert(all.take(i + 1).last() == events@[i as int]@);
        }
        out.append(events[i].to_json().to_text().as_str());
        out.append("\n");
        assert(out@ =~= head + event_texts(all.take(i + 1)));
        i = i + 1;
    }
    assert(all.take(i as int) =~= all);
    out
}

} // verus!
