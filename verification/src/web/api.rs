//! What the routes of the web front end answer.
use vstd::prelude::*;
use vstd::string::*;

use crate::codec::{Codec, trees};
use crate::json::{Json, Tree, json_pretty, object, optional_text};
use crate::order::sorted;
use crate::providers::hub::{
    HubView, ModelHub, ModelInfo, ProviderConfig, ProviderView, models_in, models_of, saved_hub,
    unknown_model, unknown_provider, with_provider, without_provider,
};
use crate::keyed::{known, rid_of, upserted};
use crate::mcp::config::{McpServerConfig, ServerView};
use crate::session::ids::{IdKind, Ids, after, id_text};
use crate::session::log::{SessionMeta, SessionView, fresh, markdown, record_of, with_done};
use crate::session::record::{meta_tree, record_tree};
use crate::session::store::{
    FileWrite, SessionStore, StoreView, WriteView, free_number, inserted, metas, new_session_id, saved,
    session_at,
};
use crate::session::task::{TaskItem, TaskStatus, TaskView};
use crate::session::workspace::{listing_view, workspace_context, workspace_text};
use crate::text::{concat2, concat3, same};
use crate::tool::call::{ToolCallContext, fresh_call};
use crate::tool::description::{DescriptionView, ToolDescription, description_tree};
use crate::tool::registry::{ToolRegistry, manifest};
use crate::tools::any::AnyTool;
use crate::tools::todo::{lemma_still_there, with_session};
use crate::web::servers::{McpHub, ServersView, saved_servers};

verus! {

/// A request that is refused: the status, and what is wrong.
#[derive(Debug, PartialEq, Eq)]
pub struct Failure {
    pub status: u16,
    pub text: String,
}

/// What a refusal stands for.
pub struct FailureView {
    pub status: u16,
    pub text: Seq<char>,
}

impl View for Failure {
    type V = FailureView;

    open spec fn view(&self) -> FailureView {
        FailureView { status: self.status, text: self.text@ }
    }
}

fn refuse(status: u16, text: &str) -> (r: Failure)
    ensures
        r@ == (FailureView { status, text: text@ }),
{
    Failure { status, text: text.to_owned() }
}

/// An answer that is given once a file is written.
#[derive(Debug)]
pub struct Saved {
    pub output: Json,
    pub save: Option<FileWrite>,
    /// The status of the refusal where the file cannot be written.
    pub refusal: u16,
}

/// Whether a request is refused.
pub open spec fn refused<T>(r: Result<T, Failure>, status: u16, text: Seq<char>) -> bool {
    &&& r matches Err(e)
    &&& e@ == FailureView { status, text }
}

/// Whether a request is answered.
pub open spec fn answered(r: Result<Json, Failure>, output: Tree) -> bool {
    &&& r matches Ok(j)
    &&& j@ == output
}

/// Whether a request is answered once a file is written.
pub open spec fn promised(
    r: Result<Saved, Failure>,
    output: Tree,
    save: Option<WriteView>,
    refusal: u16,
) -> bool {
    &&& r matches Ok(x)
    &&& x.output@ == output
    &&& x.save.deep_view() == save
    &&& x.refusal == refusal
}

/// A list of texts as JSON.
pub open spec fn text_trees(s: Seq<Seq<char>>) -> Tree {
    Tree::Array(trees::<String>(s))
}

// ---------- the harness ----------

/// The tools of a manifest as JSON.
pub open spec fn tools_tree(tools: Seq<DescriptionView>) -> Tree {
    object().with(
        "tools"@,
        Tree::Array(Seq::new(tools.len(), |i: int| description_tree(tools[i]))),
    )
}

/// The names in a manifest.
pub open spec fn names_of(tools: Seq<DescriptionView>) -> Seq<Seq<char>> {
    Seq::new(tools.len(), |i: int| tools[i].name)
}

/// The tools that the front end is shown.
pub open spec fn shown_tools(rows: Seq<(Seq<char>, AnyTool)>, cwd: Seq<char>) -> Seq<
    DescriptionView,
> {
    manifest(rows, fresh_call("web"@, "web"@, cwd))
}

fn list_tools(registry: &ToolRegistry<AnyTool>, cwd: &str) -> (r: Vec<ToolDescription>)
    ensures
        r.deep_view() == shown_tools(registry@, cwd@),
{
    let ctx = ToolCallContext::new("web", "web", cwd);
    registry.list(&ctx)
}

/// The tools of the harness.
pub fn tools(registry: &ToolRegistry<AnyTool>, cwd: &str) -> (r: Json)
    ensures
        r@ == tools_tree(shown_tools(registry@, cwd@)),
{
    let list = list_tools(registry, cwd);
    let ghost all = list.deep_view();
    let mut out: Vec<Json> = Vec::new();
    let mut i: usize = 0;
    while i < list.len()
        invariant
            i <= list@.len(),
            out@.len() == i,
            all == list.deep_view(),
            forall|k: int| 0 <= k < i ==> (#[trigger] out@[k])@ == description_tree(all[k]),
        decreases list@.len() - i,
    {
        assert(all[i as int] == list@[i as int]@);
        out.push(list[i].to_json());
        i = i + 1;
    }
    assert(out.deep_view() =~= Seq::new(all.len(), |k: int| description_tree(all[k])));
    Json::object().with("tools", Json::array(out))
}

/// The composition of the harness as JSON.
pub open spec fn config_tree(
    plugins: Seq<Seq<char>>,
    services: Seq<Seq<char>>,
    tools: Seq<Seq<char>>,
) -> Tree {
    object().with("plugins"@, text_trees(plugins)).with("services"@, text_trees(services)).with(
        "tools"@,
        text_trees(tools),
    )
}

/// The names of the tools that a call in `cwd` is shown.
pub fn tool_names(registry: &ToolRegistry<AnyTool>, ctx: &ToolCallContext) -> (r: Vec<String>)
    ensures
        r.deep_view() == names_of(manifest(registry@, ctx@)),
{
    let list = registry.list(ctx);
    let ghost all = list.deep_view();
    let mut out: Vec<String> = Vec::new();
    let mut i: usize = 0;
    while i < list.len()
        invariant
            i <= list@.len(),
            out@.len() == i,
            all == list.deep_view(),
            forall|k: int| 0 <= k < i ==> (#[trigger] out@[k])@ == all[k].name,
        decreases list@.len() - i,
    {
        assert(all[i as int] == list@[i as int]@);
        out.push(list[i].name.clone());
        i = i + 1;
    }
    assert(out.deep_view() =~= names_of(all));
    out
}

/// The composition of the harness: plugins, services and tools.
pub fn config(
    plugins: &Vec<String>,
    services: &Vec<String>,
    registry: &ToolRegistry<AnyTool>,
    cwd: &str,
) -> (r: Json)
    ensures
        r@ == config_tree(
            plugins.deep_view(),
            services.deep_view(),
            names_of(shown_tools(registry@, cwd@)),
        ),
{
    let ctx = ToolCallContext::new("web", "web", cwd);
    let names = tool_names(registry, &ctx);
    Json::object().with("plugins", plugins.to_json()).with("services", services.to_json()).with(
        "tools",
        names.to_json(),
    )
}

// ---------- model providers ----------

/// The models of each provider as JSON.
pub open spec fn provider_models(h: HubView, providers: Seq<ProviderView>) -> Tree
    decreases providers.len(),
{
    if providers.len() == 0 {
        object()
    } else {
        provider_models(h, providers.drop_last()).with(
            providers.last().id,
            Tree::Array(trees::<ModelInfo>(models_of(h, providers.last().id))),
        )
    }
}

/// The hub as JSON: the providers, their models, and what is in use.
pub open spec fn hub_state_tree(h: HubView) -> Tree {
    object().with("providers"@, Tree::Array(trees::<ProviderConfig>(h.providers))).with(
        "models"@,
        provider_models(h, h.providers),
    ).with(
        "active"@,
        object().with("provider"@, optional_text(h.active_provider)).with(
            "model"@,
            optional_text(h.active_model),
        ),
    )
}

/// The hub as JSON.
pub fn hub_state(hub: &ModelHub) -> (r: Json)
    ensures
        r@ == hub_state_tree(hub@),
{
    let providers = hub.providers();
    let ghost all = providers.deep_view();
    let mut models = Json::object();
    let mut i: usize = 0;
    assert(models@ == provider_models(hub@, all.take(0)));
    while i < providers.len()
        invariant
            i <= providers@.len(),
            all == providers.deep_view(),
            models@ is Object,
            models@ == provider_models(hub@, all.take(i as int)),
        decreases providers@.len() - i,
    {
        proof {
            assert(all.take(i + 1).drop_last() =~= all.take(i as int));
            assert(all.take(i + 1).last() == providers@[i as int]@);
        }
        let listed = hub.models(providers[i].id.as_str());
        models = models.with(providers[i].id.as_str(), listed.to_json());
        i = i + 1;
    }
    assert(all.take(i as int) =~= all);
    let (provider, model) = hub.active_state();
    Json::object().with("providers", providers.to_json()).with("models", models).with(
        "active",
        Json::object().with("provider", Json::optional_text(provider)).with(
            "model",
            Json::optional_text(model),
        ),
    )
}

/// Registers a provider.
pub fn add_provider(hub: &mut ModelHub, config: ProviderConfig) -> (r: Saved)
    ensures
        final(hub)@ == with_provider(old(hub)@, config@),
        r.output@ == hub_state_tree(final(hub)@),
        r.save.deep_view() == Some(saved_hub(final(hub)@)),
        r.refusal == 400,
{
    let (_, save) = hub.add_provider(config);
    Saved { output: hub_state(hub), save: Some(save), refusal: 400 }
}

/// Takes over the models that a provider offers.
pub fn discover_models(hub: &mut ModelHub, id: &str, answer: &Json) -> (r: Saved)
    ensures
        final(hub)@ == (HubView {
            models: old(hub)@.models.insert(id@, models_in(answer@, id@)),
            ..old(hub)@
        }),
        r.output@ == hub_state_tree(final(hub)@),
        r.save.deep_view() == Some(saved_hub(final(hub)@)),
        r.refusal == 400,
{
    let (_, save) = hub.discover_models(id, answer);
    Saved { output: hub_state(hub), save: Some(save), refusal: 400 }
}

/// Takes a provider away.
pub fn remove_provider(hub: &mut ModelHub, id: &str) -> (r: Saved)
    ensures
        final(hub)@ == without_provider(old(hub)@, id@),
        r.output@ == hub_state_tree(final(hub)@),
        r.save.deep_view() == Some(saved_hub(final(hub)@)),
        r.refusal == 404,
{
    let save = hub.remove_provider(id);
    Saved { output: hub_state(hub), save: Some(save), refusal: 404 }
}

/// Puts a model into use. The provider and the model have to be given, and to be known.
pub fn set_active(hub: &mut ModelHub, body: &Json) -> (r: Result<Saved, Failure>)
    ensures
        match (body@.text_at("provider"@), body@.text_at("model"@)) {
            (None, _) => {
                &&& refused(r, 400, "缺少 provider"@)
                &&& final(hub)@ == old(hub)@
            },
            (_, None) => {
                &&& refused(r, 400, "缺少 model"@)
                &&& final(hub)@ == old(hub)@
            },
            (Some(p), Some(m)) => if !known::<ProviderConfig>(old(hub)@.providers, p) {
                &&& refused(r, 400, unknown_provider(p))
                &&& final(hub)@ == old(hub)@
            } else if !known::<ModelInfo>(models_of(old(hub)@, p), m) {
                &&& refused(r, 400, unknown_model(p, m))
                &&& final(hub)@ == old(hub)@
            } else {
                &&& promised(r, hub_state_tree(final(hub)@), Some(saved_hub(final(hub)@)), 400)
                &&& final(hub)@ == (HubView {
                    active_provider: Some(p),
                    active_model: Some(m),
                    ..old(hub)@
                })
            },
        },
{
    let provider = match body.str_at("provider") {
        Some(p) => p,
        None => return Err(refuse(400, "缺少 provider")),
    };
    let model = match body.str_at("model") {
        Some(m) => m,
        None => return Err(refuse(400, "缺少 model")),
    };
    match hub.set_active(provider, model) {
        Ok(save) => Ok(Saved { output: hub_state(hub), save: Some(save), refusal: 400 }),
        Err(e) => Err(Failure { status: 400, text: e }),
    }
}

// ---------- servers ----------

/// The configured servers as JSON.
pub open spec fn servers_tree(servers: Seq<ServerView>) -> Tree {
    object().with("servers"@, Tree::Array(trees::<McpServerConfig>(servers)))
}

/// The configured servers.
pub fn list_mcp(mcp: &McpHub) -> (r: Json)
    ensures
        r@ == servers_tree(mcp@.servers),
{
    Json::object().with("servers", mcp.list().to_json())
}

/// Configures a server. It is connected anew once its file is written.
pub fn add_mcp(mcp: &mut McpHub, config: McpServerConfig) -> (r: Saved)
    ensures
        final(mcp)@ == (ServersView {
            servers: upserted::<McpServerConfig>(old(mcp)@.servers, config@),
            ..old(mcp)@
        }),
        r.output@ == servers_tree(final(mcp)@.servers),
        r.save.deep_view() == Some(saved_servers(final(mcp)@)),
        r.refusal == 400,
{
    let save = mcp.add(config);
    Saved { output: list_mcp(mcp), save: Some(save), refusal: 400 }
}

/// Takes a server away. It is disconnected once the file is written.
pub fn remove_mcp(mcp: &mut McpHub, name: &str) -> (r: Saved)
    ensures
        final(mcp)@ == (ServersView {
            servers: rid_of::<McpServerConfig>(old(mcp)@.servers, name@),
            ..old(mcp)@
        }),
        r.output@ == servers_tree(final(mcp)@.servers),
        r.save.deep_view() == Some(saved_servers(final(mcp)@)),
        r.refusal == 404,
{
    let save = mcp.remove(name);
    Saved { output: list_mcp(mcp), save: Some(save), refusal: 404 }
}

// ---------- sessions ----------

/// The list of sessions as JSON, oldest first.
pub open spec fn sessions_tree(s: Seq<SessionView>) -> Tree {
    let list = sorted::<SessionMeta>(metas(s));
    Tree::Array(Seq::new(list.len(), |i: int| meta_tree(list[i])))
}

fn session_list(store: &SessionStore) -> (r: Json)
    ensures
        r@ == sessions_tree(store@.sessions),
{
    let list = store.list();
    let ghost all = list.deep_view();
    let mut out: Vec<Json> = Vec::new();
    let mut i: usize = 0;
    while i < list.len()
        invariant
            i <= list@.len(),
            out@.len() == i,
            all == list.deep_view(),
            forall|k: int| 0 <= k < i ==> (#[trigger] out@[k])@ == meta_tree(all[k]),
        decreases list@.len() - i,
    {
        assert(all[i as int] == list@[i as int]@);
        out.push(list[i].to_json());
        i = i + 1;
    }
    assert(out.deep_view() =~= Seq::new(all.len(), |k: int| meta_tree(all[k])));
    Json::array(out)
}

/// The sessions, oldest first.
pub fn list_sessions(store: &SessionStore) -> (r: Json)
    ensures
        r@ == object().with("sessions"@, sessions_tree(store@.sessions)),
{
    Json::object().with("sessions", session_list(store))
}

/// The title that a new session is given.
pub open spec fn title_in(body: Tree) -> Seq<char> {
    match body.text_at("title"@) {
        Some(t) => t,
        None => "新会话"@,
    }
}

/// Creates a session. That its file cannot be written is no refusal.
pub fn create_session(store: &mut SessionStore, ids: &mut Ids, body: &Json, now: u64) -> (r: (
    Json,
    Option<FileWrite>,
))
    ensures
        ({
            let s = fresh(
                new_session_id(old(store)@.sessions, old(ids).at()),
                title_in(body@),
                old(store)@.observed,
                old(store)@.home,
                now,
            );
            &&& final(store)@ == (StoreView {
                sessions: inserted(old(store)@.sessions, s),
                ..old(store)@
            })
            &&& r.0@ == object().with("sessions"@, sessions_tree(final(store)@.sessions)).with(
                "created"@,
                Tree::Text(s.id),
            )
            &&& r.1.deep_view() == saved(old(store)@.dir, s)
        }),
        final(ids).at() == after(free_number(old(store)@.sessions, old(ids).at())),
{
    let title = match body.str_at("title") {
        Some(t) => t,
        None => "新会话",
    };
    let created = store.create(ids, title, now);
    let output = Json::object().with("sessions", session_list(store)).with(
        "created",
        Json::text(created.id.as_str()),
    );
    (output, created.save)
}

/// A session in full.
pub fn get_session(store: &SessionStore, id: &str) -> (r: Result<Json, Failure>)
    ensures
        match session_at(store@.sessions, id@) {
            Some(s) => answered(r, record_tree(record_of(s))),
            None => refused(r, 404, "session not found"@),
        },
{
    match store.get(id) {
        Some(s) => Ok(s.to_record().to_json()),
        None => Err(refuse(404, "session not found")),
    }
}

/// Gives a session another title.
pub fn rename_session(store: &mut SessionStore, id: &str, body: &Json) -> (r: Result<Saved, Failure>)
    ensures
        match (body@.text_at("title"@), session_at(old(store)@.sessions, id@)) {
            (None, _) => {
                &&& refused(r, 400, "缺少 title"@)
                &&& final(store)@ == old(store)@
            },
            (Some(_), None) => {
                &&& refused(r, 404, "session "@ + id@ + " not found"@)
                &&& final(store)@ == old(store)@
            },
            (Some(title), Some(s)) => {
                let renamed = SessionView { title, ..s };
                &&& final(store)@ == with_session(old(store)@, id@, renamed)
                &&& promised(
                    r,
                    object().with("sessions"@, sessions_tree(final(store)@.sessions)),
                    saved(old(store)@.dir, renamed),
                    404,
                )
            },
        },
{
    let title = match body.str_at("title") {
        Some(t) => t,
        None => return Err(refuse(400, "缺少 title")),
    };
    match store.rename(id, title) {
        Ok(save) => Ok(Saved { output: list_sessions(store), save, refusal: 404 }),
        Err(e) => Err(Failure { status: 404, text: e }),
    }
}

/// Deletes a session, whether or not there is one. That its file cannot be deleted is no refusal.
pub fn delete_session(store: &mut SessionStore, id: &str) -> (r: (Json, Option<String>))
    ensures
        final(store)@ == (StoreView {
            sessions: crate::session::store::without(old(store)@.sessions, id@),
            ..old(store)@
        }),
        r.0@ == object().with("sessions"@, sessions_tree(final(store)@.sessions)),
        r.1.deep_view() == (if session_at(old(store)@.sessions, id@) is Some && old(
            store,
        )@.dir is Some {
            Some(
                crate::path::under(old(store)@.dir->0, crate::session::store::file_name(id@)),
            )
        } else {
            None
        }),
{
    let path = store.remove(id);
    (list_sessions(store), path)
}

/// A file that the browser saves.
#[derive(Debug)]
pub struct Download {
    pub content_type: &'static str,
    pub disposition: String,
    pub content: String,
}

/// What a download stands for.
pub struct DownloadView {
    pub content_type: Seq<char>,
    pub disposition: Seq<char>,
    pub content: Seq<char>,
}

impl View for Download {
    type V = DownloadView;

    open spec fn view(&self) -> DownloadView {
        DownloadView {
            content_type: self.content_type@,
            disposition: self.disposition@,
            content: self.content@,
        }
    }
}

/// A download under a file name.
pub open spec fn download_of(
    name: Seq<char>,
    content: Seq<char>,
    content_type: Seq<char>,
) -> DownloadView {
    DownloadView {
        content_type,
        disposition: "attachment; filename=\""@ + name + "\""@,
        content,
    }
}

/// A download under a file name.
pub fn download(name: &str, content: String, content_type: &'static str) -> (r: Download)
    ensures
        r@ == download_of(name@, content@, content_type@),
{
    Download {
        content_type,
        disposition: concat3("attachment; filename=\"", name, "\""),
        content,
    }
}

/// The export of a session: as JSON where that is asked for, else as Markdown.
pub open spec fn export_of(s: SessionView, format: Option<Seq<char>>) -> DownloadView {
    if format == Some("json"@) {
        download_of(
            s.id + ".json"@,
            json_pretty(record_tree(record_of(s))),
            "application/json"@,
        )
    } else {
        download_of(s.id + ".md"@, markdown(s), "text/markdown; charset=utf-8"@)
    }
}

/// Exports a session.
pub fn export_session(store: &SessionStore, id: &str, format: Option<&str>) -> (r: Result<
    Download,
    Failure,
>)
    ensures
        match session_at(store@.sessions, id@) {
            Some(s) => {
                &&& r matches Ok(d)
                &&& d@ == export_of(
                    s,
                    (match format {
                        Some(f) => Some(f@),
                        None => None,
                    }),
                )
            },
            None => refused(r, 404, "session not found"@),
        },
{
    let session = match store.get(id) {
        Some(s) => s,
        None => return Err(refuse(404, "session not found")),
    };
    let json = match format {
        Some(f) => same(f, "json"),
        None => false,
    };
    if json {
        let name = concat2(session.id(), ".json");
        Ok(download(name.as_str(), session.to_json(), "application/json"))
    } else {
        let name = concat2(session.id(), ".md");
        Ok(download(name.as_str(), session.to_markdown(), "text/markdown; charset=utf-8"))
    }
}

// ---------- what belongs to a session ----------

/// The todo list as JSON.
pub open spec fn tasks_tree(tasks: Seq<TaskView>) -> Tree {
    object().with("tasks"@, Tree::Array(trees::<TaskItem>(tasks)))
}

/// The todo list of a session; an unknown session has none.
pub fn list_tasks(store: &SessionStore, id: &str) -> (r: Json)
    ensures
        r@ == tasks_tree(
            (match session_at(store@.sessions, id@) {
                Some(s) => s.tasks,
                None => Seq::empty(),
            }),
        ),
{
    let tasks = match store.get(id) {
        Some(s) => s.tasks(),
        None => Vec::new(),
    };
    assert(session_at(store@.sessions, id@) is None ==> tasks.deep_view() =~= Seq::empty());
    Json::object().with("tasks", tasks.to_json())
}

/// The working mode of a session as JSON.
pub open spec fn mode_tree(s: SessionView) -> Tree {
    object().with("mode"@, Tree::Text(s.work_mode)).with("phase"@, Tree::Text(s.workflow_phase))
}

/// The working mode of a session.
pub fn get_mode(store: &SessionStore, id: &str) -> (r: Result<Json, Failure>)
    ensures
        match session_at(store@.sessions, id@) {
            Some(s) => answered(r, mode_tree(s)),
            None => refused(r, 404, "session not found"@),
        },
{
    match store.get(id) {
        Some(s) => Ok(
            Json::object().with("mode", Json::text(s.work_mode().as_str())).with(
                "phase",
                Json::text(s.workflow_phase().as_str()),
            ),
        ),
        None => Err(refuse(404, "session not found")),
    }
}

/// The workspace of a session.
pub fn get_workspace(store: &SessionStore, id: &str) -> (r: Result<String, Failure>)
    ensures
        match session_at(store@.sessions, id@) {
            Some(s) => {
                &&& r matches Ok(root)
                &&& root@ == s.workspace
            },
            None => refused(r, 404, "session not found"@),
        },
{
    match store.get(id) {
        Some(s) => Ok(s.workspace()),
        None => Err(refuse(404, "session not found")),
    }
}

/// A workspace as JSON: its root, and what a prompt is told of it.
pub fn workspace_answer(root: &str, listing: Option<Vec<(String, bool)>>, is_git: bool) -> (r: Json)
    ensures
        r@ == object().with("root"@, Tree::Text(root@)).with(
            "context"@,
            Tree::Text(workspace_text(root@, listing_view(listing), is_git)),
        ),
{
    let context = workspace_context(root, listing, is_git);
    Json::object().with("root", Json::text(root)).with("context", Json::text(context.as_str()))
}

/// The file in which a session of the store is to be kept.
fn kept(store: &SessionStore, id: &str) -> (r: Option<FileWrite>)
    ensures
        r.deep_view() == (match session_at(store@.sessions, id@) {
            Some(s) => saved(store@.dir, s),
            None => None,
        }),
{
    match store.get(id) {
        Some(s) => store.save(s),
        None => None,
    }
}

/// Adds a task to a session.
pub fn add_task(store: &mut SessionStore, ids: &mut Ids, id: &str, body: &Json) -> (r: Result<
    Saved,
    Failure,
>)
    ensures
        match (body@.text_at("title"@), session_at(old(store)@.sessions, id@)) {
            (None, _) => {
                &&& refused(r, 400, "缺少 title"@)
                &&& final(store)@ == old(store)@
                &&& final(ids).at() == old(ids).at()
            },
            (Some(_), None) => {
                &&& refused(r, 404, "session not found"@)
                &&& final(store)@ == old(store)@
                &&& final(ids).at() == old(ids).at()
            },
            (Some(title), Some(s)) => {
                let task = TaskView {
                    id: id_text(IdKind::Task, old(ids).at()),
                    title,
                    done: false,
                    status: TaskStatus::Pending,
                };
                let changed = SessionView { tasks: s.tasks.push(task), ..s };
                &&& final(store)@ == with_session(old(store)@, id@, changed)
                &&& final(ids).at() == after(old(ids).at())
                &&& promised(
                    r,
                    tasks_tree(changed.tasks).with("added"@, Tree::Text(task.id)),
                    saved(old(store)@.dir, changed),
                    500,
                )
            },
        },
{
    let ghost before = store@;
    let title = match body.str_at("title") {
        Some(t) => t,
        None => return Err(refuse(400, "缺少 title")),
    };
    let item = match store.get_mut(id) {
        Some(session) => session.add_task(ids, title),
        None => return Err(refuse(404, "session not found")),
    };
    proof {
        lemma_still_there(before, store@, id@);
    }
    let save = kept(store, id);
    let output = list_tasks(store, id).with("added", Json::text(item.id.as_str()));
    Ok(Saved { output, save, refusal: 500 })
}

/// Puts a session into another working mode.
pub fn set_mode(store: &mut SessionStore, id: &str, body: &Json) -> (r: Result<Saved, Failure>)
    ensures
        match (body@.text_at("mode"@), session_at(old(store)@.sessions, id@)) {
            (None, _) => {
                &&& refused(r, 400, "缺少 mode"@)
                &&& final(store)@ == old(store)@
            },
            (Some(_), None) => {
                &&& refused(r, 404, "session not found"@)
                &&& final(store)@ == old(store)@
            },
            (Some(mode), Some(s)) => {
                let changed = SessionView { work_mode: mode, ..s };
                &&& final(store)@ == with_session(old(store)@, id@, changed)
                &&& promised(r, mode_tree(changed), saved(old(store)@.dir, changed), 500)
            },
        },
{
    let ghost before = store@;
    let mode = match body.str_at("mode") {
        Some(t) => t,
        None => return Err(refuse(400, "缺少 mode")),
    };
    match store.get_mut(id) {
        Some(session) => {
            session.set_work_mode(mode);
        },
        None => return Err(refuse(404, "session not found")),
    }
    proof {
        lemma_still_there(before, store@, id@);
    }
    let save = kept(store, id);
    match get_mode(store, id) {
        Ok(output) => Ok(Saved { output, save, refusal: 500 }),
        Err(e) => Err(e),
    }
}

/// Points a session at another workspace. The answer is made once its file is written: see
/// [`workspace_answer`].
pub fn set_workspace(store: &mut SessionStore, id: &str, body: &Json) -> (r: Result<
    (String, Option<FileWrite>),
    Failure,
>)
    ensures
        match (body@.text_at("root"@), session_at(old(store)@.sessions, id@)) {
            (None, _) => {
                &&& refused(r, 400, "缺少 root"@)
                &&& final(store)@ == old(store)@
            },
            (Some(_), None) => {
                &&& refused(r, 404, "session not found"@)
                &&& final(store)@ == old(store)@
            },
            (Some(root), Some(s)) => {
                let changed = SessionView { workspace: root, ..s };
                &&& final(store)@ == with_session(old(store)@, id@, changed)
                &&& r matches Ok(x)
                &&& x.0@ == root
                &&& x.1.deep_view() == saved(old(store)@.dir, changed)
            },
        },
{
    let ghost before = store@;
    let root = match body.str_at("root") {
        Some(t) => t,
        None => return Err(refuse(400, "缺少 root")),
    };
    let root = match store.get_mut(id) {
        Some(session) => session.set_workspace(root),
        None => return Err(refuse(404, "session not found")),
    };
    proof {
        lemma_still_there(before, store@, id@);
    }
    let save = kept(store, id);
    Ok((root, save))
}

/// Marks a task of a session. Where nothing is said, it is still to do.
pub fn set_task_done(store: &mut SessionStore, id: &str, task_id: &str, body: &Json) -> (r: Result<
    Saved,
    Failure,
>)
    ensures
        match session_at(old(store)@.sessions, id@) {
            None => {
                &&& refused(r, 404, "session not found"@)
                &&& final(store)@ == old(store)@
            },
            Some(s) => {
                let done = body@.truth_at("done"@) == Some(true);
                let changed = SessionView { tasks: with_done(s.tasks, task_id@, done), ..s };
                &&& final(store)@ == with_session(old(store)@, id@, changed)
                &&& promised(r, tasks_tree(changed.tasks), saved(old(store)@.dir, changed), 500)
            },
        },
{
    let ghost before = store@;
    let done = match body.bool_at("done") {
        Some(d) => d,
        None => false,
    };
    match store.get_mut(id) {
        Some(session) => {
            let _ = session.set_task_done(task_id, done);
        },
        None => return Err(refuse(404, "session not found")),
    }
    proof {
        lemma_still_there(before, store@, id@);
    }
    let save = kept(store, id);
    Ok(Saved { output: list_tasks(store, id), save, refusal: 500 })
}

} // verus!
