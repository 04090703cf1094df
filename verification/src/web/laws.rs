//! What the front end is told, and what it may change.
use vstd::prelude::*;
use vstd::string::*;

use crate::codec::{Codec, trees};
use crate::json::{Tree, json_compact, json_pretty, json_read, object};
use crate::keyed::{index_of, known, lemma_found_carries_its_name, lemma_rid_of};
use crate::mcp::config::{McpServerConfig, ServerView};
use crate::order::{in_order, lemma_sorted, sorted};
use crate::providers::hub::{
    HubFileView, HubView, InfoView, ModelInfo, ProviderConfig, ProviderView, empty_file, hub_in, hub_tree,
    lemma_hub_reads_back, models_of,
};
use crate::session::log::{SessionMeta, SessionView, markdown, record_of};
use crate::session::record::{meta_tree, record_tree};
use crate::session::store::metas;
use crate::session::task::{TaskItem, TaskView};
use crate::text::{clipped, trimmed};
use crate::text_laws::{blank_text, lemma_trimmed_blank, lemma_trimmed_is_the_core, tight};
use crate::tool::description::DescriptionView;
use crate::web::api::{
    config_tree, export_of, hub_state_tree, mode_tree, names_of, provider_models, servers_tree,
    sessions_tree, tasks_tree, title_in, tools_tree,
};
use crate::web::catalog::{
    CatalogView, ModelConfig, ModelView, RouteView, catalog_from, catalog_in, catalog_tree, chosen,
    has_provider, lemma_catalog_reads_back, mock_model, route_of, seeded, with_id, with_model,
    without_model,
};
use crate::web::servers::{ConnectionView, others, servers_in};
use crate::web::socket::{error_text, hello_text, input_in, title_after, web_prompt};

verus! {

proof fn lemma_blank(s: Seq<char>)
    ensures
        trimmed(s).len() == 0 <==> blank_text(s),
{
    if blank_text(s) {
        lemma_trimmed_is_the_core(s, Seq::empty(), Seq::empty());
        assert(s + Seq::<char>::empty() + Seq::<char>::empty() =~= s);
    } else {
        lemma_trimmed_blank(s);
    }
}

// ---------- conversations ----------

/// A frame that is an input carries its text without the white space around it; one that is blank,
/// is no input or is no JSON carries nothing.
pub proof fn lemma_frames_carry_input(
    frame: Seq<char>,
    value: Tree,
    pre: Seq<char>,
    core: Seq<char>,
    post: Seq<char>,
)
    requires
        blank_text(pre),
        blank_text(post),
        tight(core),
        value.at("text"@) == Some(Tree::Text(pre + core + post)),
    ensures
        json_read(frame) == Ok::<Tree, Seq<char>>(value) && value.at("type"@) == Some(
            Tree::Text("input"@),
        ) && core.len() > 0 ==> input_in(frame) == Some(core),
        json_read(frame) == Ok::<Tree, Seq<char>>(value) && core.len() == 0 ==> input_in(frame)
            is None,
        json_read(frame) == Ok::<Tree, Seq<char>>(value) && value.at("type"@) != Some(
            Tree::Text("input"@),
        ) ==> input_in(frame) is None,
        json_read(frame) is Err ==> input_in(frame) is None,
{
    lemma_trimmed_is_the_core(pre, core, post);
}

/// Whether a frame is the JSON of an object that tells its type and something else.
pub open spec fn is_frame(frame: Seq<char>, t: Tree, kind: Seq<char>, key: Seq<char>, value: Seq<char>) -> bool {
    &&& frame == json_compact(t)
    &&& t.text_at("type"@) == Some(kind)
    &&& t.text_at(key) == Some(value)
}

/// The first frame of a conversation tells the session that it is about, and the frame of a failure
/// tells what failed.
pub proof fn lemma_frames_tell(session_id: Seq<char>, error: Seq<char>)
    ensures
        exists|t: Tree| is_frame(hello_text(session_id), t, "hello"@, "session_id"@, session_id),
        exists|t: Tree| is_frame(error_text(error), t, "error"@, "error"@, error),
{
    reveal_strlit("type");
    reveal_strlit("session_id");
    reveal_strlit("error");
    assert("type"@.len() != "session_id"@.len() && "type"@.len() != "error"@.len());
    let a = object().with("type"@, Tree::Text("hello"@)).with(
        "session_id"@,
        Tree::Text(session_id),
    );
    assert(is_frame(hello_text(session_id), a, "hello"@, "session_id"@, session_id));
    let b = object().with("type"@, Tree::Text("error"@)).with("error"@, Tree::Text(error));
    assert(is_frame(error_text(error), b, "error"@, "error"@, error));
}

/// A session that has a title keeps it; one that has none is named after the first characters of its
/// input.
pub proof fn lemma_titles(title: Seq<char>, input: Seq<char>)
    ensures
        title != "新会话"@ ==> title_after(title, input) == title,
        title == "新会话"@ && input.len() <= 30 && !blank_text(input) ==> title_after(title, input)
            == input,
        title == "新会话"@ && blank_text(input) ==> title_after(title, input) == title,
        title_after(title, input) == title || title_after(title, input).len() <= 30,
{
    lemma_blank(clipped(input, 30));
    if blank_text(input) {
        assert forall|i: int| 0 <= i < clipped(input, 30).len() implies crate::text::whitespace(
            #[trigger] clipped(input, 30)[i],
        ) by {
            assert(clipped(input, 30)[i] == input[i]);
        }
    }
}

/// The prompt of the agent ends with what is told of the workspace.
pub proof fn lemma_prompt_tells_of_the_workspace(workspace: Seq<char>)
    ensures
        web_prompt(workspace).len() >= workspace.len(),
        web_prompt(workspace).skip(web_prompt(workspace).len() - workspace.len()) == workspace,
{
    let s = web_prompt(workspace);
    assert(s.skip(s.len() - workspace.len()) =~= workspace);
}

// ---------- answers ----------

/// The front end is shown every tool, in order, with its name, what it does and what it takes; the
/// composition lists the names of plugins, services and tools, in order.
pub proof fn lemma_tools_are_shown(
    tools: Seq<DescriptionView>,
    plugins: Seq<Seq<char>>,
    services: Seq<Seq<char>>,
)
    ensures
        tools_tree(tools).list_at("tools"@) matches Some(list) && list.len() == tools.len() && (
        forall|i: int|
            0 <= i < list.len() ==> (#[trigger] list[i]).text_at("name"@) == Some(tools[i].name)
                && list[i].text_at("description"@) == Some(tools[i].description) && list[i].at(
                "parameters"@,
            ) == Some(tools[i].parameters)),
        ({
            let t = config_tree(plugins, services, names_of(tools));
            &&& t.list_at("plugins"@) matches Some(list) && list.len() == plugins.len() && (forall|
                i: int,
            |
                0 <= i < list.len() ==> #[trigger] list[i] == Tree::Text(plugins[i]))
            &&& t.list_at("services"@) matches Some(list) && list.len() == services.len() && (forall|
                i: int,
            |
                0 <= i < list.len() ==> #[trigger] list[i] == Tree::Text(services[i]))
            &&& t.list_at("tools"@) matches Some(list) && list.len() == tools.len() && (forall|
                i: int,
            |
                0 <= i < list.len() ==> #[trigger] list[i] == Tree::Text(tools[i].name))
        }),
{
    reveal_strlit("name");
    reveal_strlit("description");
    reveal_strlit("parameters");
    reveal_strlit("plugins");
    reveal_strlit("services");
    reveal_strlit("tools");
    assert("name"@.len() == 4 && "description"@.len() == 11 && "parameters"@.len() == 10
        && "plugins"@.len() == 7 && "services"@.len() == 8 && "tools"@.len() == 5);
}

/// The models of each provider stand under its identity.
pub proof fn lemma_models_under_providers(h: HubView, providers: Seq<ProviderView>, i: int)
    requires
        0 <= i < providers.len(),
    ensures
        provider_models(h, providers) is Object,
        provider_models(h, providers).list_at(providers[i].id) matches Some(list) && list.len()
            == models_of(h, providers[i].id).len() && (forall|k: int|
            0 <= k < list.len() ==> #[trigger] list[k] == ModelInfo::tree(
                models_of(h, providers[i].id)[k],
            )),
    decreases providers.len(),
{
    let front = providers.drop_last();
    let last = providers.last().id;
    lemma_models_object(h, front);
    if i < front.len() {
        lemma_models_under_providers(h, front, i);
        assert(front[i] == providers[i]);
    }
}

proof fn lemma_models_object(h: HubView, providers: Seq<ProviderView>)
    ensures
        provider_models(h, providers) is Object,
    decreases providers.len(),
{
    if providers.len() > 0 {
        lemma_models_object(h, providers.drop_last());
    }
}

/// The state of the hub tells of every provider, in order, and of what was chosen.
pub proof fn lemma_hub_is_told(h: HubView)
    ensures
        ({
            let t = hub_state_tree(h);
            &&& t.list_at("providers"@) matches Some(list) && list.len() == h.providers.len() && (
            forall|i: int|
                0 <= i < list.len() ==> #[trigger] list[i] == ProviderConfig::tree(h.providers[i]))
            &&& t.at("models"@) == Some(provider_models(h, h.providers))
            &&& t.at("active"@) matches Some(a) && a.text_at("provider"@) == h.active_provider
                && a.text_at("model"@) == h.active_model
        }),
{
    reveal_strlit("providers");
    reveal_strlit("models");
    reveal_strlit("active");
    reveal_strlit("provider");
    reveal_strlit("model");
    assert("providers"@.len() == 9 && "models"@.len() == 6 && "models"@[0] == 'm' && "active"@.len()
        == 6 && "active"@[0] == 'a' && "provider"@.len() == 8 && "model"@.len() == 5);
}

/// The sessions are told oldest first, each of them once; the tasks, the servers and the mode of a
/// session are told as they are.
pub proof fn lemma_lists_are_told(
    sessions: Seq<SessionView>,
    tasks: Seq<TaskView>,
    servers: Seq<ServerView>,
    s: SessionView,
)
    ensures
        ({
            let list = sorted::<SessionMeta>(metas(sessions));
            &&& in_order::<SessionMeta>(list)
            &&& list.to_multiset() == metas(sessions).to_multiset()
            &&& list.len() == sessions.len()
            &&& sessions_tree(sessions) matches Tree::Array(told) && told.len() == sessions.len()
                && (forall|i: int|
                0 <= i < told.len() ==> #[trigger] told[i] == meta_tree(list[i]))
        }),
        tasks_tree(tasks).list_at("tasks"@) matches Some(list) && list.len() == tasks.len() && (
        forall|i: int| 0 <= i < list.len() ==> #[trigger] list[i] == TaskItem::tree(tasks[i])),
        servers_tree(servers).list_at("servers"@) matches Some(list) && list.len() == servers.len()
            && (forall|i: int|
            0 <= i < list.len() ==> #[trigger] list[i] == McpServerConfig::tree(servers[i])),
        mode_tree(s).text_at("mode"@) == Some(s.work_mode),
        mode_tree(s).text_at("phase"@) == Some(s.workflow_phase),
{
    reveal_strlit("mode");
    reveal_strlit("phase");
    assert("mode"@.len() != "phase"@.len());
    lemma_sorted::<SessionMeta>(metas(sessions));
}

/// A stored server has a member for each of its parts.
pub proof fn lemma_server_members(v: ServerView)
    ensures
        ({
            let t = McpServerConfig::tree(v);
            &&& t.text_at("name"@) == Some(v.name)
            &&& t.text_at("transport"@) == Some(v.transport)
            &&& t.text_at("command"@) == Some(v.command)
            &&& t.text_at("url"@) == Some(v.url)
            &&& t.list_at("args"@) matches Some(list) && list.len() == v.args.len() && (forall|i: int|
                0 <= i < list.len() ==> #[trigger] list[i] == Tree::Text(v.args[i]))
        }),
{
    reveal_strlit("name");
    reveal_strlit("transport");
    reveal_strlit("command");
    reveal_strlit("args");
    reveal_strlit("url");
    assert("name"@.len() == 4 && "name"@[0] == 'n' && "transport"@.len() == 9 && "command"@.len()
        == 7 && "args"@.len() == 4 && "args"@[0] == 'a' && "url"@.len() == 3);
}

/// A session is exported as the JSON in which it is stored where that is asked for, and else as its
/// transcript; the file is named after the session.
pub proof fn lemma_exports(s: SessionView, format: Option<Seq<char>>)
    ensures
        format == Some("json"@) ==> export_of(s, format).content == json_pretty(
            record_tree(record_of(s)),
        ) && export_of(s, format).content_type == "application/json"@,
        format != Some("json"@) ==> export_of(s, format).content == markdown(s) && export_of(
            s,
            format,
        ).content_type == "text/markdown; charset=utf-8"@,
        crate::text::holds(export_of(s, format).disposition, s.id),
{
    let ending = if format == Some("json"@) {
        ".json"@
    } else {
        ".md"@
    };
    let front = "attachment; filename=\""@;
    let name = s.id + ending;
    let none: Seq<char> = Seq::empty();
    assert(name =~= none + s.id + ending);
    crate::text_laws::lemma_part_is_held(none, s.id, ending);
    crate::text_laws::lemma_held_behind(front, name, s.id);
    crate::text_laws::lemma_held_in_front(front + name, "\""@, s.id);
}

/// A new session is given the title that is asked for, and that of an untitled one where none is.
pub proof fn lemma_new_titles(body: Tree, title: Seq<char>)
    ensures
        body.at("title"@) == Some(Tree::Text(title)) ==> title_in(body) == title,
        !(body.at("title"@) matches Some(Tree::Text(_))) ==> title_in(body) == "新会话"@,
{
}

// ---------- servers ----------

/// The connections to other servers are all those of other names, in order.
pub proof fn lemma_other_connections(
    a: Seq<ConnectionView>,
    b: Seq<ConnectionView>,
    one: ConnectionView,
    name: Seq<char>,
)
    ensures
        others(a + b, name) == others(a, name) + others(b, name),
        one.name != name ==> others(seq![one], name) == seq![one],
        one.name == name ==> others(seq![one], name).len() == 0,
    decreases b.len(),
{
    assert(seq![one].drop_last() =~= Seq::empty());
    assert(seq![one].last() == one);
    assert(others(Seq::empty(), name) =~= Seq::empty());
    assert(one.name != name ==> others(seq![one], name) =~= seq![one]);
    if b.len() == 0 {
        assert(a + b =~= a);
        assert(others(b, name) =~= b);
        assert(others(a, name) + others(b, name) =~= others(a, name));
    } else {
        lemma_other_connections(a, b.drop_last(), one, name);
        assert((a + b).drop_last() =~= a + b.drop_last());
        assert((a + b).last() == b.last());
        assert(others(a + b, name) =~= others(a, name) + others(b, name));
    }
}

/// What may be missing in a stored server or model counts as empty, or as not given.
pub proof fn lemma_missing_members(t: Tree, server: ServerView, model: ModelView, info: InfoView)
    requires
        t is Object,
    ensures
        McpServerConfig::read(t) == Some(server) ==> {
            &&& t.text_at("name"@) == Some(server.name)
            &&& t.at("transport"@) is None ==> server.transport.len() == 0
            &&& t.at("command"@) is None ==> server.command.len() == 0
            &&& t.at("args"@) is None ==> server.args.len() == 0
            &&& t.at("url"@) is None ==> server.url.len() == 0
            &&& t.text_at("url"@) matches Some(u) ==> server.url == u
            &&& t.text_at("command"@) matches Some(c) ==> server.command == c
            &&& t.text_at("transport"@) matches Some(w) ==> server.transport == w
        },
        ModelConfig::read(t) == Some(model) ==> {
            &&& t.text_at("id"@) == Some(model.id)
            &&& t.text_at("label"@) == Some(model.label)
            &&& t.text_at("provider"@) == Some(model.provider)
            &&& t.text_at("base_url"@) == model.base_url
            &&& t.text_at("api_key"@) == model.api_key
            &&& t.text_at("model"@) == model.model
        },
        ModelInfo::read(t) == Some(info) ==> {
            &&& t.text_at("id"@) == Some(info.id)
            &&& t.text_at("name"@) == Some(info.name)
            &&& t.at("provider"@) is None ==> info.provider.len() == 0
        },
{
    reveal_strlit("");
}

/// The servers, the providers and the models are those of their files, all of them and in order; where
/// there is no file, or it cannot be read, there are none.
pub proof fn lemma_files_are_read(
    text: Seq<char>,
    servers: Seq<ServerView>,
    hub: HubFileView,
    active: Option<Seq<char>>,
    models: Seq<ModelView>,
)
    ensures
        servers_in(None).len() == 0,
        hub_in(None) == empty_file(),
        catalog_in(None) == (None::<Seq<char>>, Seq::<ModelView>::empty()),
        json_read(text) is Err ==> servers_in(Some(text)).len() == 0 && hub_in(Some(text))
            == empty_file() && catalog_in(Some(text)) == (None::<Seq<char>>, Seq::<
            ModelView,
        >::empty()),
        json_read(text) == Ok::<Tree, Seq<char>>(
            Tree::Array(trees::<McpServerConfig>(servers)),
        ) ==> servers_in(Some(text)) == servers,
        json_read(text) == Ok::<Tree, Seq<char>>(hub_tree(hub)) ==> hub_in(Some(text)) == hub,
        json_read(text) == Ok::<Tree, Seq<char>>(catalog_tree(active, models)) ==> catalog_in(
            Some(text),
        ) == (active, models),
{
    Vec::<McpServerConfig>::reads_back(servers);
    lemma_hub_reads_back(hub);
    lemma_catalog_reads_back(active, models);
}

// ---------- the catalog ----------

/// The models of a file stay, in order, in a catalog that is loaded from it. A mock model is put in
/// front of them where they have none, and the model of the environment behind them where there is a
/// key and they have none of its kind.
pub proof fn lemma_seeded_models(
    models: Seq<ModelView>,
    key: Option<Seq<char>>,
    base_url: Option<Seq<char>>,
    model: Option<Seq<char>>,
)
    ensures
        ({
            let all = seeded(models, key, base_url, model);
            let front: int = if has_provider(models, "mock"@) {
                0
            } else {
                1
            };
            let behind: int = if key is Some && !has_provider(models, "openai"@) {
                1
            } else {
                0
            };
            &&& all.len() == front + models.len() + behind
            &&& all.subrange(front, front + models.len()) == models
            &&& front == 1 ==> all[0].provider == "mock"@ && all[0].id == "mock"@
            &&& behind == 1 ==> all.last().provider == "openai"@ && all.last().api_key == key && (
            base_url is Some ==> all.last().base_url == base_url) && (model is Some
                ==> all.last().model == model)
        }),
{
    reveal_strlit("mock");
    reveal_strlit("openai");
    assert("mock"@.len() != "openai"@.len());
    let all = seeded(models, key, base_url, model);
    let a = if has_provider(models, "mock"@) {
        models
    } else {
        seq![mock_model()] + models
    };
    let front: int = if has_provider(models, "mock"@) {
        0
    } else {
        1
    };
    if !has_provider(models, "mock"@) {
        if has_provider(a, "openai"@) {
            let k = choose|k: int| 0 <= k < a.len() && (#[trigger] a[k]).provider == "openai"@;
            assert(k > 0);
            assert(models[k - 1].provider == "openai"@);
        }
        if has_provider(models, "openai"@) {
            let k = choose|k: int|
                0 <= k < models.len() && (#[trigger] models[k]).provider == "openai"@;
            assert(a[k + 1].provider == "openai"@);
        }
    }
    assert(all.subrange(front, front + models.len()) =~= models);
}

/// The first model that is put into a catalog without a choice is chosen; a choice stays where
/// another model is put in or taken out. Where the chosen one is taken out, the first of the others
/// is chosen.
pub proof fn lemma_choices(c: CatalogView, m: ModelView, id: Seq<char>)
    ensures
        c.active is Some ==> with_model(c, m).active == c.active,
        c.active is None ==> with_model(c, m).active == Some(with_id(m, c.next_id).id) && chosen(
            with_model(c, m),
        ) == Some(with_id(m, c.next_id)),
        c.active != Some(id) ==> without_model(c, id).active == c.active && chosen(
            without_model(c, id),
        ) == chosen(c),
        c.active == Some(id) && without_model(c, id).models.len() > 0 ==> without_model(
            c,
            id,
        ).active == Some(without_model(c, id).models[0].id),
        c.active == Some(id) && without_model(c, id).models.len() == 0 ==> without_model(
            c,
            id,
        ).active is None,
        chosen(c) matches Some(x) ==> c.active == Some(x.id) && c.models.contains(x),
        !known::<ModelConfig>(without_model(c, id).models, id),
{
    crate::web::catalog::lemma_put_model_is_found(c, m, id);
    lemma_rid_of::<ModelConfig>(c.models, id, id);
    match c.active {
        Some(a) => {
            lemma_rid_of::<ModelConfig>(c.models, id, a);
            lemma_found_carries_its_name::<ModelConfig>(c.models, a);
            if chosen(c) is Some {
                let k = index_of::<ModelConfig>(c.models, a);
                assert(c.models[k] == chosen(c)->0);
            }
        },
        None => {},
    }
}

/// A model without an identity gets one; everything else of it, and an identity that it has, stay.
pub proof fn lemma_model_ids(m: ModelView, next_id: u64)
    ensures
        !blank_text(m.id) ==> with_id(m, next_id) == m,
        blank_text(m.id) ==> with_id(m, next_id).id == "m-"@ + crate::text::decimal(next_id as nat),
        with_id(m, next_id).label == m.label,
        with_id(m, next_id).provider == m.provider,
        with_id(m, next_id).base_url == m.base_url,
        with_id(m, next_id).api_key == m.api_key,
        with_id(m, next_id).model == m.model,
{
    lemma_blank(m.id);
}

/// A model is asked by the way that its provider names: a mock needs nothing; an endpoint needs an
/// address, a key and a model, and is asked with those. Any other word is refused.
pub proof fn lemma_routes_of_models(m: ModelView)
    ensures
        m.provider == "mock"@ ==> (route_of(m) matches Ok(r) && r is Mock),
        m.provider == "openai"@ ==> (route_of(m) is Ok <==> m.base_url is Some && m.api_key is Some
            && m.model is Some),
        m.provider == "openai"@ ==> (route_of(m) matches Ok(r) ==> r == (RouteView::OpenAi {
            provider: (m.base_url->0, m.api_key->0),
            model: m.model->0,
        })),
        m.provider != "mock"@ && m.provider != "openai"@ ==> route_of(m) is Err,
{
    reveal_strlit("mock");
    reveal_strlit("openai");
    assert("mock"@.len() != "openai"@.len());
}

/// A stored catalog has its choice and its models, each with all of its parts and in order; a catalog
/// of which nothing is stored has neither.
pub proof fn lemma_catalog_members(active: Option<Seq<char>>, models: Seq<ModelView>)
    ensures
        catalog_tree(active, models).text_at("active"@) == active,
        catalog_tree(active, models).list_at("models"@) matches Some(list) && list.len()
            == models.len() && (forall|i: int|
            0 <= i < list.len() ==> (#[trigger] list[i]).text_at("id"@) == Some(models[i].id)
                && list[i].text_at("label"@) == Some(models[i].label) && list[i].text_at("provider"@)
                == Some(models[i].provider) && list[i].text_at("base_url"@) == models[i].base_url
                && list[i].text_at("api_key"@) == models[i].api_key && list[i].text_at("model"@)
                == models[i].model),
        catalog_from(Tree::Object(Map::empty())) matches Some(x) && x.0 is None && x.1.len() == 0,
{
    reveal_strlit("active");
    reveal_strlit("models");
    reveal_strlit("id");
    reveal_strlit("label");
    reveal_strlit("provider");
    reveal_strlit("base_url");
    reveal_strlit("api_key");
    reveal_strlit("model");
    assert("active"@[0] == 'a' && "models"@[0] == 'm' && "id"@.len() == 2 && "label"@.len() == 5
        && "label"@[0] == 'l' && "provider"@.len() == 8 && "provider"@[0] == 'p' && "base_url"@.len()
        == 8 && "base_url"@[0] == 'b' && "api_key"@.len() == 7 && "model"@.len() == 5 && "model"@[0]
        == 'm');
    let list = catalog_tree(active, models).list_at("models"@)->0;
    assert forall|i: int| 0 <= i < list.len() implies (#[trigger] list[i]).text_at("id"@) == Some(
        models[i].id,
    ) && list[i].text_at("label"@) == Some(models[i].label) && list[i].text_at("provider"@) == Some(
        models[i].provider,
    ) && list[i].text_at("base_url"@) == models[i].base_url && list[i].text_at("api_key"@)
        == models[i].api_key && list[i].text_at("model"@) == models[i].model by {
        assert(list[i] == ModelConfig::tree(models[i]));
    }
}

} // verus!
