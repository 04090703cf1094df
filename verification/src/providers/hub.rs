//! The hub of model providers: which there are, which models they have, and which is in use.
use vstd::prelude::*;
use vstd::string::*;

use crate::codec::{
    Codec, field, field_or, listed, membered, name_views, read_field, read_field_or, trees,
};
use crate::duplicate::Duplicate;
use crate::json::{
    Json, Tree, json_pretty, json_read, lemma_member_names, members, object, optional_text,
    lemma_nested_with, nested, parse,
};
use crate::keyed::{
    Keyed, discard, found, get, known, lemma_rid_of, lemma_upsert_keeps, lemma_upserted_is_found,
    rid_of, upsert, upserted,
};
use crate::providers::chat::{chat_body, chat_tree, route, route_to};
use crate::session::store::{FileWrite, WriteView};
use crate::agent::model::ModelRequest;
use crate::table::{Table, as_map, at, has, lemma_put_map, lemma_without_map};
use crate::text::{concat2, concat3, decimal, decimal_text, same, trim, trimmed};

verus! {

/// A provider: an OpenAI-compatible endpoint and its credential.
#[derive(Debug, Clone)]
pub struct ProviderConfig {
    pub id: String,
    pub name: String,
    pub base_url: String,
    pub api_key: String,
}

/// What a provider stands for.
#[verifier::ext_equal]
pub struct ProviderView {
    pub id: Seq<char>,
    pub name: Seq<char>,
    pub base_url: Seq<char>,
    pub api_key: Seq<char>,
}

impl View for ProviderConfig {
    type V = ProviderView;

    open spec fn view(&self) -> ProviderView {
        ProviderView {
            id: self.id@,
            name: self.name@,
            base_url: self.base_url@,
            api_key: self.api_key@,
        }
    }
}

impl DeepView for ProviderConfig {
    type V = ProviderView;

    open spec fn deep_view(&self) -> ProviderView {
        self@
    }
}

impl Duplicate for ProviderConfig {
    fn duplicate(&self) -> (r: Self) {
        ProviderConfig {
            id: self.id.clone(),
            name: self.name.clone(),
            base_url: self.base_url.clone(),
            api_key: self.api_key.clone(),
        }
    }
}

impl Keyed for ProviderConfig {
    open spec fn key_of(v: ProviderView) -> Seq<char> {
        v.id
    }

    fn key(&self) -> (r: &str) {
        self.id.as_str()
    }
}

/// The names of the members of a provider, in their order.
pub open spec fn provider_names() -> Seq<Seq<char>> {
    seq![
        "id"@,
        "name"@,
        "base_url"@,
        "api_key"@,
    ]
}

/// A provider from its members.
pub open spec fn provider_from(t: Tree) -> Option<ProviderView> {
    match (
        field::<String>(t, "id"@),
        field::<String>(t, "name"@),
        field::<String>(t, "base_url"@),
        field::<String>(t, "api_key"@),
    ) {
        (Some(id), Some(name), Some(base_url), Some(api_key)) => Some(
            ProviderView { id, name, base_url, api_key },
        ),
        _ => None,
    }
}

fn read_provider(j: &Json) -> (r: Option<ProviderConfig>)
    ensures
        r.deep_view() == provider_from(j@),
{
    match (
        read_field::<String>(j, "id"),
        read_field::<String>(j, "name"),
        read_field::<String>(j, "base_url"),
        read_field::<String>(j, "api_key"),
    ) {
        (Some(id), Some(name), Some(base_url), Some(api_key)) => Some(
            ProviderConfig { id, name, base_url, api_key },
        ),
        _ => None,
    }
}

impl Codec for ProviderConfig {
    open spec fn tree(v: ProviderView) -> Tree {
        object().with("id"@, Tree::Text(v.id)).with("name"@, Tree::Text(v.name)).with(
            "base_url"@,
            Tree::Text(v.base_url),
        ).with("api_key"@, Tree::Text(v.api_key))
    }

    open spec fn read(t: Tree) -> Option<ProviderView> {
        provider_from(membered(t, provider_names()))
    }

    fn to_json(&self) -> (r: Json) {
        Json::object().with("id", self.id.to_json()).with("name", self.name.to_json()).with(
            "base_url",
            self.base_url.to_json(),
        ).with("api_key", self.api_key.to_json())
    }

    fn from_json(j: &Json) -> (r: Option<ProviderConfig>) {
        let names: Vec<&str> = vec!["id", "name", "base_url", "api_key"];
        assert(name_views(names@) =~= provider_names());
        match listed(j, &names) {
            Some(m) => read_provider(&m),
            None => read_provider(j),
        }
    }

    proof fn reads_back(v: ProviderView) {
        reveal_strlit("id");
        reveal_strlit("name");
        reveal_strlit("base_url");
        reveal_strlit("api_key");
        assert("id"@.len() != "name"@.len());
        assert("id"@.len() != "base_url"@.len());
        assert("id"@.len() != "api_key"@.len());
        assert("name"@.len() != "base_url"@.len());
        assert("name"@.len() != "api_key"@.len());
        assert("base_url"@.len() != "api_key"@.len());
    }
}

/// One model of a provider.
#[derive(Debug, Clone)]
pub struct ModelInfo {
    pub id: String,
    pub name: String,
    /// The provider that has it.
    pub provider: String,
}

/// What a model stands for.
#[verifier::ext_equal]
pub struct InfoView {
    pub id: Seq<char>,
    pub name: Seq<char>,
    pub provider: Seq<char>,
}

impl View for ModelInfo {
    type V = InfoView;

    open spec fn view(&self) -> InfoView {
        InfoView { id: self.id@, name: self.name@, provider: self.provider@ }
    }
}

impl DeepView for ModelInfo {
    type V = InfoView;

    open spec fn deep_view(&self) -> InfoView {
        self@
    }
}

impl Duplicate for ModelInfo {
    fn duplicate(&self) -> (r: Self) {
        ModelInfo {
            id: self.id.clone(),
            name: self.name.clone(),
            provider: self.provider.clone(),
        }
    }
}

impl Keyed for ModelInfo {
    open spec fn key_of(v: InfoView) -> Seq<char> {
        v.id
    }

    fn key(&self) -> (r: &str) {
        self.id.as_str()
    }
}

/// The names of the members of a model of a provider, in their order.
pub open spec fn info_names() -> Seq<Seq<char>> {
    seq![
        "id"@,
        "name"@,
        "provider"@,
    ]
}

/// A model of a provider from its members.
pub open spec fn info_from(t: Tree) -> Option<InfoView> {
    match (
        field::<String>(t, "id"@),
        field::<String>(t, "name"@),
        field_or::<String>(t, "provider"@, ""@),
    ) {
        (Some(id), Some(name), Some(provider)) => Some(InfoView { id, name, provider }),
        _ => None,
    }
}

fn read_info(j: &Json) -> (r: Option<ModelInfo>)
    ensures
        r.deep_view() == info_from(j@),
{
    match (
        read_field::<String>(j, "id"),
        read_field::<String>(j, "name"),
        read_field_or::<String>(j, "provider", "".to_owned()),
    ) {
        (Some(id), Some(name), Some(provider)) => Some(ModelInfo { id, name, provider }),
        _ => None,
    }
}

impl Codec for ModelInfo {
    open spec fn tree(v: InfoView) -> Tree {
        object().with("id"@, Tree::Text(v.id)).with("name"@, Tree::Text(v.name)).with(
            "provider"@,
            Tree::Text(v.provider),
        )
    }

    open spec fn read(t: Tree) -> Option<InfoView> {
        info_from(membered(t, info_names()))
    }

    fn to_json(&self) -> (r: Json) {
        Json::object().with("id", self.id.to_json()).with("name", self.name.to_json()).with(
            "provider",
            self.provider.to_json(),
        )
    }

    fn from_json(j: &Json) -> (r: Option<ModelInfo>) {
        let names: Vec<&str> = vec!["id", "name", "provider"];
        assert(name_views(names@) =~= info_names());
        match listed(j, &names) {
            Some(m) => read_info(&m),
            None => read_info(j),
        }
    }

    proof fn reads_back(v: InfoView) {
        reveal_strlit("id");
        reveal_strlit("name");
        reveal_strlit("provider");
        assert("id"@.len() != "name"@.len());
        assert("id"@.len() != "provider"@.len());
        assert("name"@.len() != "provider"@.len());
    }
}

// ---------- the adapter ----------

/// The models in the answer of a provider: those that have an identity, which is also their name.
pub open spec fn listed_models(items: Seq<Tree>, provider: Seq<char>) -> Seq<InfoView>
    decreases items.len(),
{
    if items.len() == 0 {
        Seq::empty()
    } else {
        match items.last().text_at("id"@) {
            Some(id) => listed_models(items.drop_last(), provider).push(
                InfoView { id, name: id, provider },
            ),
            None => listed_models(items.drop_last(), provider),
        }
    }
}

/// The models in the answer of a provider; none where it lists nothing.
pub open spec fn models_in(answer: Tree, provider: Seq<char>) -> Seq<InfoView> {
    match answer.list_at("data"@) {
        Some(items) => listed_models(items, provider),
        None => Seq::empty(),
    }
}

/// An adapter, bound to one provider. The model is named in each request.
#[derive(Debug)]
pub struct OpenAiCompatibleProvider {
    base_url: String,
    api_key: String,
}

impl View for OpenAiCompatibleProvider {
    type V = (Seq<char>, Seq<char>);

    closed spec fn view(&self) -> (Seq<char>, Seq<char>) {
        (self.base_url@, self.api_key@)
    }
}

impl OpenAiCompatibleProvider {
    pub fn new(base_url: &str, api_key: &str) -> (r: OpenAiCompatibleProvider)
        ensures
            r@ == (base_url@, api_key@),
    {
        OpenAiCompatibleProvider { base_url: base_url.to_owned(), api_key: api_key.to_owned() }
    }

    /// An adapter from what the environment says: the key must be set, the address may be.
    pub fn from_env(api_key: Option<String>, base_url: Option<String>) -> (r: Result<
        OpenAiCompatibleProvider,
        String,
    >)
        ensures
            match r {
                Ok(p) => {
                    &&& api_key is Some
                    &&& p@.1 == api_key->0@
                    &&& p@.0 == (match base_url {
                        Some(b) => b@,
                        None => "https://api.deepseek.com"@,
                    })
                },
                Err(e) => api_key is None && e@ == "RH_API_KEY not set"@,
            },
    {
        match api_key {
            Some(key) => {
                let base = match base_url {
                    Some(b) => b,
                    None => "https://api.deepseek.com".to_owned(),
                };
                Ok(OpenAiCompatibleProvider::new(base.as_str(), key.as_str()))
            },
            None => Err("RH_API_KEY not set".to_owned()),
        }
    }

    /// The address of the provider.
    pub fn base_url(&self) -> (r: &str)
        ensures
            r@ == self@.0,
    {
        self.base_url.as_str()
    }

    /// The credential that is sent with every request.
    pub fn api_key(&self) -> (r: &str)
        ensures
            r@ == self@.1,
    {
        self.api_key.as_str()
    }

    /// Where completions are asked for.
    pub fn chat_url(&self) -> (r: String)
        ensures
            r@ == route(self@.0, "/chat/completions"@),
    {
        route_to(self.base_url.as_str(), "/chat/completions")
    }

    /// Where models are asked for.
    pub fn models_url(&self) -> (r: String)
        ensures
            r@ == route(self@.0, "/models"@),
    {
        route_to(self.base_url.as_str(), "/models")
    }

    /// The body of a request.
    pub fn chat_body(&self, request: &ModelRequest, stream: bool) -> (r: Json)
        ensures
            r@ == chat_tree(request@, stream),
    {
        chat_body(request, stream)
    }

    /// The models in the answer of the provider.
    pub fn list_models(&self, answer: &Json) -> (r: Vec<ModelInfo>)
        ensures
            r.deep_view() == models_in(answer@, ""@),
    {
        read_models(answer, "")
    }
}

fn read_models(answer: &Json, provider: &str) -> (out: Vec<ModelInfo>)
    ensures
        out.deep_view() == models_in(answer@, provider@),
{
    let mut out: Vec<ModelInfo> = Vec::new();
    assert(out.deep_view() =~= Seq::empty());
    match answer.array_at("data") {
        Some(items) => {
            let ghost all = items.deep_view();
            let mut i: usize = 0;
            while i < items.len()
                invariant
                    i <= items@.len(),
                    all == items.deep_view(),
                    out.deep_view() == listed_models(all.take(i as int), provider@),
                decreases items@.len() - i,
            {
                proof {
                    assert(all.take(i + 1).drop_last() =~= all.take(i as int));
                    assert(all.take(i + 1).last() == items@[i as int]@);
                }
                let ghost before = out.deep_view();
                match items[i].str_at("id") {
                    Some(id) => {
                        let info = ModelInfo {
                            id: id.to_owned(),
                            name: id.to_owned(),
                            provider: provider.to_owned(),
                        };
                        out.push(info);
                        assert(out.deep_view() =~= before.push(info@));
                    },
                    None => {},
                }
                i = i + 1;
            }
            assert(all.take(i as int) =~= all);
        },
        None => {},
    }
    out
}

// ---------- the hub ----------

/// The providers, their models and the choice among them, kept in a file.
#[derive(Debug)]
pub struct ModelHub {
    providers: Vec<ProviderConfig>,
    models: Table<Vec<ModelInfo>>,
    active_provider: Option<String>,
    active_model: Option<String>,
    path: String,
    next_id: u64,
}

/// What a hub stands for.
#[verifier::ext_equal]
pub struct HubView {
    pub providers: Seq<ProviderView>,
    /// The models of each provider that was asked for them.
    pub models: Map<Seq<char>, Seq<InfoView>>,
    pub active_provider: Option<Seq<char>>,
    pub active_model: Option<Seq<char>>,
    pub path: Seq<char>,
    pub next_id: u64,
}

/// The models under each provider, as they stand.
pub open spec fn model_map(rows: Seq<(Seq<char>, Vec<ModelInfo>)>) -> Map<
    Seq<char>,
    Seq<InfoView>,
> {
    Map::new(|k: Seq<char>| has(rows, k), |k: Seq<char>| as_map(rows)[k].deep_view())
}

impl View for ModelHub {
    type V = HubView;

    closed spec fn view(&self) -> HubView {
        HubView {
            providers: self.providers.deep_view(),
            models: model_map(self.models@),
            active_provider: self.active_provider.deep_view(),
            active_model: self.active_model.deep_view(),
            path: self.path@,
            next_id: self.next_id,
        }
    }
}

/// The models of a provider; none where it was never asked.
pub open spec fn models_of(h: HubView, provider: Seq<char>) -> Seq<InfoView> {
    if h.models.dom().contains(provider) {
        h.models[provider]
    } else {
        Seq::empty()
    }
}

/// The JSON form of the models.
pub open spec fn models_tree(m: Map<Seq<char>, Seq<InfoView>>) -> Tree {
    Tree::Object(
        Map::new(
            |k: Seq<char>| m.dom().contains(k),
            |k: Seq<char>| Tree::Array(trees::<ModelInfo>(m[k])),
        ),
    )
}

/// The models that a JSON value is the form of: all of them, or nothing.
pub open spec fn models_from(t: Tree) -> Option<Map<Seq<char>, Seq<InfoView>>> {
    match t {
        Tree::Object(m) => if forall|k: Seq<char>| #[trigger]
            m.dom().contains(k) ==> Vec::<ModelInfo>::read(m[k]) is Some {
            Some(
                Map::new(
                    |k: Seq<char>| m.dom().contains(k),
                    |k: Seq<char>| Vec::<ModelInfo>::read(m[k])->0,
                ),
            )
        } else {
            None
        },
        _ => None,
    }
}

/// What the file of a hub holds.
#[verifier::ext_equal]
pub struct HubFileView {
    pub providers: Seq<ProviderView>,
    pub models: Map<Seq<char>, Seq<InfoView>>,
    pub active_provider: Option<Seq<char>>,
    pub active_model: Option<Seq<char>>,
}

/// What is kept of a hub.
pub open spec fn file_of(h: HubView) -> HubFileView {
    HubFileView {
        providers: h.providers,
        models: h.models,
        active_provider: h.active_provider,
        active_model: h.active_model,
    }
}

/// A file that holds nothing.
pub open spec fn empty_file() -> HubFileView {
    HubFileView {
        providers: Seq::empty(),
        models: Map::empty(),
        active_provider: None,
        active_model: None,
    }
}

/// The JSON form of a hub.
pub open spec fn hub_tree(f: HubFileView) -> Tree {
    object().with("providers"@, Tree::Array(trees::<ProviderConfig>(f.providers))).with(
        "models"@,
        models_tree(f.models),
    ).with("active_provider"@, optional_text(f.active_provider)).with(
        "active_model"@,
        optional_text(f.active_model),
    )
}

/// The models in the member `models`; none where there is no such member.
pub open spec fn models_field(t: Tree) -> Option<Map<Seq<char>, Seq<InfoView>>> {
    match t.at("models"@) {
        Some(x) => models_from(x),
        None => Some(Map::empty()),
    }
}

/// The names of the members of a hub, in their order.
pub open spec fn hub_names() -> Seq<Seq<char>> {
    seq!["providers"@, "models"@, "active_provider"@, "active_model"@]
}

/// The hub from its members. Everything may be missing.
pub open spec fn hub_from(t: Tree) -> Option<HubFileView> {
    match (
        field_or::<Vec<ProviderConfig>>(t, "providers"@, Seq::empty()),
        models_field(t),
        field_or::<Option<String>>(t, "active_provider"@, None),
        field_or::<Option<String>>(t, "active_model"@, None),
    ) {
        (Some(providers), Some(models), Some(active_provider), Some(active_model)) => if t is Object {
            Some(HubFileView { providers, models, active_provider, active_model })
        } else {
            None
        },
        _ => None,
    }
}

/// What the text of a file holds; nothing where there is no file or it cannot be read.
/// Where a name stands twice in an object, the later member counts.
pub open spec fn hub_in(text: Option<Seq<char>>) -> HubFileView {
    match text {
        Some(s) => match json_read(s) {
            Ok(t) => match hub_from(membered(t, hub_names())) {
                Some(f) => f,
                None => empty_file(),
            },
            Err(_) => empty_file(),
        },
        None => empty_file(),
    }
}

/// The provider that the environment describes.
pub open spec fn env_provider(api_key: Seq<char>, base_url: Option<Seq<char>>) -> ProviderView {
    ProviderView {
        id: "deepseek"@,
        name: "DeepSeek"@,
        base_url: (match base_url {
            Some(b) => b,
            None => "https://api.deepseek.com"@,
        }),
        api_key,
    }
}

/// The file of a hub.
pub open spec fn saved_hub(h: HubView) -> WriteView {
    WriteView { path: h.path, text: json_pretty(hub_tree(file_of(h))) }
}

/// A hub from what its file holds.
pub open spec fn hub_with(f: HubFileView, path: Seq<char>, next_id: u64) -> HubView {
    HubView {
        providers: f.providers,
        models: f.models,
        active_provider: f.active_provider,
        active_model: f.active_model,
        path,
        next_id,
    }
}

/// A provider as it is added: with an identity and a name.
pub open spec fn completed(p: ProviderView, next_id: u64) -> ProviderView {
    let id = if trimmed(p.id).len() == 0 {
        "p-"@ + decimal(next_id as nat)
    } else {
        p.id
    };
    ProviderView {
        id,
        name: (if trimmed(p.name).len() == 0 {
            id
        } else {
            p.name
        }),
        ..p
    }
}

/// The hub with a provider added.
pub open spec fn with_provider(h: HubView, p: ProviderView) -> HubView {
    HubView {
        providers: upserted::<ProviderConfig>(h.providers, completed(p, h.next_id)),
        next_id: (if trimmed(p.id).len() == 0 {
            crate::session::ids::after(h.next_id)
        } else {
            h.next_id
        }),
        ..h
    }
}

/// The hub after it was loaded: the file, then the provider of the environment where it is new.
pub open spec fn loaded_hub(
    path: Seq<char>,
    text: Option<Seq<char>>,
    api_key: Option<Seq<char>>,
    base_url: Option<Seq<char>>,
) -> HubView {
    let h = hub_with(hub_in(text), path, 0);
    match api_key {
        Some(key) => if known::<ProviderConfig>(h.providers, "deepseek"@) {
            h
        } else {
            with_provider(h, env_provider(key, base_url))
        },
        None => h,
    }
}

/// The hub without a provider. Where it was in use, nothing is in use any more.
pub open spec fn without_provider(h: HubView, id: Seq<char>) -> HubView {
    HubView {
        providers: rid_of::<ProviderConfig>(h.providers, id),
        models: h.models.remove(id),
        active_provider: (if h.active_provider == Some(id) {
            None
        } else {
            h.active_provider
        }),
        active_model: (if h.active_provider == Some(id) {
            None
        } else {
            h.active_model
        }),
        ..h
    }
}

/// The provider and the model in use, where both are known.
pub open spec fn in_use(h: HubView) -> Option<(ProviderView, InfoView)> {
    match (h.active_provider, h.active_model) {
        (Some(p), Some(m)) => match (
            found::<ProviderConfig>(h.providers, p),
            found::<ModelInfo>(models_of(h, p), m),
        ) {
            (Some(provider), Some(model)) => Some((provider, model)),
            _ => None,
        },
        _ => None,
    }
}

/// What is said where a provider is not known.
pub open spec fn unknown_provider(id: Seq<char>) -> Seq<char> {
    "provider "@ + id + " not found"@
}

/// What is said where a model is not known.
pub open spec fn unknown_model(provider: Seq<char>, model: Seq<char>) -> Seq<char> {
    "model "@ + model + " not found under provider "@ + provider
}

proof fn lemma_model_map_put(
    rows: Seq<(Seq<char>, Vec<ModelInfo>)>,
    key: Seq<char>,
    x: Vec<ModelInfo>,
)
    ensures
        model_map(crate::table::put(rows, key, x)) == model_map(rows).insert(key, x.deep_view()),
{
    lemma_put_map(rows, key, x);
    let a = model_map(crate::table::put(rows, key, x));
    let b = model_map(rows).insert(key, x.deep_view());
    let after = as_map(crate::table::put(rows, key, x));
    assert forall|k: Seq<char>| #[trigger]
        a.dom().contains(k) == b.dom().contains(k) && (a.dom().contains(k) ==> a[k] == b[k]) by {
        assert(after.dom().contains(k) == has(crate::table::put(rows, key, x), k));
        assert(as_map(rows).dom().contains(k) == has(rows, k));
    }
    assert(a =~= b);
}

proof fn lemma_model_map_without(rows: Seq<(Seq<char>, Vec<ModelInfo>)>, key: Seq<char>)
    ensures
        model_map(crate::table::without(rows, key)) == model_map(rows).remove(key),
{
    lemma_without_map(rows, key);
    let a = model_map(crate::table::without(rows, key));
    let b = model_map(rows).remove(key);
    let after = as_map(crate::table::without(rows, key));
    assert forall|k: Seq<char>| #[trigger]
        a.dom().contains(k) == b.dom().contains(k) && (a.dom().contains(k) ==> a[k] == b[k]) by {
        assert(after.dom().contains(k) == has(crate::table::without(rows, key), k));
        assert(as_map(rows).dom().contains(k) == has(rows, k));
    }
    assert(a =~= b);
}

/// What the file of a hub holds.
struct HubFile {
    providers: Vec<ProviderConfig>,
    models: Table<Vec<ModelInfo>>,
    active_provider: Option<String>,
    active_model: Option<String>,
}

impl HubFile {
    closed spec fn file_view(&self) -> HubFileView {
        HubFileView {
            providers: self.providers.deep_view(),
            models: model_map(self.models@),
            active_provider: self.active_provider.deep_view(),
            active_model: self.active_model.deep_view(),
        }
    }
}

fn no_models() -> (r: Table<Vec<ModelInfo>>)
    ensures
        model_map(r@) == Map::<Seq<char>, Seq<InfoView>>::empty(),
{
    let r = Table::new();
    assert(model_map(r@) =~= Map::empty());
    r
}

fn empty_hub_file() -> (r: HubFile)
    ensures
        r.file_view() == empty_file(),
{
    let r = HubFile {
        providers: Vec::new(),
        models: no_models(),
        active_provider: None,
        active_model: None,
    };
    assert(r.file_view() =~= empty_file());
    r
}

fn read_model_table(j: &Json) -> (r: Option<Table<Vec<ModelInfo>>>)
    ensures
        match r {
            Some(t) => models_from(j@) == Some(model_map(t@)),
            None => models_from(j@) is None,
        },
{
    let rows = match j.as_object() {
        Some(v) => v,
        None => return None,
    };
    let ghost m = members(rows@);
    proof {
        lemma_member_names(rows@);
    }
    let mut table = no_models();
    let mut i: usize = 0;
    while i < rows.len()
        invariant
            i <= rows@.len(),
            j@ == Tree::Object(m),
            m == members(rows@),
            forall|k: Seq<char>| #[trigger]
                m.dom().contains(k) == exists|x: int| 0 <= x < rows@.len() && rows@[x].0@ == k,
            forall|x: int|
                0 <= x < i ==> model_map(table@).dom().contains((#[trigger] rows@[x]).0@),
            forall|k: Seq<char>| #[trigger]
                model_map(table@).dom().contains(k) ==> m.dom().contains(k) && Vec::<
                    ModelInfo,
                >::read(m[k]) == Some(model_map(table@)[k]),
        decreases rows@.len() - i,
    {
        let key = rows[i].0.as_str();
        let ghost before = model_map(table@);
        assert(rows@[i as int].0@ == key@);
        assert(m.dom().contains(key@));
        match j.get(key) {
            Some(x) => {
                assert(x@ == m[key@]);
                match Vec::<ModelInfo>::from_json(x) {
                    Some(v) => {
                        proof {
                            lemma_model_map_put(table@, key@, v);
                        }
                        table.put(key, v);
                    },
                    None => {
                        return None;
                    },
                }
            },
            None => {},
        }
        i = i + 1;
    }
    proof {
        let got = model_map(table@);
        assert forall|k: Seq<char>| #[trigger] m.dom().contains(k) implies got.dom().contains(k)
            && Vec::<ModelInfo>::read(m[k]) == Some(got[k]) by {
            let x = choose|x: int| 0 <= x < rows@.len() && rows@[x].0@ == k;
            assert(got.dom().contains(rows@[x].0@));
        }
        assert(models_from(j@)->0 =~= got);
    }
    Some(table)
}

fn read_hub_file(j: &Json) -> (r: Option<HubFile>)
    ensures
        match r {
            Some(f) => hub_from(j@) == Some(f.file_view()),
            None => hub_from(j@) is None,
        },
{
    if j.as_object().is_none() {
        return None;
    }
    let none: Vec<ProviderConfig> = Vec::new();
    assert(none.deep_view() =~= Seq::empty());
    let models = match j.get("models") {
        Some(x) => match read_model_table(x) {
            Some(t) => t,
            None => return None,
        },
        None => no_models(),
    };
    match (
        read_field_or::<Vec<ProviderConfig>>(j, "providers", none),
        read_field_or::<Option<String>>(j, "active_provider", None),
        read_field_or::<Option<String>>(j, "active_model", None),
    ) {
        (Some(providers), Some(active_provider), Some(active_model)) => Some(
            HubFile { providers, models, active_provider, active_model },
        ),
        _ => None,
    }
}

fn read_hub_text(text: Option<&str>) -> (r: HubFile)
    ensures
        r.file_view() == hub_in(
            (match text {
                Some(s) => Some(s@),
                None => None,
            }),
        ),
{
    match text {
        Some(s) => match parse(s) {
            Ok(j) => {
                let names: Vec<&str> = vec![
                    "providers",
                    "models",
                    "active_provider",
                    "active_model",
                ];
                assert(name_views(names@) =~= hub_names());
                let read = match listed(&j, &names) {
                    Some(m) => read_hub_file(&m),
                    None => read_hub_file(&j),
                };
                match read {
                    Some(f) => f,
                    None => empty_hub_file(),
                }
            },
            Err(_) => empty_hub_file(),
        },
        None => empty_hub_file(),
    }
}

impl ModelHub {
    /// Loads the hub from the text of its file, adds the provider that the environment describes
    /// where it is new, and gives the file to write.
    pub fn load(
        path: &str,
        text: Option<&str>,
        api_key: Option<&str>,
        base_url: Option<&str>,
    ) -> (r: (ModelHub, FileWrite))
        ensures
            ({
                let h = loaded_hub(
                    path@,
                    (match text {
                        Some(s) => Some(s@),
                        None => None,
                    }),
                    (match api_key {
                        Some(s) => Some(s@),
                        None => None,
                    }),
                    (match base_url {
                        Some(s) => Some(s@),
                        None => None,
                    }),
                );
                r.0@ == h && r.1@ == saved_hub(h)
            }),
    {
        let f = read_hub_text(text);
        let mut hub = ModelHub {
            providers: f.providers,
            models: f.models,
            active_provider: f.active_provider,
            active_model: f.active_model,
            path: path.to_owned(),
            next_id: 0,
        };
        match api_key {
            Some(key) => {
                if get(&hub.providers, "deepseek").is_none() {
                    let base = match base_url {
                        Some(b) => b.to_owned(),
                        None => "https://api.deepseek.com".to_owned(),
                    };
                    let config = ProviderConfig {
                        id: "deepseek".to_owned(),
                        name: "DeepSeek".to_owned(),
                        base_url: base,
                        api_key: key.to_owned(),
                    };
                    let _ = hub.add_provider(config);
                }
            },
            None => {},
        }
        let save = hub.save();
        (hub, save)
    }

    /// The file of the hub.
    pub fn save(&self) -> (r: FileWrite)
        ensures
            r@ == saved_hub(self@),
            hub_in(Some(r.text@)) == file_of(self@),
    {
        let j = self.file_json();
        let text = j.to_text_pretty();
        proof {
            lemma_hub_reads_back(file_of(self@));
            lemma_hub_is_shallow(file_of(self@));
        }
        FileWrite { path: self.path.clone(), text }
    }

    fn models_json(&self) -> (r: Json)
        ensures
            r@ == models_tree(self@.models),
    {
        let mut obj = Json::object();
        let ghost want = models_tree(self@.models)->Object_0;
        let ghost rows = self.models@;
        let mut i: usize = 0;
        while i < self.models.len()
            invariant
                i <= rows.len(),
                rows == self.models@,
                want == models_tree(model_map(rows))->Object_0,
                obj@ is Object,
                forall|x: int|
                    0 <= x < i ==> obj@->Object_0.dom().contains((#[trigger] rows[x]).0),
                forall|k: Seq<char>| #[trigger]
                    obj@->Object_0.dom().contains(k) ==> want.dom().contains(k) && want[k]
                        == obj@->Object_0[k],
            decreases rows.len() - i,
        {
            let key = self.models.key_at(i);
            proof {
                crate::text::lemma_span(crate::table::keys(rows), key@);
                assert(crate::table::keys(rows)[i as int] == key@);
                assert(has(rows, key@));
            }
            match self.models.get(key) {
                Some(v) => {
                    obj = obj.with(key, v.to_json());
                },
                None => {},
            }
            i = i + 1;
        }
        proof {
            assert forall|k: Seq<char>| #[trigger]
                want.dom().contains(k) implies obj@->Object_0.dom().contains(k) by {
                crate::text::lemma_span(crate::table::keys(rows), k);
                let x = crate::table::row(rows, k);
                assert(crate::table::keys(rows)[x] == k);
                assert(rows[x].0 == k);
            }
            assert(obj@->Object_0 =~= want);
        }
        obj
    }

    fn file_json(&self) -> (r: Json)
        ensures
            r@ == hub_tree(file_of(self@)),
    {
        Json::object().with("providers", self.providers.to_json()).with(
            "models",
            self.models_json(),
        ).with("active_provider", self.active_provider.to_json()).with(
            "active_model",
            self.active_model.to_json(),
        )
    }

    /// All providers.
    pub fn providers(&self) -> (r: Vec<ProviderConfig>)
        ensures
            r.deep_view() == self@.providers,
    {
        self.providers.duplicate()
    }

    /// The provider of the given identity.
    pub fn provider(&self, id: &str) -> (r: Option<ProviderConfig>)
        ensures
            r.deep_view() == found::<ProviderConfig>(self@.providers, id@),
    {
        match get(&self.providers, id) {
            Some(p) => Some(p.duplicate()),
            None => None,
        }
    }

    /// The models of a provider; none where it was never asked.
    pub fn models(&self, provider: &str) -> (r: Vec<ModelInfo>)
        ensures
            r.deep_view() == models_of(self@, provider@),
    {
        match self.models.get(provider) {
            Some(v) => v.duplicate(),
            None => {
                let r: Vec<ModelInfo> = Vec::new();
                assert(r.deep_view() =~= Seq::empty());
                r
            },
        }
    }

    /// The identities of the provider and the model that were chosen.
    pub fn active_state(&self) -> (r: (Option<String>, Option<String>))
        ensures
            r.0.deep_view() == self@.active_provider,
            r.1.deep_view() == self@.active_model,
    {
        (self.active_provider.duplicate(), self.active_model.duplicate())
    }

    /// The provider and the model in use.
    pub fn active(&self) -> (r: Option<(ProviderConfig, ModelInfo)>)
        ensures
            r.deep_view() == in_use(self@),
    {
        match (&self.active_provider, &self.active_model) {
            (Some(p), Some(m)) => {
                let models = self.models(p.as_str());
                match (get(&self.providers, p.as_str()), get(&models, m.as_str())) {
                    (Some(provider), Some(model)) => Some(
                        (provider.duplicate(), model.duplicate()),
                    ),
                    _ => None,
                }
            },
            _ => None,
        }
    }

    /// Adds a provider, or replaces the one of its identity, and gives the file to write. An
    /// identity is made where there is none.
    pub fn add_provider(&mut self, config: ProviderConfig) -> (r: (ProviderConfig, FileWrite))
        ensures
            final(self)@ == with_provider(old(self)@, config@),
            r.0@ == completed(config@, old(self)@.next_id),
            r.1@ == saved_hub(final(self)@),
    {
        let mut config = config;
        if trim(config.id.as_str()).as_str().is_empty() {
            let n = decimal_text(self.next_id);
            self.next_id = self.next_id.wrapping_add(1);
            config.id = concat2("p-", n.as_str());
        }
        if trim(config.name.as_str()).as_str().is_empty() {
            config.name = config.id.clone();
        }
        upsert(&mut self.providers, config.duplicate());
        let save = self.save();
        (config, save)
    }

    /// Removes a provider with its models, and gives the file to write.
    pub fn remove_provider(&mut self, id: &str) -> (r: FileWrite)
        ensures
            final(self)@ == without_provider(old(self)@, id@),
            r@ == saved_hub(final(self)@),
    {
        proof {
            lemma_model_map_without(self.models@, id@);
        }
        discard(&mut self.providers, id);
        let _ = self.models.remove(id);
        let was_active = match &self.active_provider {
            Some(p) => same(p.as_str(), id),
            None => false,
        };
        if was_active {
            self.active_provider = None;
            self.active_model = None;
        }
        self.save()
    }

    /// Chooses a provider and one of its models, and gives the file to write.
    pub fn set_active(&mut self, provider: &str, model: &str) -> (r: Result<FileWrite, String>)
        ensures
            match r {
                Ok(w) => {
                    &&& known::<ProviderConfig>(old(self)@.providers, provider@)
                    &&& known::<ModelInfo>(models_of(old(self)@, provider@), model@)
                    &&& final(self)@ == (HubView {
                        active_provider: Some(provider@),
                        active_model: Some(model@),
                        ..old(self)@
                    })
                    &&& w@ == saved_hub(final(self)@)
                },
                Err(e) => {
                    &&& final(self)@ == old(self)@
                    &&& if known::<ProviderConfig>(old(self)@.providers, provider@) {
                        &&& !known::<ModelInfo>(models_of(old(self)@, provider@), model@)
                        &&& e@ == unknown_model(provider@, model@)
                    } else {
                        e@ == unknown_provider(provider@)
                    }
                },
            },
    {
        if get(&self.providers, provider).is_none() {
            return Err(concat3("provider ", provider, " not found"));
        }
        let models = self.models(provider);
        if get(&models, model).is_none() {
            let head = concat3("model ", model, " not found under provider ");
            return Err(concat2(head.as_str(), provider));
        }
        self.active_provider = Some(provider.to_owned());
        self.active_model = Some(model.to_owned());
        Ok(self.save())
    }

    /// The adapter for a provider.
    pub fn build_provider_for(&self, provider_id: &str) -> (r: Result<
        OpenAiCompatibleProvider,
        String,
    >)
        ensures
            match found::<ProviderConfig>(self@.providers, provider_id@) {
                Some(p) => r matches Ok(a) && a@ == (p.base_url, p.api_key),
                None => r matches Err(e) && e@ == unknown_provider(provider_id@),
            },
    {
        match get(&self.providers, provider_id) {
            Some(p) => Ok(
                OpenAiCompatibleProvider::new(p.base_url.as_str(), p.api_key.as_str()),
            ),
            None => Err(concat3("provider ", provider_id, " not found")),
        }
    }

    /// Takes the answer of a provider that was asked for its models, and gives them and the file
    /// to write.
    pub fn discover_models(&mut self, provider_id: &str, answer: &Json) -> (r: (
        Vec<ModelInfo>,
        FileWrite,
    ))
        ensures
            r.0.deep_view() == models_in(answer@, provider_id@),
            final(self)@ == (HubView {
                models: old(self)@.models.insert(
                    provider_id@,
                    models_in(answer@, provider_id@),
                ),
                ..old(self)@
            }),
            r.1@ == saved_hub(final(self)@),
    {
        let models = read_models(answer, provider_id);
        let kept = models.duplicate();
        proof {
            lemma_model_map_put(self.models@, provider_id@, kept);
        }
        self.models.put(provider_id, kept);
        let save = self.save();
        (models, save)
    }
}

// ---------- what the hub promises ----------

proof fn lemma_hub_is_shallow(f: HubFileView)
    ensures
        nested(hub_tree(f), 127),
{
    broadcast use lemma_nested_with;

    assert forall|i: int| 0 <= i < f.providers.len() implies nested(
        #[trigger] trees::<ProviderConfig>(f.providers)[i],
        125,
    ) by {}
    assert forall|k: Seq<char>, i: int| f.models.dom().contains(k) && 0 <= i < f.models[k].len()
        implies nested(#[trigger] trees::<ModelInfo>(f.models[k])[i], 124) by {}
    let m = models_tree(f.models)->Object_0;
    assert forall|k: Seq<char>| m.dom().contains(k) implies nested(#[trigger] m[k], 125) by {
        assert(m[k] == Tree::Array(trees::<ModelInfo>(f.models[k])));
    }
    assert(nested(models_tree(f.models), 126));
    assert(nested(Tree::Array(trees::<ProviderConfig>(f.providers)), 126));
}

/// A hub is read back from its file as it was.
pub proof fn lemma_hub_reads_back(f: HubFileView)
    ensures
        hub_from(hub_tree(f)) == Some(f),
{
    reveal_strlit("providers");
    reveal_strlit("models");
    reveal_strlit("active_provider");
    reveal_strlit("active_model");
    assert("providers"@.len() != "models"@.len());
    assert("providers"@.len() != "active_provider"@.len());
    assert("providers"@.len() != "active_model"@.len());
    assert("models"@.len() != "active_provider"@.len());
    assert("models"@.len() != "active_model"@.len());
    assert("active_provider"@.len() != "active_model"@.len());
    Vec::<ProviderConfig>::reads_back(f.providers);
    Option::<String>::reads_back(f.active_provider);
    Option::<String>::reads_back(f.active_model);
    let m = models_tree(f.models)->Object_0;
    assert forall|k: Seq<char>| #[trigger] m.dom().contains(k) implies Vec::<ModelInfo>::read(m[k])
        == Some(f.models[k]) by {
        Vec::<ModelInfo>::reads_back(f.models[k]);
    }
    assert(models_from(models_tree(f.models))->0 =~= f.models);
}

/// A provider and a model that were chosen are in use.
pub proof fn lemma_chosen_is_in_use(h: HubView, provider: Seq<char>, model: Seq<char>)
    requires
        known::<ProviderConfig>(h.providers, provider),
        known::<ModelInfo>(models_of(h, provider), model),
    ensures
        ({
            let after = HubView {
                active_provider: Some(provider),
                active_model: Some(model),
                ..h
            };
            in_use(after) matches Some(x) && x.0.id == provider && x.1.id == model
        }),
{
    crate::text::lemma_span(crate::keyed::names::<ProviderConfig>(h.providers), provider);
    crate::text::lemma_span(
        crate::keyed::names::<ModelInfo>(models_of(h, provider)),
        model,
    );
    let i = crate::keyed::index_of::<ProviderConfig>(h.providers, provider);
    let j = crate::keyed::index_of::<ModelInfo>(models_of(h, provider), model);
    assert(crate::keyed::names::<ProviderConfig>(h.providers)[i] == provider);
    assert(crate::keyed::names::<ModelInfo>(models_of(h, provider))[j] == model);
}

/// A removed provider is neither known nor in use, and the others are as they were.
pub proof fn lemma_removed_provider_is_gone(h: HubView, id: Seq<char>, other: Seq<char>)
    ensures
        !known::<ProviderConfig>(without_provider(h, id).providers, id),
        in_use(without_provider(h, id)) matches Some(x) ==> h.active_provider != Some(id),
        other != id ==> found::<ProviderConfig>(without_provider(h, id).providers, other) == found::<
            ProviderConfig,
        >(h.providers, other),
        other != id ==> models_of(without_provider(h, id), other) == models_of(h, other),
{
    lemma_rid_of::<ProviderConfig>(h.providers, id, other);
}

/// A provider that was added is found as it was added, and the others are as they were.
pub proof fn lemma_added_provider_is_found(h: HubView, p: ProviderView, other: Seq<char>)
    ensures
        found::<ProviderConfig>(with_provider(h, p).providers, completed(p, h.next_id).id) == Some(
            completed(p, h.next_id),
        ),
        other != completed(p, h.next_id).id ==> found::<ProviderConfig>(
            with_provider(h, p).providers,
            other,
        ) == found::<ProviderConfig>(h.providers, other),
{
    lemma_upserted_is_found::<ProviderConfig>(h.providers, completed(p, h.next_id));
    if other != completed(p, h.next_id).id {
        lemma_upsert_keeps::<ProviderConfig>(h.providers, completed(p, h.next_id), other);
    }
}

} // verus!
