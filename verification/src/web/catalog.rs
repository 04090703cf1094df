//! The catalog of models that the user manages, and the choice among them.
use vstd::prelude::*;
use vstd::string::*;

use crate::codec::{
    Codec, field, field_or, listed, membered, name_views, read_field, read_field_or, trees,
};
use crate::duplicate::Duplicate;
use crate::json::{
    Json, Tree, json_pretty, json_read, lemma_nested_with, nested, object, optional_text, parse,
};
use crate::keyed::{
    Keyed, discard, found, get, known, lemma_rid_of, lemma_upsert_keeps, lemma_upserted_is_found,
    rid_of, upsert, upserted,
};
use crate::providers::hub::OpenAiCompatibleProvider;
use crate::session::ids::after;
use crate::session::store::{FileWrite, WriteView};
use crate::text::{concat2, concat3, decimal, decimal_text, same, trim, trimmed};

verus! {

/// One model: where it is and how it is asked.
#[derive(Debug, Clone)]
pub struct ModelConfig {
    pub id: String,
    pub label: String,
    /// `mock` or `openai`.
    pub provider: String,
    pub base_url: Option<String>,
    pub api_key: Option<String>,
    pub model: Option<String>,
}

/// What a model stands for.
#[verifier::ext_equal]
pub struct ModelView {
    pub id: Seq<char>,
    pub label: Seq<char>,
    pub provider: Seq<char>,
    pub base_url: Option<Seq<char>>,
    pub api_key: Option<Seq<char>>,
    pub model: Option<Seq<char>>,
}

impl View for ModelConfig {
    type V = ModelView;

    open spec fn view(&self) -> ModelView {
        ModelView {
            id: self.id@,
            label: self.label@,
            provider: self.provider@,
            base_url: self.base_url.deep_view(),
            api_key: self.api_key.deep_view(),
            model: self.model.deep_view(),
        }
    }
}

impl DeepView for ModelConfig {
    type V = ModelView;

    open spec fn deep_view(&self) -> ModelView {
        self@
    }
}

impl Duplicate for ModelConfig {
    fn duplicate(&self) -> (r: Self) {
        ModelConfig {
            id: self.id.clone(),
            label: self.label.clone(),
            provider: self.provider.clone(),
            base_url: self.base_url.duplicate(),
            api_key: self.api_key.duplicate(),
            model: self.model.duplicate(),
        }
    }
}

impl Keyed for ModelConfig {
    open spec fn key_of(v: ModelView) -> Seq<char> {
        v.id
    }

    fn key(&self) -> (r: &str) {
        self.id.as_str()
    }
}

/// The names of the members of a model, in their order.
pub open spec fn model_names() -> Seq<Seq<char>> {
    seq![
        "id"@,
        "label"@,
        "provider"@,
        "base_url"@,
        "api_key"@,
        "model"@,
    ]
}

/// A model from its members.
pub open spec fn model_from(t: Tree) -> Option<ModelView> {
    match (
        field::<String>(t, "id"@),
        field::<String>(t, "label"@),
        field::<String>(t, "provider"@),
        field_or::<Option<String>>(t, "base_url"@, None),
        field_or::<Option<String>>(t, "api_key"@, None),
        field_or::<Option<String>>(t, "model"@, None),
    ) {
        (Some(id), Some(label), Some(provider), Some(base_url), Some(api_key), Some(model)) => Some(
            ModelView { id, label, provider, base_url, api_key, model },
        ),
        _ => None,
    }
}

fn read_model(j: &Json) -> (r: Option<ModelConfig>)
    ensures
        r.deep_view() == model_from(j@),
{
    match (
        read_field::<String>(j, "id"),
        read_field::<String>(j, "label"),
        read_field::<String>(j, "provider"),
        read_field_or::<Option<String>>(j, "base_url", None),
        read_field_or::<Option<String>>(j, "api_key", None),
        read_field_or::<Option<String>>(j, "model", None),
    ) {
        (Some(id), Some(label), Some(provider), Some(base_url), Some(api_key), Some(model)) => Some(
            ModelConfig { id, label, provider, base_url, api_key, model },
        ),
        _ => None,
    }
}

impl Codec for ModelConfig {
    open spec fn tree(v: ModelView) -> Tree {
        object().with("id"@, Tree::Text(v.id)).with("label"@, Tree::Text(v.label)).with(
            "provider"@,
            Tree::Text(v.provider),
        ).with("base_url"@, optional_text(v.base_url)).with(
            "api_key"@,
            optional_text(v.api_key),
        ).with("model"@, optional_text(v.model))
    }

    open spec fn read(t: Tree) -> Option<ModelView> {
        model_from(membered(t, model_names()))
    }

    fn to_json(&self) -> (r: Json) {
        Json::object().with("id", self.id.to_json()).with("label", self.label.to_json()).with(
            "provider",
            self.provider.to_json(),
        ).with("base_url", self.base_url.to_json()).with("api_key", self.api_key.to_json()).with(
            "model",
            self.model.to_json(),
        )
    }

    fn from_json(j: &Json) -> (r: Option<ModelConfig>) {
        let names: Vec<&str> = vec!["id", "label", "provider", "base_url", "api_key", "model"];
        assert(name_views(names@) =~= model_names());
        match listed(j, &names) {
            Some(m) => read_model(&m),
            None => read_model(j),
        }
    }

    proof fn reads_back(v: ModelView) {
        reveal_strlit("id");
        reveal_strlit("label");
        reveal_strlit("provider");
        reveal_strlit("base_url");
        reveal_strlit("api_key");
        reveal_strlit("model");
        assert("id"@.len() != "label"@.len());
        assert("id"@.len() != "provider"@.len());
        assert("id"@.len() != "base_url"@.len());
        assert("id"@.len() != "api_key"@.len());
        assert("id"@.len() != "model"@.len());
        assert("label"@.len() != "provider"@.len());
        assert("label"@.len() != "base_url"@.len());
        assert("label"@.len() != "api_key"@.len());
        assert("label"@[0] != "model"@[0]);
        assert("provider"@[0] != "base_url"@[0]);
        assert("provider"@.len() != "api_key"@.len());
        assert("provider"@.len() != "model"@.len());
        assert("base_url"@.len() != "api_key"@.len());
        assert("base_url"@.len() != "model"@.len());
        assert("api_key"@.len() != "model"@.len());
        Option::<String>::reads_back(v.base_url);
        Option::<String>::reads_back(v.api_key);
        Option::<String>::reads_back(v.model);
    }
}

/// The model that is always there.
pub open spec fn mock_model() -> ModelView {
    ModelView {
        id: "mock"@,
        label: "Mock"@,
        provider: "mock"@,
        base_url: None,
        api_key: None,
        model: None,
    }
}

impl ModelConfig {
    /// The model that is always there.
    pub fn mock() -> (r: ModelConfig)
        ensures
            r@ == mock_model(),
    {
        ModelConfig {
            id: "mock".to_owned(),
            label: "Mock".to_owned(),
            provider: "mock".to_owned(),
            base_url: None,
            api_key: None,
            model: None,
        }
    }
}

/// A text, or another where there is none.
pub open spec fn or_else(s: Option<Seq<char>>, other: Seq<char>) -> Seq<char> {
    match s {
        Some(t) => t,
        None => other,
    }
}

fn text_or_else(s: Option<String>, other: &str) -> (r: String)
    ensures
        r@ == or_else(s.deep_view(), other@),
{
    match s {
        Some(t) => t,
        None => other.to_owned(),
    }
}

/// The model that the environment describes.
pub open spec fn env_view(
    api_key: Seq<char>,
    base_url: Option<Seq<char>>,
    model: Option<Seq<char>>,
) -> ModelView {
    ModelView {
        id: "deepseek"@,
        label: "DeepSeek"@,
        provider: "openai"@,
        base_url: Some(or_else(base_url, "https://api.deepseek.com"@)),
        api_key: Some(api_key),
        model: Some(or_else(model, "deepseek-chat"@)),
    }
}

/// What the environment says of a model.
#[derive(Debug)]
pub struct EnvModel {
    pub api_key: Option<String>,
    pub base_url: Option<String>,
    pub model: Option<String>,
}

fn env_model(api_key: String, base_url: Option<String>, model: Option<String>) -> (r: ModelConfig)
    ensures
        r@ == env_view(api_key@, base_url.deep_view(), model.deep_view()),
{
    ModelConfig {
        id: "deepseek".to_owned(),
        label: "DeepSeek".to_owned(),
        provider: "openai".to_owned(),
        base_url: Some(text_or_else(base_url, "https://api.deepseek.com")),
        api_key: Some(api_key),
        model: Some(text_or_else(model, "deepseek-chat")),
    }
}

/// The models, and the choice among them, kept in a file.
#[derive(Debug)]
pub struct ModelCatalog {
    active: Option<String>,
    models: Vec<ModelConfig>,
    path: String,
    next_id: u64,
}

/// What a catalog stands for.
#[verifier::ext_equal]
pub struct CatalogView {
    pub active: Option<Seq<char>>,
    pub models: Seq<ModelView>,
    pub path: Seq<char>,
    pub next_id: u64,
}

impl View for ModelCatalog {
    type V = CatalogView;

    closed spec fn view(&self) -> CatalogView {
        CatalogView {
            active: self.active.deep_view(),
            models: self.models.deep_view(),
            path: self.path@,
            next_id: self.next_id,
        }
    }
}

/// The JSON form of a catalog.
pub open spec fn catalog_tree(active: Option<Seq<char>>, models: Seq<ModelView>) -> Tree {
    object().with("active"@, optional_text(active)).with(
        "models"@,
        Tree::Array(trees::<ModelConfig>(models)),
    )
}

/// The names of the members of a catalog, in their order.
pub open spec fn catalog_names() -> Seq<Seq<char>> {
    seq!["active"@, "models"@]
}

/// The choice and the models from the members of a catalog. Both may be missing.
pub open spec fn catalog_from(t: Tree) -> Option<(Option<Seq<char>>, Seq<ModelView>)> {
    match (
        field_or::<Option<String>>(t, "active"@, None),
        field_or::<Vec<ModelConfig>>(t, "models"@, Seq::empty()),
    ) {
        (Some(active), Some(models)) => if t is Object {
            Some((active, models))
        } else {
            None
        },
        _ => None,
    }
}

/// The choice and the models in a file; none where there is no file or it cannot be read.
/// Where a name stands twice in an object, the later member counts.
pub open spec fn catalog_in(text: Option<Seq<char>>) -> (Option<Seq<char>>, Seq<ModelView>) {
    match text {
        Some(s) => match json_read(s) {
            Ok(t) => match catalog_from(membered(t, catalog_names())) {
                Some(x) => x,
                None => (None, Seq::empty()),
            },
            Err(_) => (None, Seq::empty()),
        },
        None => (None, Seq::empty()),
    }
}

/// Whether some model has the given provider.
pub open spec fn has_provider(models: Seq<ModelView>, provider: Seq<char>) -> bool {
    exists|i: int| 0 <= i < models.len() && (#[trigger] models[i]).provider == provider
}

/// The models of a file, with the one that is always there and that of the environment.
pub open spec fn seeded(
    models: Seq<ModelView>,
    api_key: Option<Seq<char>>,
    base_url: Option<Seq<char>>,
    model: Option<Seq<char>>,
) -> Seq<ModelView> {
    let a = if has_provider(models, "mock"@) {
        models
    } else {
        seq![mock_model()] + models
    };
    match api_key {
        Some(key) => if has_provider(a, "openai"@) {
            a
        } else {
            a.push(env_view(key, base_url, model))
        },
        None => a,
    }
}

/// The identity of the first model.
pub open spec fn first_id(models: Seq<ModelView>) -> Option<Seq<char>> {
    if models.len() > 0 {
        Some(models[0].id)
    } else {
        None
    }
}

/// The catalog after it was loaded.
pub open spec fn loaded_catalog(
    path: Seq<char>,
    text: Option<Seq<char>>,
    api_key: Option<Seq<char>>,
    base_url: Option<Seq<char>>,
    model: Option<Seq<char>>,
) -> CatalogView {
    let (active, listed) = catalog_in(text);
    let models = seeded(listed, api_key, base_url, model);
    CatalogView {
        active: (match active {
            Some(a) => Some(a),
            None => first_id(models),
        }),
        models,
        path,
        next_id: 0,
    }
}

/// The file of a catalog.
pub open spec fn saved_catalog(c: CatalogView) -> WriteView {
    WriteView { path: c.path, text: json_pretty(catalog_tree(c.active, c.models)) }
}

/// The chosen model, where it is known.
pub open spec fn chosen(c: CatalogView) -> Option<ModelView> {
    match c.active {
        Some(id) => found::<ModelConfig>(c.models, id),
        None => None,
    }
}

/// A model as it is put into a catalog: with an identity.
pub open spec fn with_id(m: ModelView, next_id: u64) -> ModelView {
    if trimmed(m.id).len() == 0 {
        ModelView { id: "m-"@ + decimal(next_id as nat), ..m }
    } else {
        m
    }
}

/// The catalog with a model put into it. Where nothing was chosen, it is.
pub open spec fn with_model(c: CatalogView, m: ModelView) -> CatalogView {
    let x = with_id(m, c.next_id);
    CatalogView {
        models: upserted::<ModelConfig>(c.models, x),
        active: (match c.active {
            Some(a) => Some(a),
            None => Some(x.id),
        }),
        next_id: (if trimmed(m.id).len() == 0 {
            after(c.next_id)
        } else {
            c.next_id
        }),
        ..c
    }
}

/// The catalog without a model. Where it was chosen, the first of the others is.
pub open spec fn without_model(c: CatalogView, id: Seq<char>) -> CatalogView {
    let models = rid_of::<ModelConfig>(c.models, id);
    CatalogView {
        models,
        active: (if c.active == Some(id) {
            first_id(models)
        } else {
            c.active
        }),
        ..c
    }
}

fn any_provider(models: &Vec<ModelConfig>, provider: &str) -> (r: bool)
    ensures
        r == has_provider(models.deep_view(), provider@),
{
    let ghost all = models.deep_view();
    let mut i: usize = 0;
    while i < models.len()
        invariant
            i <= models@.len(),
            all == models.deep_view(),
            forall|j: int| 0 <= j < i ==> (#[trigger] all[j]).provider != provider@,
        decreases models@.len() - i,
    {
        assert(all[i as int] == models@[i as int]@);
        if same(models[i].provider.as_str(), provider) {
            return true;
        }
        i = i + 1;
    }
    false
}

fn first_of(models: &Vec<ModelConfig>) -> (r: Option<String>)
    ensures
        r.deep_view() == first_id(models.deep_view()),
{
    if models.len() > 0 {
        assert(models.deep_view()[0] == models@[0]@);
        Some(models[0].id.clone())
    } else {
        None
    }
}

fn read_catalog(text: Option<&str>) -> (r: (Option<String>, Vec<ModelConfig>))
    ensures
        (r.0.deep_view(), r.1.deep_view()) == catalog_in(
            (match text {
                Some(s) => Some(s@),
                None => None,
            }),
        ),
{
    let none: Vec<ModelConfig> = Vec::new();
    assert(none.deep_view() =~= Seq::empty());
    let j = match text {
        Some(s) => match parse(s) {
            Ok(j) => j,
            Err(_) => return (None, none),
        },
        None => return (None, none),
    };
    let names: Vec<&str> = vec!["active", "models"];
    assert(name_views(names@) =~= catalog_names());
    let j = match listed(&j, &names) {
        Some(m) => m,
        None => j,
    };
    if j.as_object().is_none() {
        return (None, none);
    }
    let fresh: Vec<ModelConfig> = Vec::new();
    assert(fresh.deep_view() =~= Seq::empty());
    match (
        read_field_or::<Option<String>>(&j, "active", None),
        read_field_or::<Vec<ModelConfig>>(&j, "models", fresh),
    ) {
        (Some(active), Some(models)) => (active, models),
        _ => (None, none),
    }
}

impl ModelCatalog {
    /// Loads the catalog from the text of its file, and gives the file to write.
    pub fn load(path: &str, text: Option<&str>, env: EnvModel) -> (r: (ModelCatalog, FileWrite))
        ensures
            ({
                let c = loaded_catalog(
                    path@,
                    (match text {
                        Some(s) => Some(s@),
                        None => None,
                    }),
                    env.api_key.deep_view(),
                    env.base_url.deep_view(),
                    env.model.deep_view(),
                );
                r.0@ == c && r.1@ == saved_catalog(c)
            }),
    {
        let (active, listed) = read_catalog(text);
        let mut models = listed;
        let ghost all = models.deep_view();
        if !any_provider(&models, "mock") {
            let mock = ModelConfig::mock();
            models.insert(0, mock);
            assert(models.deep_view() =~= seq![mock_model()] + all);
        }
        match env.api_key {
            Some(key) => {
                if !any_provider(&models, "openai") {
                    let ghost before = models.deep_view();
                    let m = env_model(key, env.base_url, env.model);
                    models.push(m);
                    assert(models.deep_view() =~= before.push(m@));
                }
            },
            None => {},
        }
        let active = match active {
            Some(a) => Some(a),
            None => first_of(&models),
        };
        let catalog = ModelCatalog { active, models, path: path.to_owned(), next_id: 0 };
        let save = catalog.save();
        (catalog, save)
    }

    /// All models.
    pub fn list(&self) -> (r: Vec<ModelConfig>)
        ensures
            r.deep_view() == self@.models,
    {
        self.models.duplicate()
    }

    /// The identity of the chosen model.
    pub fn active_id(&self) -> (r: Option<String>)
        ensures
            r.deep_view() == self@.active,
    {
        self.active.duplicate()
    }

    /// The chosen model.
    pub fn active(&self) -> (r: Option<ModelConfig>)
        ensures
            r.deep_view() == chosen(self@),
    {
        match &self.active {
            Some(id) => match get(&self.models, id.as_str()) {
                Some(m) => Some(m.duplicate()),
                None => None,
            },
            None => None,
        }
    }

    /// Chooses a model, and gives the file to write.
    pub fn set_active(&mut self, id: &str) -> (r: Result<FileWrite, String>)
        ensures
            match r {
                Ok(w) => {
                    &&& known::<ModelConfig>(old(self)@.models, id@)
                    &&& final(self)@ == (CatalogView { active: Some(id@), ..old(self)@ })
                    &&& w@ == saved_catalog(final(self)@)
                },
                Err(e) => {
                    &&& !known::<ModelConfig>(old(self)@.models, id@)
                    &&& e@ == "model "@ + id@ + " not found"@
                    &&& final(self)@ == old(self)@
                },
            },
    {
        if get(&self.models, id).is_none() {
            return Err(concat3("model ", id, " not found"));
        }
        self.active = Some(id.to_owned());
        Ok(self.save())
    }

    /// Puts a model into the catalog, in the place of the one of its identity, and gives the file
    /// to write. An identity is made where there is none.
    pub fn upsert(&mut self, config: ModelConfig) -> (r: (ModelConfig, FileWrite))
        ensures
            final(self)@ == with_model(old(self)@, config@),
            r.0@ == with_id(config@, old(self)@.next_id),
            r.1@ == saved_catalog(final(self)@),
    {
        let mut config = config;
        if trim(config.id.as_str()).as_str().is_empty() {
            let n = decimal_text(self.next_id);
            self.next_id = self.next_id.wrapping_add(1);
            config.id = concat2("m-", n.as_str());
        }
        upsert(&mut self.models, config.duplicate());
        if self.active.is_none() {
            self.active = Some(config.id.clone());
        }
        let save = self.save();
        (config, save)
    }

    /// Removes a model, and gives the file to write. The one that is always there stays.
    pub fn remove(&mut self, id: &str) -> (r: Result<FileWrite, String>)
        ensures
            match r {
                Ok(w) => {
                    &&& id@ != "mock"@
                    &&& final(self)@ == without_model(old(self)@, id@)
                    &&& w@ == saved_catalog(final(self)@)
                },
                Err(e) => {
                    &&& id@ == "mock"@
                    &&& e@ == "内置的 mock 模型不可删除"@
                    &&& final(self)@ == old(self)@
                },
            },
    {
        if same(id, "mock") {
            return Err("内置的 mock 模型不可删除".to_owned());
        }
        discard(&mut self.models, id);
        let was_active = match &self.active {
            Some(a) => same(a.as_str(), id),
            None => false,
        };
        if was_active {
            self.active = first_of(&self.models);
        }
        Ok(self.save())
    }

    /// The file of the catalog.
    pub fn save(&self) -> (r: FileWrite)
        ensures
            r@ == saved_catalog(self@),
            catalog_in(Some(r.text@)) == (self@.active, self@.models),
    {
        let j = Json::object().with("active", self.active.to_json()).with(
            "models",
            self.models.to_json(),
        );
        let text = j.to_text_pretty();
        proof {
            lemma_catalog_reads_back(self@.active, self@.models);
            lemma_catalog_is_shallow(self@.active, self@.models);
        }
        FileWrite { path: self.path.clone(), text }
    }
}

// ---------- the provider of a model ----------

/// How a model is asked.
#[derive(Debug)]
pub enum ModelRoute {
    /// It is not: answers are made up.
    Mock { model: String },
    /// At an endpoint; the model is named in each request.
    OpenAi { provider: OpenAiCompatibleProvider, model: String },
}

/// What a route stands for.
pub enum RouteView {
    Mock { model: Seq<char> },
    OpenAi { provider: (Seq<char>, Seq<char>), model: Seq<char> },
}

impl View for ModelRoute {
    type V = RouteView;

    open spec fn view(&self) -> RouteView {
        match self {
            ModelRoute::Mock { model } => RouteView::Mock { model: model@ },
            ModelRoute::OpenAi { provider, model } => RouteView::OpenAi {
                provider: provider@,
                model: model@,
            },
        }
    }
}

impl DeepView for ModelRoute {
    type V = RouteView;

    open spec fn deep_view(&self) -> RouteView {
        self@
    }
}

impl Duplicate for ModelRoute {
    fn duplicate(&self) -> (r: Self) {
        match self {
            ModelRoute::Mock { model } => ModelRoute::Mock { model: model.clone() },
            ModelRoute::OpenAi { provider, model } => ModelRoute::OpenAi {
                provider: OpenAiCompatibleProvider::new(provider.base_url(), provider.api_key()),
                model: model.clone(),
            },
        }
    }
}

/// How a model is asked, or what its configuration lacks.
pub open spec fn route_of(m: ModelView) -> Result<RouteView, Seq<char>> {
    if m.provider == "mock"@ {
        Ok(RouteView::Mock { model: or_else(m.model, "mock"@) })
    } else if m.provider == "openai"@ {
        match (m.base_url, m.api_key, m.model) {
            (None, _, _) => Err("base_url 必填"@),
            (Some(_), None, _) => Err("api_key 必填"@),
            (Some(_), Some(_), None) => Err("model 必填"@),
            (Some(b), Some(k), Some(model)) => Ok(RouteView::OpenAi { provider: (b, k), model }),
        }
    } else {
        Err("未知的 provider："@ + m.provider)
    }
}

/// How a model is asked.
pub fn build_provider(config: &ModelConfig) -> (r: Result<ModelRoute, String>)
    ensures
        match r {
            Ok(x) => route_of(config@) matches Ok(v) && v == x@,
            Err(e) => route_of(config@) matches Err(v) && v == e@,
        },
{
    if same(config.provider.as_str(), "mock") {
        let model = text_or_else(config.model.duplicate(), "mock");
        Ok(ModelRoute::Mock { model })
    } else if same(config.provider.as_str(), "openai") {
        match (&config.base_url, &config.api_key, &config.model) {
            (None, _, _) => Err("base_url 必填".to_owned()),
            (Some(_), None, _) => Err("api_key 必填".to_owned()),
            (Some(_), Some(_), None) => Err("model 必填".to_owned()),
            (Some(b), Some(k), Some(m)) => Ok(
                ModelRoute::OpenAi {
                    provider: OpenAiCompatibleProvider::new(b.as_str(), k.as_str()),
                    model: m.clone(),
                },
            ),
        }
    } else {
        Err(concat2("未知的 provider：", config.provider.as_str()))
    }
}

// ---------- what the catalog promises ----------

proof fn lemma_catalog_is_shallow(active: Option<Seq<char>>, models: Seq<ModelView>)
    ensures
        nested(catalog_tree(active, models), 127),
{
    broadcast use lemma_nested_with;

    assert forall|i: int| 0 <= i < models.len() implies nested(
        #[trigger] trees::<ModelConfig>(models)[i],
        125,
    ) by {}
    assert(nested(Tree::Array(trees::<ModelConfig>(models)), 126));
}

/// A catalog is read back from its file as it was.
pub proof fn lemma_catalog_reads_back(active: Option<Seq<char>>, models: Seq<ModelView>)
    ensures
        catalog_from(catalog_tree(active, models)) == Some((active, models)),
{
    reveal_strlit("active");
    reveal_strlit("models");
    assert("active"@[0] != "models"@[0]);
    Option::<String>::reads_back(active);
    Vec::<ModelConfig>::reads_back(models);
}

/// A loaded catalog is never empty, holds a mock model, and has something chosen.
pub proof fn lemma_loaded_catalog_has_a_choice(
    path: Seq<char>,
    text: Option<Seq<char>>,
    api_key: Option<Seq<char>>,
    base_url: Option<Seq<char>>,
    model: Option<Seq<char>>,
)
    ensures
        ({
            let c = loaded_catalog(path, text, api_key, base_url, model);
            &&& c.models.len() > 0
            &&& c.active is Some
            &&& has_provider(c.models, "mock"@)
        }),
{
    let (active, listed) = catalog_in(text);
    let c = loaded_catalog(path, text, api_key, base_url, model);
    if has_provider(listed, "mock"@) {
        let i = choose|i: int| 0 <= i < listed.len() && (#[trigger] listed[i]).provider == "mock"@;
        assert(c.models[i].provider == "mock"@);
    } else {
        assert(c.models[0] == mock_model());
        assert(c.models[0].provider == "mock"@);
    }
}

/// Removing any other model leaves the one that is always there, as it was.
pub proof fn lemma_mock_stays(c: CatalogView, id: Seq<char>)
    requires
        id != "mock"@,
    ensures
        found::<ModelConfig>(without_model(c, id).models, "mock"@) == found::<ModelConfig>(
            c.models,
            "mock"@,
        ),
{
    lemma_rid_of::<ModelConfig>(c.models, id, "mock"@);
}

/// A model that was put into the catalog is found as it was put, and the others stay.
pub proof fn lemma_put_model_is_found(c: CatalogView, m: ModelView, other: Seq<char>)
    ensures
        found::<ModelConfig>(with_model(c, m).models, with_id(m, c.next_id).id) == Some(
            with_id(m, c.next_id),
        ),
        other != with_id(m, c.next_id).id ==> found::<ModelConfig>(
            with_model(c, m).models,
            other,
        ) == found::<ModelConfig>(c.models, other),
{
    lemma_upserted_is_found::<ModelConfig>(c.models, with_id(m, c.next_id));
    if other != with_id(m, c.next_id).id {
        lemma_upsert_keeps::<ModelConfig>(c.models, with_id(m, c.next_id), other);
    }
}

} // verus!
