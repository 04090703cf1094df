//! What a hub of providers keeps, offers and uses.
use vstd::prelude::*;
use vstd::string::*;

use crate::codec::Codec;
use crate::json::Tree;
use crate::keyed::{found, known};
use crate::providers::hub::{
    HubFileView, HubView, ModelInfo, ProviderConfig, ProviderView, completed, empty_file,
    env_provider, hub_from, hub_tree, in_use, listed_models, loaded_hub, models_in, models_of,
    without_provider,
};
use crate::text::{decimal, trimmed};
use crate::text_laws::{blank_text, lemma_trimmed_blank, lemma_trimmed_is_the_core};

verus! {

/// The models that a provider lists are those of its first items, then those of the others. An item
/// with an identity is one model, which is named after it and belongs to the provider; one without
/// is none.
pub proof fn lemma_models_in_parts(a: Seq<Tree>, b: Seq<Tree>, one: Tree, provider: Seq<char>)
    ensures
        listed_models(a + b, provider) == listed_models(a, provider) + listed_models(b, provider),
        one.at("id"@) matches Some(Tree::Text(id)) ==> {
            let models = listed_models(seq![one], provider);
            models.len() == 1 && models[0].id == id && models[0].name == id && models[0].provider
                == provider
        },
        !(one.at("id"@) matches Some(Tree::Text(_))) ==> listed_models(seq![one], provider).len()
            == 0,
    decreases b.len(),
{
    assert(seq![one].drop_last() =~= Seq::empty());
    assert(seq![one].last() == one);
    assert(listed_models(Seq::empty(), provider) =~= Seq::empty());
    if b.len() == 0 {
        assert(a + b =~= a);
        assert(listed_models(a, provider) + listed_models(b, provider) =~= listed_models(
            a,
            provider,
        ));
    } else {
        lemma_models_in_parts(a, b.drop_last(), one, provider);
        assert((a + b).drop_last() =~= a + b.drop_last());
        assert((a + b).last() == b.last());
        assert(listed_models(a + b, provider) =~= listed_models(a, provider) + listed_models(
            b,
            provider,
        ));
    }
}

/// The models in an answer are those of its list of data, and none without it. Once they are taken
/// over they are the models of their provider, and no other provider's change.
pub proof fn lemma_models_are_taken_over(h: HubView, answer: Tree, provider: Seq<char>, other: Seq<char>)
    ensures
        answer.at("data"@) matches Some(Tree::Array(items)) ==> models_in(answer, provider)
            == listed_models(items, provider),
        !(answer.at("data"@) matches Some(Tree::Array(_))) ==> models_in(answer, provider).len()
            == 0,
        ({
            let after = HubView {
                models: h.models.insert(provider, models_in(answer, provider)),
                ..h
            };
            &&& models_of(after, provider) == models_in(answer, provider)
            &&& other != provider ==> models_of(after, other) == models_of(h, other)
        }),
{
}

/// A provider without an identity gets one of its own, and one without a name is named after its
/// identity; its address and its key stay, and what is given is kept.
pub proof fn lemma_providers_are_completed(p: ProviderView, next_id: u64)
    ensures
        completed(p, next_id).base_url == p.base_url,
        completed(p, next_id).api_key == p.api_key,
        !blank_text(p.id) ==> completed(p, next_id).id == p.id,
        blank_text(p.id) ==> completed(p, next_id).id == "p-"@ + decimal(next_id as nat),
        !blank_text(p.name) ==> completed(p, next_id).name == p.name,
        blank_text(p.name) ==> completed(p, next_id).name == completed(p, next_id).id,
{
    lemma_blank(p.id);
    lemma_blank(p.name);
}

proof fn lemma_blank(s: Seq<char>)
    ensures
        trimmed(s).len() == 0 <==> blank_text(s),
{
    if blank_text(s) {
        lemma_trimmed_is_the_core(s, Seq::empty(), Seq::empty());
        assert(s + Seq::<char>::empty() + Seq::<char>::empty() =~= s);
    } else {
        lemma_trimmed_blank(s);
    }
}

/// A hub that is loaded without a file and without a key is empty; with a key it has the provider of
/// the environment, unless its file had one of that identity.
pub proof fn lemma_loaded_hub(
    path: Seq<char>,
    text: Option<Seq<char>>,
    key: Seq<char>,
    base_url: Option<Seq<char>>,
)
    ensures
        loaded_hub(path, None, None, base_url).providers.len() == 0,
        loaded_hub(path, None, None, base_url).active_provider is None,
        loaded_hub(path, text, Some(key), base_url).path == path,
        ({
            let without_key = loaded_hub(path, text, None, base_url);
            let with_key = loaded_hub(path, text, Some(key), base_url);
            &&& known::<ProviderConfig>(without_key.providers, "deepseek"@) ==> with_key
                == without_key
            &&& !known::<ProviderConfig>(without_key.providers, "deepseek"@) ==> (found::<
                ProviderConfig,
            >(with_key.providers, "deepseek"@) matches Some(p) && p.api_key == key && (
            base_url matches Some(b) ==> p.base_url == b))
            &&& with_key.active_provider == without_key.active_provider
            &&& with_key.active_model == without_key.active_model
            &&& with_key.models == without_key.models
        }),
{
    reveal_strlit("deepseek");
    reveal_strlit("DeepSeek");
    let h = loaded_hub(path, text, None, base_url);
    let p = env_provider(key, base_url);
    assert("deepseek"@[0] == 'd');
    assert("DeepSeek"@[0] == 'D');
    lemma_blank(p.id);
    lemma_blank(p.name);
    assert(!blank_text(p.id)) by {
        assert(!crate::text::whitespace(p.id[0]));
    }
    assert(!blank_text(p.name)) by {
        assert(!crate::text::whitespace(p.name[0]));
    }
    crate::providers::hub::lemma_added_provider_is_found(h, p, p.id);
}

/// What is in use is what was chosen, and both are known: the provider among the providers, the model
/// among that provider's models. Where nothing was chosen nothing is in use.
pub proof fn lemma_in_use_was_chosen(h: HubView)
    ensures
        h.active_provider is None || h.active_model is None ==> in_use(h) is None,
        in_use(h) matches Some((p, m)) ==> {
            &&& h.active_provider == Some(p.id)
            &&& h.active_model == Some(m.id)
            &&& h.providers.contains(p)
            &&& models_of(h, p.id).contains(m)
        },
{
    match (h.active_provider, h.active_model) {
        (Some(p), Some(m)) => {
            crate::keyed::lemma_found_carries_its_name::<ProviderConfig>(h.providers, p);
            crate::keyed::lemma_found_carries_its_name::<ModelInfo>(models_of(h, p), m);
            if in_use(h) is Some {
                let a = crate::keyed::index_of::<ProviderConfig>(h.providers, p);
                assert(h.providers[a] == (in_use(h)->0).0);
                let b = crate::keyed::index_of::<ModelInfo>(models_of(h, p), m);
                assert(models_of(h, p)[b] == (in_use(h)->0).1);
            }
        },
        _ => {},
    }
}

/// Taking away another provider leaves what is in use.
pub proof fn lemma_others_stay_in_use(h: HubView, id: Seq<char>)
    requires
        h.active_provider != Some(id),
    ensures
        in_use(without_provider(h, id)) == in_use(h),
{
    match h.active_provider {
        Some(p) => {
            crate::providers::hub::lemma_removed_provider_is_gone(h, id, p);
        },
        None => {},
    }
}

/// A stored hub has a member for each of its parts, and every provider is stored with its identity,
/// its name, its address and its key, in order. A hub of which nothing is stored is empty.
pub proof fn lemma_hub_members(f: HubFileView)
    ensures
        ({
            let t = hub_tree(f);
            &&& t.list_at("providers"@) matches Some(list) && list.len() == f.providers.len() && (
            forall|i: int|
                0 <= i < list.len() ==> (#[trigger] list[i]).text_at("id"@) == Some(
                    f.providers[i].id,
                ) && list[i].text_at("name"@) == Some(f.providers[i].name) && list[i].text_at(
                    "base_url"@,
                ) == Some(f.providers[i].base_url) && list[i].text_at("api_key"@) == Some(
                    f.providers[i].api_key,
                ))
            &&& t.text_at("active_provider"@) == f.active_provider
            &&& t.text_at("active_model"@) == f.active_model
            &&& t.at("models"@) is Some
        }),
        hub_from(Tree::Object(Map::empty())) == Some(empty_file()),
        empty_file().providers.len() == 0,
        empty_file().active_provider is None,
        empty_file().active_model is None,
{
    reveal_strlit("providers");
    reveal_strlit("models");
    reveal_strlit("active_provider");
    reveal_strlit("active_model");
    reveal_strlit("id");
    reveal_strlit("name");
    reveal_strlit("base_url");
    reveal_strlit("api_key");
    assert("providers"@.len() == 9 && "models"@.len() == 6 && "active_provider"@.len() == 15
        && "active_model"@.len() == 12 && "id"@.len() == 2 && "name"@.len() == 4 && "base_url"@.len()
        == 8 && "api_key"@.len() == 7);
    let list = hub_tree(f).list_at("providers"@)->0;
    assert forall|i: int| 0 <= i < list.len() implies (#[trigger] list[i]).text_at("id"@) == Some(
        f.providers[i].id,
    ) && list[i].text_at("name"@) == Some(f.providers[i].name) && list[i].text_at("base_url"@)
        == Some(f.providers[i].base_url) && list[i].text_at("api_key"@) == Some(
        f.providers[i].api_key,
    ) by {
        assert(list[i] == ProviderConfig::tree(f.providers[i]));
    }
}

} // verus!
