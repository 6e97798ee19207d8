//! Laws of the list of models.

use serde_json::Value;
use vstd::prelude::*;

#[allow(unused_imports)]
use crate::clock::now;
#[allow(unused_imports)]
use crate::config::Config;
#[allow(unused_imports)]
use crate::json::{document, member, Json, JsonNumber};
#[allow(unused_imports)]
use crate::laws::answer::has_names;
#[allow(unused_imports)]
use crate::proxy::models::{handle_models, is_listed, list_models, model_entry, model_list};
#[allow(unused_imports)]
use crate::text::texts;

verus! {

/// Whether a document lists these models, each under its own name and dated as
/// given, in order, and nothing else.
pub open spec fn lists(json: Json, models: Seq<String>, created: Seq<u64>) -> bool {
    &&& has_names(json, set!["object"@, "data"@])
    &&& member(json, "object"@) == Some(Json::Text("list"@))
    &&& member(json, "data"@) matches Some(Json::Array(entries))
    &&& entries.len() == models.len()
    &&& forall|i: int|
        0 <= i < models.len() ==> {
            &&& has_names(#[trigger] entries[i], set!["id"@, "object"@, "created"@, "owned_by"@])
            &&& member(entries[i], "id"@) == Some(Json::Text(models[i]@))
            &&& member(entries[i], "object"@) == Some(Json::Text("model"@))
            &&& member(entries[i], "created"@) == Some(Json::Number(JsonNumber::Integer(created[i] as int)))
            &&& member(entries[i], "owned_by"@) == Some(Json::Text("llm-proxy"@))
        }
}

proof fn lemma_model_list(models: Seq<String>, created: Seq<u64>)
    requires
        created.len() == models.len(),
    ensures
        lists(model_list(texts(models), created), models, created),
{
    reveal_strlit("id");
    reveal_strlit("object");
    reveal_strlit("created");
    reveal_strlit("owned_by");
    reveal_strlit("data");
    assert("id"@.len() == 2 && "object"@.len() == 6 && "created"@.len() == 7 && "owned_by"@.len() == 8);
    assert("data"@.len() == 4);
    let json = model_list(texts(models), created);
    assert(has_names(json, set!["object"@, "data"@]));
    let entries = member(json, "data"@)->Some_0->Array_0;
    assert(entries.len() == texts(models).len());
    assert forall|i: int| 0 <= i < models.len() implies {
        &&& has_names(#[trigger] entries[i], set!["id"@, "object"@, "created"@, "owned_by"@])
        &&& member(entries[i], "id"@) == Some(Json::Text(models[i]@))
        &&& member(entries[i], "object"@) == Some(Json::Text("model"@))
        &&& member(entries[i], "created"@) == Some(Json::Number(JsonNumber::Integer(created[i] as int)))
        &&& member(entries[i], "owned_by"@) == Some(Json::Text("llm-proxy"@))
    } by {
        assert(entries[i] == model_entry(texts(models)[i], created[i]));
        assert(texts(models)[i] == models[i]@);
    }
}

/// The models are listed as given.
pub proof fn lemma_models_listed(models: &Vec<String>, created: &Vec<u64>, list: Value)
    requires
        created@.len() == models@.len(),
        call_ensures(list_models, (models, created), list),
    ensures
        lists(document(list), models@, created@),
{
    lemma_model_list(models@, created@);
}

/// The allowed models are listed, all of them and in order, each dated at a time
/// that the clock can show.
pub proof fn lemma_allowed_models_listed(config: &Config, list: Value)
    requires
        call_ensures(handle_models, (config,), list),
    ensures
        exists|created: Seq<u64>|
            {
                &&& created.len() == config.allowed_models@.len()
                &&& forall|i: int| 0 <= i < created.len() ==> call_ensures(now, (), #[trigger] created[i])
                &&& #[trigger] lists(document(list), config.allowed_models@, created)
            },
{
    let created = choose|created: Seq<u64>|
        {
            &&& created.len() == config.allowed_models@.len()
            &&& forall|i: int| 0 <= i < created.len() ==> call_ensures(now, (), #[trigger] created[i])
            &&& document(list) == #[trigger] model_list(texts(config.allowed_models@), created)
        };
    lemma_model_list(config.allowed_models@, created);
}

/// A model is listed if and only if it is one of those given.
pub proof fn lemma_listed(json: Json, models: Seq<String>, created: Seq<u64>, model: Seq<char>)
    requires
        lists(json, models, created),
    ensures
        is_listed(json, model) <==> exists|i: int| 0 <= i < models.len() && (#[trigger] models[i])@ == model,
{
    let entries = member(json, "data"@)->Some_0->Array_0;
    if is_listed(json, model) {
        let i = choose|i: int| 0 <= i < entries.len() && member(#[trigger] entries[i], "id"@) == Some(Json::Text(model));
        assert(models[i]@ == model);
    }
    if exists|i: int| 0 <= i < models.len() && (#[trigger] models[i])@ == model {
        let i = choose|i: int| 0 <= i < models.len() && (#[trigger] models[i])@ == model;
        assert(member(entries[i], "id"@) == Some(Json::Text(model)));
    }
}

} // verus!
