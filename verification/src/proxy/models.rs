//! The list of the models that the proxy accepts.

use serde_json::{Map as JsonMap, Value};
use vstd::prelude::*;

use crate::clock::now;
use crate::config::Config;
use crate::json::{array_value, integer_value, object_value, text_value};
#[allow(unused_imports)]
use crate::json::{document, documents, member, no_members, Json, JsonNumber};
#[allow(unused_imports)]
use crate::proxy::request::{model_allowed, requested_model};
#[allow(unused_imports)]
use crate::text::texts;

verus! {

/// The entry of a model in the list, dated `created`.
pub open spec fn model_entry(id: Seq<char>, created: u64) -> Json {
    Json::Object(
        no_members().insert("id"@, Json::Text(id)).insert("object"@, Json::Text("model"@)).insert(
            "created"@,
            Json::Number(JsonNumber::Integer(created as int)),
        ).insert("owned_by"@, Json::Text("llm-proxy"@)),
    )
}

/// The list of models: an entry for each, in order.
pub open spec fn model_list(ids: Seq<Seq<char>>, created: Seq<u64>) -> Json {
    Json::Object(
        no_members().insert("object"@, Json::Text("list"@)).insert(
            "data"@,
            Json::Array(Seq::new(ids.len(), |i: int| model_entry(ids[i], created[i]))),
        ),
    )
}

/// Whether a list of models has an entry for a model.
pub open spec fn is_listed(list: Json, model: Seq<char>) -> bool {
    &&& member(list, "data"@) matches Some(Json::Array(entries))
    &&& exists|i: int| 0 <= i < entries.len() && member(#[trigger] entries[i], "id"@) == Some(Json::Text(model))
}

/// The list shows what the proxy accepts: a request is for an allowed model if
/// and only if the model that it names is listed.
pub proof fn lemma_listed_iff_allowed(config: Config, created: Seq<u64>, body: Json, model: Seq<char>)
    requires
        created.len() == config.allowed_models@.len(),
        requested_model(body) == Some(model),
    ensures
        model_allowed(config, body) <==> is_listed(model_list(texts(config.allowed_models@), created), model),
{
    reveal_strlit("id");
    reveal_strlit("object");
    reveal_strlit("created");
    reveal_strlit("owned_by");
    reveal_strlit("data");
    assert("id"@.len() == 2 && "object"@.len() == 6 && "created"@.len() == 7 && "owned_by"@.len() == 8);
    let ids = texts(config.allowed_models@);
    let list = model_list(ids, created);
    let entries = member(list, "data"@)->Some_0->Array_0;
    assert forall|i: int| 0 <= i < entries.len() implies member(#[trigger] entries[i], "id"@) == Some(
        Json::Text(ids[i]),
    ) by {
        assert(entries[i] == model_entry(ids[i], created[i]));
    }
    if ids.contains(model) {
        let i = ids.index_of(model);
        assert(member(entries[i], "id"@) == Some(Json::Text(model)));
    }
}

/// Lists the models, each dated as given.
pub fn list_models(models: &Vec<String>, created: &Vec<u64>) -> (list: Value)
    requires
        created@.len() == models@.len(),
    ensures
        document(list) == model_list(texts(models@), created@),
{
    let mut data: Vec<Value> = Vec::new();
    let mut i: usize = 0;
    while i < models.len()
        invariant
            i <= models.len(),
            created@.len() == models@.len(),
            documents(data@) == Seq::new(i as nat, |j: int| model_entry(texts(models@)[j], created@[j])),
        decreases models.len() - i,
    {
        let mut entry: JsonMap<String, Value> = JsonMap::new();
        entry.insert("id".to_owned(), text_value(models[i].clone()));
        entry.insert("object".to_owned(), text_value("model".to_owned()));
        entry.insert("created".to_owned(), integer_value(created[i]));
        entry.insert("owned_by".to_owned(), text_value("llm-proxy".to_owned()));
        let ghost earlier = documents(data@);
        data.push(object_value(entry));
        proof {
            assert(documents(data@) =~= earlier.push(model_entry(texts(models@)[i as int], created@[i as int])));
        }
        i = i + 1;
    }
    let mut list: JsonMap<String, Value> = JsonMap::new();
    list.insert("object".to_owned(), text_value("list".to_owned()));
    list.insert("data".to_owned(), array_value(data));
    object_value(list)
}

/// Lists the models that are allowed, each dated at the moment it is listed.
pub fn handle_models(config: &Config) -> (list: Value)
    ensures
        exists|created: Seq<u64>|
            {
                &&& created.len() == config.allowed_models@.len()
                &&& forall|i: int| 0 <= i < created.len() ==> call_ensures(now, (), #[trigger] created[i])
                &&& document(list) == #[trigger] model_list(texts(config.allowed_models@), created)
            },
{
    let mut created: Vec<u64> = Vec::new();
    while created.len() < config.allowed_models.len()
        invariant
            created@.len() <= config.allowed_models@.len(),
            forall|i: int| 0 <= i < created@.len() ==> call_ensures(now, (), #[trigger] created@[i]),
        decreases config.allowed_models@.len() - created@.len(),
    {
        created.push(now());
    }
    list_models(&config.allowed_models, &created)
}

} // verus!
