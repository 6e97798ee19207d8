//! Laws of what a client's request becomes.

use axum::http::{HeaderMap, HeaderValue};
use serde_json::Value;
use vstd::prelude::*;
#[allow(unused_imports)]
use vstd::utf8::encode_utf8;

#[allow(unused_imports)]
use crate::config::Config;
#[allow(unused_imports)]
use crate::error::proxy::ProxyError;
#[allow(unused_imports)]
use crate::headers::{all_visible, ascii_text, header_fields, lower_case};
#[allow(unused_imports)]
use crate::json::{document, member, Json};
#[allow(unused_imports)]
use crate::proxy::request::{
    build_upstream_body, credential, forwarded_names, is_bearer, model_allowed, prepare_chat_completion,
    requested_model, upstream_fields, UpstreamRequest,
};
#[allow(unused_imports)]
use crate::text::texts;

verus! {

/// Whether a member of a request reaches the upstream as it stands.
pub open spec fn passes_unchanged(name: Seq<char>) -> bool {
    ||| name == "temperature"@
    ||| name == "max_tokens"@
    ||| name == "top_p"@
    ||| name == "frequency_penalty"@
    ||| name == "presence_penalty"@
    ||| name == "stop"@
}

/// Whether a member is in every body that goes upstream.
pub open spec fn is_always_sent(name: Seq<char>) -> bool {
    ||| name == "model"@
    ||| name == "messages"@
    ||| name == "stream"@
    ||| name == "enable_thinking"@
}

proof fn lemma_member_names()
    ensures
        forall|name: Seq<char>| #[trigger] forwarded_names().contains(name) <==> passes_unchanged(name),
        forall|name: Seq<char>| #[trigger] passes_unchanged(name) ==> !is_always_sent(name),
        "model"@ != "messages"@,
        "model"@ != "stream"@,
        "model"@ != "enable_thinking"@,
        "messages"@ != "stream"@,
        "messages"@ != "enable_thinking"@,
        "stream"@ != "enable_thinking"@,
{
    reveal_strlit("temperature");
    reveal_strlit("max_tokens");
    reveal_strlit("top_p");
    reveal_strlit("frequency_penalty");
    reveal_strlit("presence_penalty");
    reveal_strlit("stop");
    reveal_strlit("model");
    reveal_strlit("messages");
    reveal_strlit("stream");
    reveal_strlit("enable_thinking");
    assert("temperature"@.len() == 11 && "max_tokens"@.len() == 10 && "top_p"@.len() == 5);
    assert("frequency_penalty"@.len() == 17 && "presence_penalty"@.len() == 16 && "stop"@.len() == 4);
    assert("model"@.len() == 5 && "messages"@.len() == 8);
    assert("stream"@.len() == 6 && "enable_thinking"@.len() == 15);
    assert("model"@[0] == 'm' && "top_p"@[0] == 't');
    let names = forwarded_names();
    assert(names[0] == "temperature"@ && names[1] == "max_tokens"@ && names[2] == "top_p"@);
    assert(names[3] == "frequency_penalty"@ && names[4] == "presence_penalty"@ && names[5] == "stop"@);
}

/// The messages that a client gave go upstream as they are, whatever else its
/// request holds; an empty list stands for them only where it gave none.
pub proof fn lemma_messages_unchanged(fields: Map<Seq<char>, Json>, model: Seq<char>)
    ensures
        upstream_fields(fields, model).contains_key("messages"@),
        fields.contains_key("messages"@) ==> upstream_fields(fields, model)["messages"@] == fields["messages"@],
        !fields.contains_key("messages"@) ==> upstream_fields(fields, model)["messages"@] == Json::Array(seq![]),
{
    lemma_member_names();
}

/// Of the parameters, each is upstream with the value that the client gave, and
/// is missing where the client gave none.
pub proof fn lemma_parameter_unchanged(fields: Map<Seq<char>, Json>, model: Seq<char>, name: Seq<char>)
    requires
        passes_unchanged(name),
    ensures
        member(Json::Object(upstream_fields(fields, model)), name) == member(Json::Object(fields), name),
{
    lemma_member_names();
    assert(forwarded_names().contains(name));
    assert(forwarded_names().to_set().contains(name));
}

/// A body that goes upstream has no member but the parameters and those that
/// every such body has.
pub proof fn lemma_no_other_member(fields: Map<Seq<char>, Json>, model: Seq<char>, name: Seq<char>)
    requires
        !passes_unchanged(name),
        !is_always_sent(name),
    ensures
        !upstream_fields(fields, model).contains_key(name),
{
    lemma_member_names();
    assert(!forwarded_names().contains(name));
}

/// What the body made for the upstream holds, member by member: the model, the
/// client's messages, streaming on, thinking off, the client's parameters, and
/// nothing else.
pub proof fn lemma_upstream_body(body: Value, model: &str, upstream: Value, name: Seq<char>)
    requires
        document(body) is Object,
        call_ensures(build_upstream_body, (body, model), upstream),
    ensures
        document(upstream) is Object,
        member(document(upstream), "model"@) == Some(Json::Text(model@)),
        member(document(upstream), "stream"@) == Some(Json::Bool(true)),
        member(document(upstream), "enable_thinking"@) == Some(Json::Bool(false)),
        member(document(body), "messages"@) is Some ==> member(document(upstream), "messages"@) == member(
            document(body),
            "messages"@,
        ),
        member(document(body), "messages"@) is None ==> member(document(upstream), "messages"@) == Some(
            Json::Array(seq![]),
        ),
        passes_unchanged(name) ==> member(document(upstream), name) == member(document(body), name),
        !passes_unchanged(name) && !is_always_sent(name) ==> member(document(upstream), name) is None,
{
    let fields = document(body)->Object_0;
    lemma_member_names();
    lemma_messages_unchanged(fields, model@);
    if passes_unchanged(name) {
        lemma_parameter_unchanged(fields, model@, name);
    } else if !is_always_sent(name) {
        lemma_no_other_member(fields, model@, name);
    }
}

/// Two requests for one model get the same body upstream only if they agree on
/// the messages and on every parameter.
pub proof fn lemma_bodies_tell_requests_apart(
    one: Map<Seq<char>, Json>,
    other: Map<Seq<char>, Json>,
    model: Seq<char>,
    name: Seq<char>,
)
    requires
        upstream_fields(one, model) == upstream_fields(other, model),
    ensures
        passes_unchanged(name) ==> member(Json::Object(one), name) == member(Json::Object(other), name),
        one.contains_key("messages"@) && other.contains_key("messages"@) ==> one["messages"@] == other["messages"@],
{
    lemma_messages_unchanged(one, model);
    lemma_messages_unchanged(other, model);
    if passes_unchanged(name) {
        lemma_parameter_unchanged(one, model, name);
        lemma_parameter_unchanged(other, model, name);
    }
}

/// A token of eight characters or more makes a credential, however long it is
/// and whatever its characters are.
pub proof fn lemma_token_accepted(token: Seq<char>)
    requires
        token.len() >= 8,
    ensures
        is_bearer("Bearer "@ + token),
{
    reveal_strlit("Bearer ");
    assert("Bearer "@.is_prefix_of("Bearer "@ + token));
}

/// A token of fewer than eight characters makes none.
pub proof fn lemma_short_token_refused(token: Seq<char>)
    requires
        token.len() < 8,
    ensures
        !is_bearer("Bearer "@ + token),
{
    reveal_strlit("Bearer ");
}

/// What does not start with the word `Bearer` and a space is no credential.
pub proof fn lemma_other_scheme_refused(given: Seq<char>)
    requires
        given.len() < 7 || given.take(7) != seq!['B', 'e', 'a', 'r', 'e', 'r', ' '],
    ensures
        !is_bearer(given),
{
    reveal_strlit("Bearer ");
    if is_bearer(given) {
        assert(given.take(7) =~= seq!['B', 'e', 'a', 'r', 'e', 'r', ' ']);
    }
}

/// The names of the header fields in lower case.
pub proof fn lemma_names_in_lower_case()
    ensures
        lower_case("Authorization"@) == "authorization"@,
        lower_case("Content-Type"@) == "content-type"@,
        "authorization"@ != "content-type"@,
{
    reveal_strlit("Authorization");
    reveal_strlit("authorization");
    reveal_strlit("Content-Type");
    reveal_strlit("content-type");
    assert(lower_case("Authorization"@) =~= "authorization"@);
    assert(lower_case("Content-Type"@) =~= "content-type"@);
    assert("authorization"@.len() == 13 && "content-type"@.len() == 12);
}

/// Whether header fields carry the token: the first field `authorization` holds
/// the ASCII characters of the word `Bearer`, a space and the token.
pub open spec fn carries_token(held: Map<Seq<char>, Seq<Seq<u8>>>, token: Seq<char>) -> bool {
    &&& held.contains_key("authorization"@)
    &&& held["authorization"@][0].len() == 7 + token.len()
    &&& forall|i: int|
        0 <= i < 7 + token.len() ==> {
            &&& #[trigger] held["authorization"@][0][i] as char == (if i < 7 { "Bearer "@[i] } else { token[i - 7] })
            &&& 32 <= held["authorization"@][0][i] < 127 || held["authorization"@][0][i] == 9
        }
}

/// The credential of fields that carry a token is the token behind `Bearer`.
pub proof fn lemma_carried_credential(held: Map<Seq<char>, Seq<Seq<u8>>>, token: Seq<char>)
    requires
        carries_token(held, token),
    ensures
        credential(held) == "Bearer "@ + token,
{
    lemma_names_in_lower_case();
    reveal_strlit("Bearer ");
    let bytes = held["authorization"@][0];
    assert(all_visible(bytes));
    assert(ascii_text(bytes) =~= "Bearer "@ + token);
}

/// Fields that carry no token of eight characters or more give no bearer
/// credential.
pub proof fn lemma_bearer_is_carried(held: Map<Seq<char>, Seq<Seq<u8>>>)
    requires
        is_bearer(credential(held)),
    ensures
        carries_token(held, credential(held).skip(7)),
        credential(held).len() >= 15,
{
    lemma_names_in_lower_case();
    reveal_strlit("Bearer ");
    let bytes = held["authorization"@][0];
    let token = credential(held).skip(7);
    assert(held.contains_key("authorization"@));
    assert(all_visible(bytes));
    assert(credential(held) == ascii_text(bytes));
    assert forall|i: int| 0 <= i < 7 + token.len() implies {
        &&& #[trigger] held["authorization"@][0][i] as char == (if i < 7 { "Bearer "@[i] } else { token[i - 7] })
        &&& 32 <= held["authorization"@][0][i] < 127 || held["authorization"@][0][i] == 9
    } by {
        assert(ascii_text(bytes)[i] == bytes[i] as char);
        assert(crate::headers::is_visible(bytes[i]));
        if i < 7 {
            assert(credential(held)[i] == "Bearer "@[i]);
        } else {
            assert(token[i - 7] == credential(held)[i]);
        }
    }
}

/// Whether one of the allowed models is the one that a request names.
pub open spec fn names_allowed_model(config: Config, body: Json) -> bool {
    exists|i: int|
        0 <= i < config.allowed_models@.len() && member(body, "model"@) == Some(
            Json::Text((#[trigger] config.allowed_models@[i])@),
        )
}

/// A request is for an allowed model if and only if its member `model` is the
/// name of one of them.
pub proof fn lemma_allowed_models(config: Config, body: Json)
    ensures
        model_allowed(config, body) <==> names_allowed_model(config, body),
{
    let names = texts(config.allowed_models@);
    if names_allowed_model(config, body) {
        let i = choose|i: int|
            0 <= i < config.allowed_models@.len() && member(body, "model"@) == Some(
                Json::Text((#[trigger] config.allowed_models@[i])@),
            );
        assert(names[i] == config.allowed_models@[i]@);
    }
    if model_allowed(config, body) {
        let model = requested_model(body)->Some_0;
        let i = names.index_of(model);
        assert(names[i] == config.allowed_models@[i]@);
    }
}

/// A request for an allowed model with a token of eight characters or more is
/// accepted, and no other request is.
pub proof fn lemma_who_is_accepted(
    config: &Config,
    headers: &HeaderMap<HeaderValue>,
    body: Value,
    decision: Result<UpstreamRequest, ProxyError>,
)
    requires
        call_ensures(prepare_chat_completion, (config, headers, body), decision),
    ensures
        decision is Ok <==> names_allowed_model(*config, document(body)) && exists|token: Seq<char>|
            token.len() >= 8 && #[trigger] carries_token(header_fields(*headers), token),
{
    let held = header_fields(*headers);
    lemma_allowed_models(*config, document(body));
    assert(decision is Ok <==> model_allowed(*config, document(body)) && is_bearer(credential(held)));
    assert forall|token: Seq<char>| token.len() >= 8 && #[trigger] carries_token(held, token) implies is_bearer(
        credential(held),
    ) by {
        lemma_carried_credential(held, token);
        lemma_token_accepted(token);
    }
    if is_bearer(credential(held)) {
        lemma_bearer_is_carried(held);
        let token = credential(held).skip(7);
        assert(token.len() >= 8 && carries_token(held, token));
    }
}

/// A request for a model that is not allowed is refused as such, with the name
/// that it gave and all the models that are allowed, whatever its credential;
/// one for an allowed model is refused only for its credential.
pub proof fn lemma_how_refused(
    config: &Config,
    headers: &HeaderMap<HeaderValue>,
    body: Value,
    decision: Result<UpstreamRequest, ProxyError>,
)
    requires
        call_ensures(prepare_chat_completion, (config, headers, body), decision),
    ensures
        !names_allowed_model(*config, document(body)) ==> {
            &&& decision matches Err(ProxyError::ModelNotAllowed { model, allowed })
            &&& member(document(body), "model"@) matches Some(Json::Text(named)) ==> model@ == named
            &&& !(member(document(body), "model"@) matches Some(Json::Text(_))) ==> model@ == "(missing)"@
            &&& allowed@.len() == config.allowed_models@.len()
            &&& forall|i: int| 0 <= i < allowed@.len() ==> (#[trigger] allowed@[i])@ == config.allowed_models@[i]@
        },
        names_allowed_model(*config, document(body)) && decision is Err ==> decision == Err::<UpstreamRequest, ProxyError>(
            ProxyError::Unauthorized,
        ),
{
    lemma_allowed_models(*config, document(body));
    if !names_allowed_model(*config, document(body)) {
        let allowed = decision->Err_0->allowed;
        assert(texts(allowed@).len() == texts(config.allowed_models@).len());
        assert forall|i: int| 0 <= i < allowed@.len() implies (#[trigger] allowed@[i])@ == config.allowed_models@[i]@ by {
            assert(texts(allowed@)[i] == texts(config.allowed_models@)[i]);
        }
    }
}

/// The request that goes upstream: to the configured endpoint with the
/// configured timeout, under the client's own credential, for the model that
/// was named, and with the client's messages and parameters.
pub proof fn lemma_what_is_sent(
    config: &Config,
    headers: &HeaderMap<HeaderValue>,
    body: Value,
    request: UpstreamRequest,
    name: Seq<char>,
)
    requires
        call_ensures(prepare_chat_completion, (config, headers, body), Ok(request)),
    ensures
        request.url@ == config.upstream@,
        request.timeout == config.timeout,
        member(document(body), "model"@) == Some(Json::Text(request.model@)),
        request.client_wants_stream <==> member(document(body), "stream"@) == Some(Json::Bool(true)),
        document(request.payload) is Object,
        member(document(request.payload), "model"@) == member(document(body), "model"@),
        member(document(request.payload), "stream"@) == Some(Json::Bool(true)),
        member(document(request.payload), "enable_thinking"@) == Some(Json::Bool(false)),
        member(document(body), "messages"@) is Some ==> member(document(request.payload), "messages"@) == member(
            document(body),
            "messages"@,
        ),
        member(document(body), "messages"@) is None ==> member(document(request.payload), "messages"@) == Some(
            Json::Array(seq![]),
        ),
        passes_unchanged(name) ==> member(document(request.payload), name) == member(document(body), name),
        !passes_unchanged(name) && !is_always_sent(name) ==> member(document(request.payload), name) is None,
        header_fields(request.headers).dom() =~= set!["authorization"@, "content-type"@],
        header_fields(request.headers)["content-type"@] == seq![encode_utf8("application/json"@)],
        header_fields(request.headers)["authorization"@] == seq![header_fields(*headers)["authorization"@][0]],
{
    let fields = document(body)->Object_0;
    lemma_member_names();
    lemma_messages_unchanged(fields, request.model@);
    if passes_unchanged(name) {
        lemma_parameter_unchanged(fields, request.model@, name);
    } else if !is_always_sent(name) {
        lemma_no_other_member(fields, request.model@, name);
    }
    lemma_names_in_lower_case();
    assert(document(body) is Object);
    assert(lower_case("Authorization"@) == "authorization"@);
}

} // verus!
