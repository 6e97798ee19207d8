//! From a client's request to the request that goes upstream.

use axum::http::{HeaderMap, HeaderValue};
use serde_json::{Map as JsonMap, Value};
use vstd::prelude::*;
#[allow(unused_imports)]
use vstd::utf8::{encode_utf8, is_ascii_chars_encode_utf8};

use crate::config::Config;
use crate::error::proxy::ProxyError;
#[allow(unused_imports)]
use crate::headers::{
    all_visible, ascii_text, first_value, header_fields, is_plain_name, is_visible, lower_case, no_fields, value_bytes,
};
use crate::headers::{get_header, insert_header};
use crate::json::{array_value, bool_value, get_member, object_value, remove_member, text_value};
#[allow(unused_imports)]
use crate::json::{document, documents, member, members, Json};
use crate::text::{after_prefix, contains};
#[allow(unused_imports)]
use crate::text::texts;

verus! {

/// The optional parameters that are passed on as the client gave them.
pub open spec fn forwarded_names() -> Seq<Seq<char>> {
    seq![
        "temperature"@,
        "max_tokens"@,
        "top_p"@,
        "frequency_penalty"@,
        "presence_penalty"@,
        "stop"@,
    ]
}

/// The messages of a request with the members `fields`: none where the client
/// gave none.
pub open spec fn request_messages(fields: Map<Seq<char>, Json>) -> Json {
    if fields.contains_key("messages"@) {
        fields["messages"@]
    } else {
        Json::Array(seq![])
    }
}

/// The members of the body that goes upstream for a request with the members
/// `fields`: the forwarded parameters that the client gave, the messages, the
/// model, and streaming forced on and thinking forced off.
pub open spec fn upstream_fields(fields: Map<Seq<char>, Json>, model: Seq<char>) -> Map<Seq<char>, Json> {
    fields.restrict(forwarded_names().to_set())
        .insert("model"@, Json::Text(model))
        .insert("messages"@, request_messages(fields))
        .insert("stream"@, Json::Bool(true))
        .insert("enable_thinking"@, Json::Bool(false))
}

proof fn lemma_names_distinct()
    ensures
        !forwarded_names().contains("model"@),
        !forwarded_names().contains("messages"@),
        !forwarded_names().contains("stream"@),
        !forwarded_names().contains("enable_thinking"@),
        "model"@ != "messages"@,
        "model"@ != "stream"@,
        "model"@ != "enable_thinking"@,
        "messages"@ != "stream"@,
        "messages"@ != "enable_thinking"@,
        "stream"@ != "enable_thinking"@,
        forwarded_names().no_duplicates(),
{
    reveal_strlit("temperature");
    reveal_strlit("max_tokens");
    reveal_strlit("top_p");
    reveal_strlit("frequency_penalty");
    reveal_strlit("presence_penalty");
    reveal_strlit("stop");
    reveal_strlit("model");
    reveal_strlit("messages");
    reveal_strlit("stream");
    reveal_strlit("enable_thinking");
    assert("temperature"@.len() == 11 && "max_tokens"@.len() == 10 && "top_p"@.len() == 5);
    assert("frequency_penalty"@.len() == 17 && "presence_penalty"@.len() == 16 && "stop"@.len() == 4);
    assert("model"@.len() == 5 && "messages"@.len() == 8);
    assert("stream"@.len() == 6 && "enable_thinking"@.len() == 15);
    assert("model"@[0] == 'm' && "top_p"@[0] == 't');
}

/// One more name at the end of a prefix of the forwarded names.
proof fn lemma_forwarded_prefix(i: int)
    requires
        0 <= i < forwarded_names().len(),
    ensures
        !forwarded_names().take(i).contains(forwarded_names()[i]),
        forall|name: Seq<char>| #[trigger] forwarded_names().take(i + 1).contains(name) <==> forwarded_names().take(
            i,
        ).contains(name) || name == forwarded_names()[i],
{
    lemma_names_distinct();
    let names = forwarded_names();
    assert(names.take(i + 1) == names.take(i).push(names[i]));
    assert forall|name: Seq<char>| names.take(i).contains(name) || name == names[i] implies #[trigger] names.take(
        i + 1,
    ).contains(name) by {
        if names.take(i).contains(name) {
            let k = names.take(i).index_of(name);
            assert(names.take(i + 1)[k] == name);
        } else {
            assert(names.take(i + 1)[i] == name);
        }
    }
}

/// The body to send upstream for the request `body`: streaming on and thinking
/// off whatever the client asked for, and of the rest only what is forwarded.
pub fn build_upstream_body(body: Value, model: &str) -> (upstream: Value)
    requires
        document(body) is Object,
    ensures
        document(upstream) == Json::Object(upstream_fields(document(body)->Object_0, model@)),
{
    let mut body = body;
    let ghost fields = document(body)->Object_0;
    let mut upstream: JsonMap<String, Value> = JsonMap::new();
    if let Some(given) = body.as_object_mut() {
        let messages = match remove_member(given, "messages") {
            Some(messages) => messages,
            None => array_value(Vec::new()),
        };
        proof {
            assert(documents(Seq::empty()) =~= seq![]);
        }
        upstream.insert("model".to_owned(), text_value(model.to_owned()));
        upstream.insert("messages".to_owned(), messages);
        upstream.insert("stream".to_owned(), bool_value(true));
        upstream.insert("enable_thinking".to_owned(), bool_value(false));
        let names: [&str; 6] = [
            "temperature",
            "max_tokens",
            "top_p",
            "frequency_penalty",
            "presence_penalty",
            "stop",
        ];
        let ghost forced = members(upstream);
        proof {
            lemma_names_distinct();
            assert(names@.map_values(|name: &str| name@) == forwarded_names());
        }
        let mut i: usize = 0;
        while i < 6
            invariant
                0 <= i <= 6,
                names@.map_values(|name: &str| name@) == forwarded_names(),
                forall|name: Seq<char>| #[trigger] members(*given).contains_key(name) <==> fields.contains_key(name)
                    && name != "messages"@ && !forwarded_names().take(i as int).contains(name),
                forall|name: Seq<char>| #[trigger] members(*given).contains_key(name) ==> members(*given)[name] == fields[name],
                members(upstream) == forced.union_prefer_right(fields.restrict(forwarded_names().take(i as int).to_set())),
            decreases 6 - i,
        {
            proof {
                lemma_names_distinct();
                lemma_forwarded_prefix(i as int);
                assert(names@.map_values(|name: &str| name@)[i as int] == names[i as int]@);
                assert(forwarded_names().contains(names[i as int]@));
            }
            if let Some(value) = remove_member(given, names[i]) {
                upstream.insert(names[i].to_owned(), value);
            }
            i = i + 1;
            proof {
                let taken = forwarded_names().take(i as int);
                assert(members(upstream) =~= forced.union_prefer_right(fields.restrict(taken.to_set())));
            }
        }
        proof {
            lemma_names_distinct();
            assert(forwarded_names().take(6) == forwarded_names());
            assert(members(upstream) =~= upstream_fields(fields, model@));
        }
    }
    object_value(upstream)
}

/// Whatever the client asked for, the body that goes upstream has streaming on
/// and thinking off.
pub proof fn lemma_stream_on_thinking_off(fields: Map<Seq<char>, Json>, model: Seq<char>)
    ensures
        upstream_fields(fields, model).contains_pair("stream"@, Json::Bool(true)),
        upstream_fields(fields, model).contains_pair("enable_thinking"@, Json::Bool(false)),
{
    lemma_names_distinct();
}

/// The optional parameters are forwarded unchanged: each is upstream exactly
/// where the client gave it, with the value that the client gave.
pub proof fn lemma_parameters_unchanged(fields: Map<Seq<char>, Json>, model: Seq<char>, name: Seq<char>)
    requires
        forwarded_names().contains(name),
    ensures
        upstream_fields(fields, model).contains_key(name) == fields.contains_key(name),
        fields.contains_key(name) ==> upstream_fields(fields, model)[name] == fields[name],
{
    lemma_names_distinct();
}

/// Nothing else of the request reaches the upstream: of two requests that agree
/// on the messages and on the optional parameters, the same body is made.
pub proof fn lemma_nothing_else_forwarded(
    fields: Map<Seq<char>, Json>,
    other: Map<Seq<char>, Json>,
    model: Seq<char>,
)
    requires
        forall|name: Seq<char>|
            name == "messages"@ || #[trigger] forwarded_names().contains(name) ==> fields.contains_key(name)
                == other.contains_key(name) && (fields.contains_key(name) ==> fields[name] == other[name]),
    ensures
        upstream_fields(fields, model) == upstream_fields(other, model),
{
    let forwarded = forwarded_names().to_set();
    assert(!forwarded_names().contains("messages"@)) by {
        lemma_names_distinct();
    }
    assert(fields.restrict(forwarded) =~= other.restrict(forwarded));
}

/// A body that was made for the upstream is made into itself again.
pub proof fn lemma_rewriting_settles(fields: Map<Seq<char>, Json>, model: Seq<char>)
    ensures
        upstream_fields(upstream_fields(fields, model), model) == upstream_fields(fields, model),
{
    lemma_names_distinct();
    let once = upstream_fields(fields, model);
    assert(upstream_fields(once, model) =~= once);
}

/// The model that a request names; `None` where it names none, or not as a
/// string.
pub open spec fn requested_model(body: Json) -> Option<Seq<char>> {
    match member(body, "model"@) {
        Some(Json::Text(model)) => Some(model),
        _ => None,
    }
}

/// Whether a request asks for a stream: only by `true` itself.
pub open spec fn wants_stream(body: Json) -> bool {
    member(body, "stream"@) == Some(Json::Bool(true))
}

/// The text of the first `Authorization` field; empty where there is none, or
/// where it cannot be read as text.
pub open spec fn credential(held: Map<Seq<char>, Seq<Seq<u8>>>) -> Seq<char> {
    match first_value(held, "Authorization"@) {
        Some(bytes) => if all_visible(bytes) { ascii_text(bytes) } else { seq![] },
        None => seq![],
    }
}

/// Whether a credential is a bearer token of a plausible length.
pub open spec fn is_bearer(credential: Seq<char>) -> bool {
    "Bearer "@.is_prefix_of(credential) && credential.len() >= 15
}

/// Whether the request is for an allowed model.
pub open spec fn model_allowed(config: Config, body: Json) -> bool {
    requested_model(body) matches Some(model) && texts(config.allowed_models@).contains(model)
}

/// The header fields of the request that goes upstream: the type of its body,
/// and the credential.
pub open spec fn upstream_headers(token: Seq<u8>) -> Map<Seq<char>, Seq<Seq<u8>>> {
    no_fields().insert(lower_case("Content-Type"@), seq![encode_utf8("application/json"@)]).insert(
        lower_case("Authorization"@),
        seq![token],
    )
}

/// A request to send upstream.
pub struct UpstreamRequest {
    /// The endpoint.
    pub url: String,
    /// The header fields.
    pub headers: HeaderMap<HeaderValue>,
    /// The body.
    pub payload: Value,
    /// The time, in seconds, after which the request is given up.
    pub timeout: u64,
    /// The model that was asked for.
    pub model: String,
    /// Whether the client wants the answer as a stream.
    pub client_wants_stream: bool,
}

proof fn lemma_header_names()
    ensures
        is_plain_name("Authorization"@),
        is_plain_name("Content-Type"@),
        all_visible(encode_utf8("application/json"@)),
{
    reveal_strlit("Authorization");
    reveal_strlit("Content-Type");
    reveal_strlit("application/json");
    is_ascii_chars_encode_utf8("application/json"@);
}

/// Text that was read from visible bytes is encoded by the same bytes.
proof fn lemma_ascii_round_trip(bytes: Seq<u8>)
    requires
        all_visible(bytes),
    ensures
        encode_utf8(ascii_text(bytes)) == bytes,
{
    let chars = ascii_text(bytes);
    assert forall|i: int| 0 <= i < chars.len() implies (#[trigger] chars[i] as nat) < 128 by {
        assert(is_visible(bytes[i]));
    }
    is_ascii_chars_encode_utf8(chars);
    assert forall|i: int| 0 <= i < bytes.len() implies #[trigger] encode_utf8(chars)[i] == bytes[i] by {
        assert(is_visible(bytes[i]));
    }
    assert(encode_utf8(chars) =~= bytes);
}

/// Decides on a chat completion request: refused if its model is not allowed,
/// refused if its credential is not a bearer token, and otherwise the request
/// to send upstream for it.
pub fn prepare_chat_completion(config: &Config, headers: &HeaderMap<HeaderValue>, body: Value) -> (decision: Result<
    UpstreamRequest,
    ProxyError,
>)
    ensures
        match decision {
            Err(ProxyError::ModelNotAllowed { model, allowed }) => {
                &&& !model_allowed(*config, document(body))
                &&& model@ == (match requested_model(document(body)) {
                    Some(model) => model,
                    None => "(missing)"@,
                })
                &&& texts(allowed@) == texts(config.allowed_models@)
            },
            Err(ProxyError::Unauthorized) => {
                &&& model_allowed(*config, document(body))
                &&& !is_bearer(credential(header_fields(*headers)))
            },
            Err(_) => false,
            Ok(request) => {
                &&& model_allowed(*config, document(body))
                &&& is_bearer(credential(header_fields(*headers)))
                &&& request.url@ == config.upstream@
                &&& request.timeout == config.timeout
                &&& Some(request.model@) == requested_model(document(body))
                &&& request.client_wants_stream == wants_stream(document(body))
                &&& document(request.payload) == Json::Object(
                    upstream_fields(document(body)->Object_0, request.model@),
                )
                &&& first_value(header_fields(*headers), "Authorization"@) matches Some(token) && header_fields(request.headers)
                    == upstream_headers(token)
            },
        },
        decision matches Err(refusal) ==> refusal.wf() && refusal.status_code() == (if !model_allowed(
            *config,
            document(body),
        ) {
            400u16
        } else {
            401u16
        }),
{
    let named: Option<String> = match get_member(&body, "model") {
        Some(value) => match value.as_str() {
            Some(name) => Some(name.to_owned()),
            None => None,
        },
        None => None,
    };
    let model = match named {
        Some(model) => model,
        None => {
            let allowed = config.allowed_models.clone();
            assert(texts(allowed@) =~= texts(config.allowed_models@));
            return Err(ProxyError::ModelNotAllowed { model: "(missing)".to_owned(), allowed });
        },
    };
    if !contains(&config.allowed_models, &model) {
        let allowed = config.allowed_models.clone();
        assert(texts(allowed@) =~= texts(config.allowed_models@));
        return Err(ProxyError::ModelNotAllowed { model, allowed });
    }
    proof {
        lemma_header_names();
    }
    let auth_header: &str = match get_header(headers, "Authorization") {
        Some(value) => match value.to_str() {
            Ok(token) => {
                proof {
                    lemma_ascii_round_trip(value_bytes(*value));
                }
                token
            },
            Err(_) => "",
        },
        None => "",
    };
    proof {
        reveal_strlit("");
        assert(""@ =~= seq![]);
        reveal_strlit("Bearer ");
    }
    if after_prefix(auth_header, "Bearer ").is_none() || auth_header.as_bytes().len() < 15 {
        return Err(ProxyError::Unauthorized);
    }
    let client_wants_stream = match get_member(&body, "stream") {
        Some(value) => match value.as_bool() {
            Some(flag) => flag,
            None => false,
        },
        None => false,
    };
    let payload = build_upstream_body(body, model.as_str());
    let token = match HeaderValue::from_str(auth_header) {
        Ok(token) => token,
        Err(_) => {
            return Err(ProxyError::Unauthorized);
        },
    };
    let mut upstream: HeaderMap<HeaderValue> = HeaderMap::new();
    insert_header(&mut upstream, "Content-Type", HeaderValue::from_static("application/json"));
    insert_header(&mut upstream, "Authorization", token);
    Ok(
        UpstreamRequest {
            url: config.upstream.clone(),
            headers: upstream,
            payload,
            timeout: config.timeout,
            model,
            client_wants_stream,
        },
    )
}

} // verus!
