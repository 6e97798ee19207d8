//! Laws of what is said of errors.

use serde_json::Value;
use vstd::prelude::*;

#[allow(unused_imports)]
use crate::error::config::ConfigError;
#[allow(unused_imports)]
use crate::error::proxy::{describe_upstream, is_status, reason_phrase, ProxyError};
#[allow(unused_imports)]
use crate::error::Error;
#[allow(unused_imports)]
use crate::json::{document, member, Json};
#[allow(unused_imports)]
use crate::proxy::exchange::UpstreamEvent;
#[allow(unused_imports)]
use crate::text::{contains, decimal, join, joined, texts};

verus! {

/// A list is joined part by part, with the separator between two and none at
/// the ends.
pub proof fn lemma_joined(parts: Seq<Seq<char>>, separator: Seq<char>, last: Seq<char>)
    ensures
        joined(Seq::empty(), separator).len() == 0,
        joined(seq![last], separator) == last,
        parts.len() > 0 ==> joined(parts.push(last), separator) == joined(parts, separator) + separator + last,
{
    assert(parts.push(last).drop_last() =~= parts);
}

/// Joining a list of strings: none gives the empty text, one is itself, and two
/// have the separator between them.
pub proof fn lemma_strings_joined(parts: &Vec<String>, separator: &str, all: String)
    requires
        call_ensures(join, (parts, separator), all),
    ensures
        parts@.len() == 0 ==> all@.len() == 0,
        parts@.len() == 1 ==> all@ == parts@[0]@,
        parts@.len() == 2 ==> all@ == parts@[0]@ + separator@ + parts@[1]@,
        parts@.len() > 1 ==> all@ == joined(texts(parts@.drop_last()), separator@) + separator@ + parts@.last()@,
        parts@.len() > 0 ==> parts@[0]@.is_prefix_of(all@),
{
    let shown = texts(parts@);
    assert(shown.len() == parts@.len());
    if parts@.len() > 0 {
        assert(shown.drop_last() =~= texts(parts@.drop_last()));
        assert(shown.last() == parts@.last()@);
        assert(shown[0] == parts@[0]@);
        lemma_first_part(shown, separator@);
    }
    if parts@.len() == 2 {
        assert(shown.drop_last() =~= seq![shown[0]]);
        assert(joined(shown.drop_last(), separator@) == shown[0]);
    }
}

proof fn lemma_first_part(parts: Seq<Seq<char>>, separator: Seq<char>)
    requires
        parts.len() > 0,
    ensures
        parts[0].is_prefix_of(joined(parts, separator)),
    decreases parts.len(),
{
    if parts.len() > 1 {
        lemma_first_part(parts.drop_last(), separator);
        let front = joined(parts.drop_last(), separator);
        assert(parts[0].is_prefix_of(front));
        assert(parts[0].is_prefix_of(front + separator + parts.last()));
    }
}

/// A text is in a list of strings if and only if one of them is that text.
pub proof fn lemma_text_in_list(list: &Vec<String>, wanted: &String, found: bool)
    requires
        call_ensures(contains, (list, wanted), found),
    ensures
        found <==> exists|i: int| 0 <= i < list@.len() && (#[trigger] list@[i])@ == wanted@,
{
    let shown = texts(list@);
    if found {
        let i = shown.index_of(wanted@);
        assert(list@[i]@ == wanted@);
    }
    if exists|i: int| 0 <= i < list@.len() && (#[trigger] list@[i])@ == wanted@ {
        let i = choose|i: int| 0 <= i < list@.len() && (#[trigger] list@[i])@ == wanted@;
        assert(shown[i] == wanted@);
    }
}

/// What is said of an answer of the upstream: its status line, and all of its
/// body.
pub proof fn lemma_upstream_described(status_line: &str, body: &str, shown: String)
    requires
        call_ensures(describe_upstream, (status_line, body), shown),
    ensures
        shown@ == "Upstream returned "@ + status_line@ + ": "@ + body@,
{
}

/// The allowed models as a client is told of them: the first as it is, and each
/// of the others behind a comma and a space.
pub open spec fn models_named(allowed: Seq<String>) -> Seq<char>
    decreases allowed.len(),
{
    if allowed.len() == 0 {
        seq![]
    } else if allowed.len() == 1 {
        allowed[0]@
    } else {
        models_named(allowed.drop_last()) + seq![',', ' '] + allowed.last()@
    }
}

proof fn lemma_models_named(allowed: Seq<String>)
    ensures
        joined(texts(allowed), ", "@) == models_named(allowed),
    decreases allowed.len(),
{
    reveal_strlit(", ");
    assert(", "@ =~= seq![',', ' ']);
    if allowed.len() > 0 {
        assert(texts(allowed).drop_last() =~= texts(allowed.drop_last()));
        assert(texts(allowed).last() == allowed.last()@);
        lemma_models_named(allowed.drop_last());
    }
}

/// What is said of an error that a client is answered with.
pub open spec fn tells_failure(failure: ProxyError, shown: Seq<char>) -> bool {
    match failure {
        ProxyError::ModelNotAllowed { model, allowed } => shown == "Model '"@ + model@ + "' not allowed. Allowed: "@
            + models_named(allowed@),
        ProxyError::Unauthorized => shown == "Missing or invalid Authorization header"@,
        ProxyError::UpstreamTimeout => shown == "Upstream request timed out"@,
        ProxyError::UpstreamConnection(cause) => shown == "Upstream connection error: "@ + cause@,
        ProxyError::UpstreamResponse { status, body } => shown == "Upstream returned "@ + (decimal(status as nat) + " "@
            + reason_phrase(status)) + ": "@ + body@,
        ProxyError::StreamRead(cause) => shown == "Stream read error: "@ + cause@,
    }
}

/// The message of an error tells it with all that it carries.
pub proof fn lemma_failure_told(failure: &ProxyError, shown: String)
    requires
        failure.wf(),
        call_ensures(ProxyError::message, (failure,), shown),
    ensures
        tells_failure(*failure, shown@),
{
    if let ProxyError::ModelNotAllowed { model, allowed } = failure {
        lemma_models_named(allowed@);
    }
}

/// The status with which a client is answered: 400 for a model that is not
/// allowed, 401 without a credential, 504 where the upstream was too slow, the
/// upstream's own status where it gave one, and 502 where it could not be
/// reached or its stream could not be read.
pub proof fn lemma_failure_answered(failure: ProxyError, answer: (u16, Value), name: Seq<char>)
    requires
        failure.wf(),
        call_ensures(ProxyError::into_response, (failure,), answer),
    ensures
        failure is ModelNotAllowed ==> answer.0 == 400,
        failure is Unauthorized ==> answer.0 == 401,
        failure is UpstreamTimeout ==> answer.0 == 504,
        failure is UpstreamConnection ==> answer.0 == 502,
        failure is StreamRead ==> answer.0 == 502,
        failure matches ProxyError::UpstreamResponse { status, .. } ==> answer.0 == status,
        document(answer.1) is Object,
        member(document(answer.1), "error"@) matches Some(Json::Text(shown)) && tells_failure(failure, shown),
        name != "error"@ ==> member(document(answer.1), name) is None,
{
    if let ProxyError::ModelNotAllowed { model, allowed } = failure {
        lemma_models_named(allowed@);
    }
}

/// Every status of three digits is one that an upstream can answer with and the
/// client can be told, and what carries no status can always be told.
pub proof fn lemma_every_status_can_be_told(status: u16, body: String, failure: ProxyError, event: UpstreamEvent)
    requires
        100 <= status <= 999,
        !(failure is UpstreamResponse),
        event is SendFailed || event is ReadFailed,
    ensures
        is_status(status),
        (ProxyError::UpstreamResponse { status, body }).wf(),
        (UpstreamEvent::Answered { status }).wf(),
        (UpstreamEvent::ErrorBody { status, body: Some(body) }).wf(),
        (UpstreamEvent::ErrorBody { status, body: None }).wf(),
        failure.wf(),
        event.wf(),
{
}

/// What the operator is told of a server that could not start or had to stop.
pub proof fn lemma_error_told(error: &Error, shown: String)
    requires
        call_ensures(Error::message, (error,), shown),
    ensures
        match *error {
            Error::Client(cause) => shown@ == "Failed to build HTTP client\nReqwest Error: "@ + cause@,
            Error::Binding { addr, e } => shown@ == "Failed to bind "@ + addr@ + ": "@ + e@,
            Error::Server(cause) => shown@ == "Server error: "@ + cause@,
        },
{
}

/// What the operator is told of a configuration that could not be loaded.
pub proof fn lemma_config_error_told(error: &ConfigError, shown: String)
    requires
        call_ensures(ConfigError::message, (error,), shown),
    ensures
        match *error {
            ConfigError::Io(cause) => shown@ == "Failed to read config file: "@ + cause@,
            ConfigError::Parse(cause) => shown@ == "Invalid config JSON: "@ + cause@,
        },
{
}

} // verus!
