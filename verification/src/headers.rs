//! HTTP header fields: a mathematical model of `http`'s header map, and what
//! is assumed of the operations on it that the proxy uses.

use axum::http::header::{InvalidHeaderValue, ToStrError};
use axum::http::{HeaderMap, HeaderValue};
use vstd::prelude::*;
#[allow(unused_imports)]
use vstd::utf8::encode_utf8;

verus! {

/// `http::HeaderValue`, the value of a header field. What it holds is
/// [`value_bytes`].
#[verifier::external_type_specification]
#[verifier::external_body]
pub struct ExHeaderValue(axum::http::HeaderValue);

/// `http::HeaderMap`, a set of header fields. What it holds is [`header_fields`].
#[verifier::external_type_specification]
#[verifier::external_body]
#[verifier::reject_recursive_types(T)]
pub struct ExHeaderMap<T>(axum::http::HeaderMap<T>);

/// `http::header::ToStrError`, which carries nothing.
#[verifier::external_type_specification]
#[verifier::external_body]
pub struct ExToStrError(axum::http::header::ToStrError);

/// `http::header::InvalidHeaderValue`, which carries nothing.
#[verifier::external_type_specification]
#[verifier::external_body]
pub struct ExInvalidHeaderValue(axum::http::header::InvalidHeaderValue);

/// The bytes that a header value holds.
pub uninterp spec fn value_bytes(value: axum::http::HeaderValue) -> Seq<u8>;

/// The fields that a header map holds: under each name, in lower case, the
/// values given for it, in order.
pub uninterp spec fn header_fields(headers: axum::http::HeaderMap<axum::http::HeaderValue>) -> Map<Seq<char>, Seq<Seq<u8>>>;

/// Whether a byte may stand in a header value that is read as text: a space, a
/// visible ASCII character or a tab.
pub open spec fn is_visible(byte: u8) -> bool {
    32 <= byte < 127 || byte == 9
}

/// Whether all the bytes of a value are visible.
pub open spec fn all_visible(bytes: Seq<u8>) -> bool {
    forall|i: int| 0 <= i < bytes.len() ==> is_visible(#[trigger] bytes[i])
}

/// Whether all the bytes of a value may stand in one: any but the control
/// characters other than a tab.
pub open spec fn all_permitted(bytes: Seq<u8>) -> bool {
    forall|i: int| 0 <= i < bytes.len() ==> (#[trigger] bytes[i] >= 32 && bytes[i] != 127) || bytes[i] == 9
}

/// The ASCII text that the bytes spell.
pub open spec fn ascii_text(bytes: Seq<u8>) -> Seq<char> {
    bytes.map_values(|byte: u8| byte as char)
}

/// A letter in lower case; any other character unchanged.
pub open spec fn lower_char(c: char) -> char {
    if 'A' <= c <= 'Z' {
        (c as u8 + 32) as char
    } else {
        c
    }
}

/// A header name in lower case, as it is looked up.
pub open spec fn lower_case(name: Seq<char>) -> Seq<char> {
    name.map_values(|c: char| lower_char(c))
}

/// A name of letters and hyphens, short enough to be compared as it stands.
pub open spec fn is_plain_name(name: Seq<char>) -> bool {
    &&& 1 <= name.len() <= 64
    &&& forall|i: int|
        0 <= i < name.len() ==> 'A' <= #[trigger] name[i] <= 'Z' || 'a' <= name[i] <= 'z' || name[i] == '-'
}

/// The first value of the header field `name`, whatever the case of the name.
pub open spec fn first_value(held: Map<Seq<char>, Seq<Seq<u8>>>, name: Seq<char>) -> Option<Seq<u8>> {
    if held.contains_key(lower_case(name)) {
        Some(held[lower_case(name)][0])
    } else {
        None
    }
}

/// The header map without fields.
pub open spec fn no_fields() -> Map<Seq<char>, Seq<Seq<u8>>> {
    Map::empty()
}

/// `http::HeaderValue::to_str`: the value as text, if all its bytes are
/// visible; an error otherwise.
pub assume_specification<'a>[ axum::http::HeaderValue::to_str ](value: &'a HeaderValue) -> (read: Result<&'a str, ToStrError>)
    ensures
        match read {
            Ok(s) => all_visible(value_bytes(*value)) && s@ == ascii_text(value_bytes(*value)),
            Err(_) => !all_visible(value_bytes(*value)),
        },
;

/// `http::HeaderValue::from_static`: the value that the text spells. It panics
/// where a byte of the text is not visible.
pub assume_specification[ axum::http::HeaderValue::from_static ](source: &'static str) -> (value: HeaderValue)
    requires
        all_visible(encode_utf8(source@)),
    ensures
        value_bytes(value) == encode_utf8(source@),
;

/// `http::HeaderValue::from_str`: the value that the text spells, if none of
/// its bytes is a control character other than a tab; an error otherwise.
pub assume_specification[ axum::http::HeaderValue::from_str ](source: &str) -> (made: Result<HeaderValue, InvalidHeaderValue>)
    ensures
        match made {
            Ok(value) => all_permitted(encode_utf8(source@)) && value_bytes(value) == encode_utf8(source@),
            Err(_) => !all_permitted(encode_utf8(source@)),
        },
;

/// `http::HeaderMap::new`: a map without fields.
pub assume_specification[ axum::http::HeaderMap::<HeaderValue>::new ]() -> (headers: HeaderMap<HeaderValue>)
    ensures
        header_fields(headers) == no_fields(),
;

/// `http::HeaderMap::get`: the first value of the field, found by its name
/// whatever the case of its letters; `None` if there is no such field.
#[verifier::external_body]
pub(crate) fn get_header<'a>(headers: &'a HeaderMap<HeaderValue>, name: &str) -> (found: Option<&'a HeaderValue>)
    requires
        is_plain_name(name@),
    ensures
        match found {
            Some(value) => first_value(header_fields(*headers), name@) == Some(value_bytes(*value)),
            None => first_value(header_fields(*headers), name@) is None,
        },
{
    headers.get(name)
}

/// `http::HeaderMap::insert`: the field has the given value and no other. It
/// panics on a map of many thousand fields.
#[verifier::external_body]
pub(crate) fn insert_header(headers: &mut HeaderMap<HeaderValue>, name: &'static str, value: HeaderValue)
    requires
        is_plain_name(name@),
        header_fields(*old(headers)).len() < 100,
    ensures
        header_fields(*final(headers)) == header_fields(*old(headers)).insert(lower_case(name@), seq![value_bytes(value)]),
{
    headers.insert(name, value);
}

} // verus!
