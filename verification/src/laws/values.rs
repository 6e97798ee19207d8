//! Laws of the values that the others are stated with: texts, documents, header
//! fields and clock readings.

use serde_json::Value;
use vstd::prelude::*;

#[allow(unused_imports)]
use crate::clock::{clock_shows, now, timestamp};
#[allow(unused_imports)]
use crate::headers::{all_permitted, all_visible, ascii_text, first_value, lower_case};
#[allow(unused_imports)]
use crate::json::{document, documents, member, Json};
#[allow(unused_imports)]
use crate::text::texts;

verus! {

/// An object's member is what it holds under that name; without one there is no
/// member, and nothing but an object has any.
pub proof fn lemma_member(fields: Map<Seq<char>, Json>, name: Seq<char>, other: Json)
    requires
        !(other is Object),
    ensures
        fields.contains_key(name) ==> member(Json::Object(fields), name) == Some(fields[name]),
        !fields.contains_key(name) ==> member(Json::Object(fields), name) is None,
        member(other, name) is None,
{
}

/// The texts of a list are those of its strings, one for one.
pub proof fn lemma_texts(strings: Seq<String>)
    ensures
        texts(strings).len() == strings.len(),
        forall|i: int| 0 <= i < strings.len() ==> #[trigger] texts(strings)[i] == strings[i]@,
{
}

/// The documents of a list are those of its values, one for one.
pub proof fn lemma_documents(values: Seq<Value>)
    ensures
        documents(values).len() == values.len(),
        forall|i: int| 0 <= i < values.len() ==> #[trigger] documents(values)[i] == document(values[i]),
{
}

/// A header field is found whatever the case of the letters in its name, and
/// the first value given for it is the one that is found.
pub proof fn lemma_case_of_names(held: Map<Seq<char>, Seq<Seq<u8>>>, one: Seq<char>, other: Seq<char>)
    requires
        one.len() == other.len(),
        forall|i: int|
            0 <= i < one.len() ==> #[trigger] one[i] == other[i] || ('A' <= one[i] <= 'Z' && other[i] as int == one[i] as int
                + 32),
    ensures
        first_value(held, one) == first_value(held, other),
{
    assert forall|i: int| 0 <= i < one.len() implies #[trigger] lower_case(one)[i] == lower_case(other)[i] by {
        assert(one[i] == other[i] || ('A' <= one[i] <= 'Z' && other[i] as int == one[i] as int + 32));
    }
    assert(lower_case(one) =~= lower_case(other));
}

/// A name without capital letters is looked up as it stands.
pub proof fn lemma_first_of_field(held: Map<Seq<char>, Seq<Seq<u8>>>, name: Seq<char>)
    requires
        forall|i: int| 0 <= i < name.len() ==> !('A' <= #[trigger] name[i] <= 'Z'),
    ensures
        held.contains_key(name) ==> first_value(held, name) == Some(held[name][0]),
        !held.contains_key(name) ==> first_value(held, name) is None,
{
    assert(lower_case(name) =~= name);
}

/// What can be read as text may stand in a header value again.
pub proof fn lemma_visible_is_permitted(bytes: Seq<u8>)
    requires
        all_visible(bytes),
    ensures
        all_permitted(bytes),
        ascii_text(bytes).len() == bytes.len(),
        forall|i: int| 0 <= i < bytes.len() ==> #[trigger] ascii_text(bytes)[i] as int == bytes[i] as int,
{
    assert forall|i: int| 0 <= i < bytes.len() implies (#[trigger] bytes[i] >= 32 && bytes[i] != 127) || bytes[i]
        == 9 by {
        assert(crate::headers::is_visible(bytes[i]));
    }
}

/// The whole seconds of a clock reading are the timestamp, and a clock that
/// stands before the epoch counts as standing at it.
pub proof fn lemma_timestamp(reading: Option<(u64, u32)>, seconds: u64)
    requires
        call_ensures(timestamp, (reading,), seconds),
    ensures
        reading matches Some((whole, _)) ==> seconds == whole,
        reading is None ==> seconds == 0,
{
}

/// The time now is the whole seconds of something that the clock can show.
pub proof fn lemma_now(seconds: u64)
    requires
        call_ensures(now, (), seconds),
    ensures
        exists|reading: Option<(u64, u32)>| #[trigger]
            clock_shows(reading) && match reading {
                Some((whole, _)) => seconds == whole,
                None => seconds == 0,
            },
{
}

} // verus!
