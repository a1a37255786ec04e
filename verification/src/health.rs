use vstd::prelude::*;

use crate::json::{lemma_entries_view_push, Json, JsonV};
use crate::text::owned;

verus! {

broadcast use vstd::string::group_string_axioms;

/// Object payloads as they are; anything else as `{"status": <payload>}`.
pub open spec fn wrapped_status(data: JsonV) -> JsonV {
    if data.is_object() {
        data
    } else {
        JsonV::Object(seq![("status"@, data)])
    }
}

/// The health or readiness payload, always as an object.
pub fn wrap_status(data: Json) -> (r: Json)
    ensures
        r@ == wrapped_status(data@),
{
    if data.is_object() {
        data
    } else {
        let ghost d = data@;
        let mut entries: Vec<(String, Json)> = Vec::new();
        entries.push((owned("status"), data));
        proof {
            lemma_entries_view_push(Seq::empty(), entries@[0]);
            assert(Seq::<(String, Json)>::empty().push(entries@[0]) =~= entries@);
        }
        Json::Object(entries)
    }
}

/// Health payloads are always objects, and wrapping is done at most once.
pub proof fn law_wrap_status_object(data: JsonV)
    ensures
        wrapped_status(data).is_object(),
        wrapped_status(wrapped_status(data)) == wrapped_status(data),
{
}

} // verus!
