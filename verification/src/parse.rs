use vstd::prelude::*;

use crate::json::{
    items_view, lemma_items_view_index, lemma_items_view_len, opt_view,
    Json, JsonV,
};
use crate::types::{NamespaceInfo, OpError, OpResult, RememberResult};

verus! {

broadcast use vstd::string::group_string_axioms;

/// The text, or empty text when absent.
pub open spec fn text_or_empty(v: Option<Seq<char>>) -> Seq<char> {
    match v {
        Some(s) => s,
        None => Seq::empty(),
    }
}

/// A member value that is present and not `null`.
pub open spec fn present(v: Option<JsonV>) -> Option<JsonV> {
    match v {
        Some(x) => if x.is_null() {
            None
        } else {
            Some(x)
        },
        None => None,
    }
}

/// The array at `key`, or no items.
pub open spec fn array_or_empty(data: JsonV, key: Seq<char>) -> Seq<JsonV> {
    match data.array_at(key) {
        Some(items) => items,
        None => Seq::empty(),
    }
}

fn text_or_empty_at(data: &Json, key: &str) -> (r: String)
    ensures
        r@ == text_or_empty(data@.str_at(key@)),
{
    match data.str_at(key) {
        Some(s) => s,
        None => String::new(),
    }
}

fn items_at<'a>(data: &'a Json, key: &str) -> (r: Option<&'a Vec<Json>>)
    ensures
        match r {
            Some(items) => data@.array_at(key@) == Some(items_view(items@)),
            None => data@.array_at(key@) is None,
        },
{
    match data.get(key) {
        Some(v) => v.as_array(),
        None => None,
    }
}

/// One recalled memory without its scores: id and text (empty when
/// absent), tags and source when present.
#[derive(Debug, Clone, Default, PartialEq)]
pub struct RecallHit {
    pub id: String,
    pub text: String,
    /// Comma-joined tags; present only when the memory has tags.
    pub tags: Option<String>,
    /// Origin label; present only on `verbose: true` recalls.
    pub source: Option<String>,
}

/// A recall answer without its scores and timings.
#[derive(Debug, Clone, Default, PartialEq)]
pub struct RecallPage {
    pub hits: Vec<RecallHit>,
    pub namespace: Option<String>,
}

/// `hit` is read from the wire object `h` (`hits[]` item).
pub open spec fn hit_matches(hit: RecallHit, h: JsonV) -> bool {
    &&& hit.id@ == text_or_empty(h.str_at("id"@))
    &&& hit.text@ == text_or_empty(h.str_at("text"@))
    &&& opt_view(hit.tags) == h.str_at("tags"@)
    &&& opt_view(hit.source) == h.str_at("source"@)
}

fn parse_hit(h: &Json) -> (r: RecallHit)
    ensures
        hit_matches(r, h@),
{
    RecallHit {
        id: text_or_empty_at(h, "id"),
        text: text_or_empty_at(h, "text"),
        tags: h.str_at("tags"),
        source: h.str_at("source"),
    }
}

/// Reads a recall answer: one hit per `hits[]` item, in order, and the
/// reported namespace.
pub fn parse_recall(data: &Json) -> (r: RecallPage)
    ensures
        r.hits.len() == array_or_empty(data@, "hits"@).len(),
        forall|i: int|
            0 <= i < r.hits.len() ==> hit_matches(#[trigger] r.hits@[i], array_or_empty(data@, "hits"@)[i]),
        opt_view(r.namespace) == data@.str_at("namespace"@),
{
    let mut hits: Vec<RecallHit> = Vec::new();
    if let Some(items) = items_at(data, "hits") {
        proof {
            lemma_items_view_len(items@);
        }
        let mut i: usize = 0;
        while i < items.len()
            invariant
                i <= items.len(),
                hits.len() == i,
                array_or_empty(data@, "hits"@) == items_view(items@),
                forall|k: int|
                    0 <= k < i ==> hit_matches(#[trigger] hits@[k], items_view(items@)[k]),
            decreases items.len() - i,
        {
            proof {
                lemma_items_view_index(items@, i as int);
            }
            hits.push(parse_hit(&items[i]));
            i = i + 1;
        }
    }
    RecallPage { hits, namespace: data.str_at("namespace") }
}

/// `r` is read from the remember answer `data`: the id comes from `id`,
/// else `memory_id`; `deduplicated` is kept only when true.
pub open spec fn remember_matches(r: RememberResult, data: JsonV) -> bool {
    &&& opt_view(r.memory_id) == (if data.str_at("id"@) is Some {
        data.str_at("id"@)
    } else {
        data.str_at("memory_id"@)
    })
    &&& opt_view(r.namespace) == data.str_at("namespace"@)
    &&& r.stored == data.bool_at("stored"@)
    &&& r.deduplicated == (if data.bool_at("deduplicated"@) == Some(true) {
        Some(true)
    } else {
        None
    })
    &&& opt_view(r.deduped_against) == data.str_at("deduped_against"@)
    &&& r.total_memories == data.i64_at("total_memories"@)
}

/// Reads a remember answer (server shape).
pub fn parse_remember(data: &Json) -> (r: RememberResult)
    ensures
        remember_matches(r, data@),
{
    let memory_id = match data.str_at("id") {
        Some(id) => Some(id),
        None => data.str_at("memory_id"),
    };
    let deduplicated = match data.bool_at("deduplicated") {
        Some(true) => Some(true),
        _ => None,
    };
    RememberResult {
        memory_id,
        namespace: data.str_at("namespace"),
        stored: data.bool_at("stored"),
        deduplicated,
        deduped_against: data.str_at("deduped_against"),
        total_memories: data.i64_at("total_memories"),
    }
}

/// `n` is read from one `namespaces[]` entry: a bare string names a
/// namespace without counts.
pub open spec fn namespace_matches(n: NamespaceInfo, item: JsonV) -> bool {
    match item.as_str() {
        Some(name) => n.namespace@ == name && n.memories is None && n.chunks is None,
        None => {
            &&& n.namespace@ == text_or_empty(item.str_at("namespace"@))
            &&& n.memories == item.i64_at("memories"@)
            &&& n.chunks == item.i64_at("chunks"@)
        },
    }
}

fn parse_namespace_entry(item: &Json) -> (r: NamespaceInfo)
    ensures
        namespace_matches(r, item@),
{
    if let Some(name) = item.as_str() {
        return NamespaceInfo { namespace: name.clone(), memories: None, chunks: None };
    }
    NamespaceInfo {
        namespace: text_or_empty_at(item, "namespace"),
        memories: item.i64_at("memories"),
        chunks: item.i64_at("chunks"),
    }
}

/// Reads the namespaces answer: one entry per `namespaces[]` item, in order.
pub fn parse_namespaces(data: &Json) -> (r: Vec<NamespaceInfo>)
    ensures
        r.len() == array_or_empty(data@, "namespaces"@).len(),
        forall|i: int|
            0 <= i < r.len() ==> namespace_matches(
                #[trigger] r@[i],
                array_or_empty(data@, "namespaces"@)[i],
            ),
{
    let mut out: Vec<NamespaceInfo> = Vec::new();
    if let Some(items) = items_at(data, "namespaces") {
        proof {
            lemma_items_view_len(items@);
        }
        let mut i: usize = 0;
        while i < items.len()
            invariant
                i <= items.len(),
                out.len() == i,
                array_or_empty(data@, "namespaces"@) == items_view(items@),
                forall|k: int|
                    0 <= k < i ==> namespace_matches(#[trigger] out@[k], items_view(items@)[k]),
            decreases items.len() - i,
        {
            proof {
                lemma_items_view_index(items@, i as int);
            }
            out.push(parse_namespace_entry(&items[i]));
            i = i + 1;
        }
    }
    out
}

fn present_member<'a>(data: &'a Json, key: &str) -> (r: Option<&'a Json>)
    ensures
        match r {
            Some(v) => present(data@.get(key@)) == Some(v@),
            None => present(data@.get(key@)) is None,
        },
{
    match data.get(key) {
        Some(v) => if v.is_null() {
            None
        } else {
            Some(v)
        },
        None => None,
    }
}

/// The `error` member of an OpResult envelope, when present and not `null`
/// (the value a decoded [`OpError`] is read from).
pub fn op_error_member(data: &Json) -> (r: Option<&Json>)
    ensures
        match r {
            Some(v) => present(data@.get("error"@)) == Some(v@),
            None => present(data@.get("error"@)) is None,
        },
{
    present_member(data, "error")
}

/// Reads an OpResult envelope. `ok` defaults to false; `payload` is kept
/// when present and not `null`; `decoded_error` is what the present `error`
/// member decodes to, and is kept only when that member is there.
pub fn parse_op_result(data: &Json, decoded_error: Option<OpError>) -> (r: OpResult)
    ensures
        r.ok == match data@.bool_at("ok"@) {
            Some(b) => b,
            None => false,
        },
        match r.payload {
            Some(p) => present(data@.get("payload"@)) == Some(p@),
            None => present(data@.get("payload"@)) is None,
        },
        r.error == (if present(data@.get("error"@)) is Some {
            decoded_error
        } else {
            None
        }),
{
    let ok = match data.bool_at("ok") {
        Some(b) => b,
        None => false,
    };
    let payload = match present_member(data, "payload") {
        Some(p) => Some(p.deep_copy()),
        None => None,
    };
    let error = match present_member(data, "error") {
        Some(_) => decoded_error,
        None => None,
    };
    OpResult { ok, payload, error }
}

/// The sub-results of an execute envelope: `payload.results`, or none.
pub open spec fn batch_results_of(data: JsonV) -> Seq<JsonV> {
    match present(data.get("payload"@)) {
        Some(p) => array_or_empty(p, "results"@),
        None => Seq::empty(),
    }
}

/// The payload of one sub-result (`null` when absent).
pub open spec fn sub_payload(result: JsonV) -> JsonV {
    match result.get("payload"@) {
        Some(p) => p,
        None => JsonV::Null,
    }
}

/// One `RememberResult` per sub-op, in order, from an execute envelope.
pub fn parse_execute_remember_batch(data: &Json) -> (r: Vec<RememberResult>)
    ensures
        r.len() == batch_results_of(data@).len(),
        forall|i: int|
            0 <= i < r.len() ==> remember_matches(
                #[trigger] r@[i],
                sub_payload(batch_results_of(data@)[i]),
            ),
{
    let mut out: Vec<RememberResult> = Vec::new();
    let null = Json::Null;
    if let Some(payload) = present_member(data, "payload") {
        if let Some(results) = items_at(payload, "results") {
            proof {
                lemma_items_view_len(results@);
            }
            let mut i: usize = 0;
            while i < results.len()
                invariant
                    i <= results.len(),
                    out.len() == i,
                    null@ == JsonV::Null,
                    batch_results_of(data@) == items_view(results@),
                    forall|k: int|
                        0 <= k < i ==> remember_matches(
                            #[trigger] out@[k],
                            sub_payload(items_view(results@)[k]),
                        ),
                decreases results.len() - i,
            {
                proof {
                    lemma_items_view_index(results@, i as int);
                }
                let sub = match results[i].get("payload") {
                    Some(p) => p,
                    None => &null,
                };
                out.push(parse_remember(sub));
                i = i + 1;
            }
        }
    }
    out
}

/// A listing answer with its items still raw: each `memories[]` item and
/// the cursor of the next page (absent on the last page).
#[derive(Debug, Clone, PartialEq)]
pub struct ListPage {
    pub items: Vec<Json>,
    pub next_cursor: Option<String>,
}

/// Reads a listing answer.
pub fn parse_list(data: &Json) -> (r: ListPage)
    ensures
        items_view(r.items@) == array_or_empty(data@, "memories"@),
        opt_view(r.next_cursor) == data@.str_at("nextCursor"@),
{
    let mut items: Vec<Json> = Vec::new();
    if let Some(memories) = items_at(data, "memories") {
        proof {
            lemma_items_view_len(memories@);
        }
        let mut i: usize = 0;
        while i < memories.len()
            invariant
                i <= memories.len(),
                items.len() == i,
                array_or_empty(data@, "memories"@) == items_view(memories@),
                forall|k: int| 0 <= k < i ==> json_view_eq(items@[k], memories@[k]),
            decreases memories.len() - i,
        {
            items.push(memories[i].deep_copy());
            i = i + 1;
        }
        proof {
            crate::json::lemma_items_view_ext(items@, memories@);
        }
    }
    ListPage { items, next_cursor: data.str_at("nextCursor") }
}

pub open spec fn json_view_eq(a: Json, b: Json) -> bool {
    a@ == b@
}

} // verus!
