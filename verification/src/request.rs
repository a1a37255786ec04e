use vstd::prelude::*;

use crate::json::{
    entries_lookup, entries_view, items_view, lemma_entries_view_push, lemma_items_view_push, opt_view, Json,
    JsonNumber, JsonV,
};
use crate::text::{
    concat, decimal, decimal_string, join_strings, join_with, lemma_percent_encoded_no_delimiter,
    is_url_delimiter, owned, percent_encode, percent_encoded, strings_view,
};
use crate::types::{
    normalize_tags, normalized_tags, ForgetOptions, IngestOptions, InvestigateOptions, ListOptions,
    ListRecentOptions, Operation, RecallOptions, RememberItem, RememberOptions,
};

verus! {

broadcast use vstd::string::group_string_axioms;

/// Percent-encoding of the UTF-8 bytes of `s`.
pub open spec fn url_encoded(s: Seq<char>) -> Seq<char> {
    percent_encoded(vstd::utf8::encode_utf8(s))
}

/// The member `(key, value)` when the value is present, nothing otherwise.
pub open spec fn value_entry(key: Seq<char>, v: Option<JsonV>) -> Seq<(Seq<char>, JsonV)> {
    match v {
        Some(x) => seq![(key, x)],
        None => Seq::empty(),
    }
}

pub open spec fn opt_text(v: Option<Seq<char>>) -> Option<JsonV> {
    match v {
        Some(s) => Some(JsonV::Text(s)),
        None => None,
    }
}

pub open spec fn opt_bool(v: Option<bool>) -> Option<JsonV> {
    match v {
        Some(b) => Some(JsonV::Bool(b)),
        None => None,
    }
}

pub open spec fn opt_u32(v: Option<u32>) -> Option<JsonV> {
    match v {
        Some(n) => Some(JsonV::Number(JsonNumber::PosInt(n as u64))),
        None => None,
    }
}

pub open spec fn opt_u64(v: Option<u64>) -> Option<JsonV> {
    match v {
        Some(n) => Some(JsonV::Number(JsonNumber::PosInt(n))),
        None => None,
    }
}

/// A double's bit pattern with every exponent bit set: an infinity or a NaN.
pub open spec fn is_non_finite_bits(bits: u64) -> bool {
    (bits / 0x10000000000000) % 0x800 == 0x7ff
}

/// The JSON value a number is sent as. An infinite or NaN double has no
/// JSON form and is sent as `null`, as serde_json writes it.
pub open spec fn number_json(n: JsonNumber) -> JsonV {
    match n {
        JsonNumber::Float(bits) => if is_non_finite_bits(bits) {
            JsonV::Null
        } else {
            JsonV::Number(n)
        },
        _ => JsonV::Number(n),
    }
}

pub open spec fn opt_number(v: Option<JsonNumber>) -> Option<JsonV> {
    match v {
        Some(n) => Some(number_json(n)),
        None => None,
    }
}

/// A JSON array of strings.
pub open spec fn text_array(items: Seq<Seq<char>>) -> JsonV {
    JsonV::Array(items.map_values(|t: Seq<char>| JsonV::Text(t)))
}

/// The namespace a call uses: the one given for the call, else the client's
/// default when that is not empty.
pub open spec fn default_namespace_of(client_namespace: Seq<char>, namespace: Option<Seq<char>>) -> Option<
    Seq<char>,
> {
    if namespace is Some {
        namespace
    } else if client_namespace.len() > 0 {
        Some(client_namespace)
    } else {
        None
    }
}

fn push_entry(entries: &mut Vec<(String, Json)>, key: &str, value: Json)
    ensures
        entries_view(final(entries)@) == entries_view(old(entries)@).push((key@, value@)),
{
    let ghost before = entries@;
    let k = owned(key);
    entries.push((k, value));
    proof {
        lemma_entries_view_push(before, entries@[before.len() as int]);
        assert(before.push(entries@[before.len() as int]) =~= entries@);
    }
}

pub open spec fn opt_json_view(v: Option<Json>) -> Option<JsonV> {
    match v {
        Some(j) => Some(j@),
        None => None,
    }
}

fn push_opt_entry(entries: &mut Vec<(String, Json)>, key: &str, value: Option<Json>)
    ensures
        entries_view(final(entries)@) == entries_view(old(entries)@) + value_entry(
            key@,
            opt_json_view(value),
        ),
{
    let ghost before = entries_view(entries@);
    match value {
        Some(v) => {
            push_entry(entries, key, v);
            proof {
                assert(entries_view(entries@) =~= before + value_entry(key@, opt_json_view(value)));
            }
        },
        None => {
            proof {
                assert(entries_view(entries@) =~= before + value_entry(key@, opt_json_view(value)));
            }
        },
    }
}

fn text_value(v: Option<String>) -> (r: Option<Json>)
    ensures
        opt_json_view(r) == opt_text(opt_view(v)),
{
    match v {
        Some(s) => Some(Json::Text(s)),
        None => None,
    }
}

fn bool_value(v: Option<bool>) -> (r: Option<Json>)
    ensures
        opt_json_view(r) == opt_bool(v),
{
    match v {
        Some(b) => Some(Json::Bool(b)),
        None => None,
    }
}

fn u32_value(v: Option<u32>) -> (r: Option<Json>)
    ensures
        opt_json_view(r) == opt_u32(v),
{
    match v {
        Some(n) => Some(Json::Number(JsonNumber::PosInt(n as u64))),
        None => None,
    }
}

fn u64_value(v: Option<u64>) -> (r: Option<Json>)
    ensures
        opt_json_view(r) == opt_u64(v),
{
    match v {
        Some(n) => Some(Json::Number(JsonNumber::PosInt(n))),
        None => None,
    }
}

fn number_value(v: Option<JsonNumber>) -> (r: Option<Json>)
    ensures
        opt_json_view(r) == opt_number(v),
{
    match v {
        Some(JsonNumber::Float(bits)) => if bits / 0x10000000000000 % 0x800 == 0x7ff {
            Some(Json::Null)
        } else {
            Some(Json::Number(JsonNumber::Float(bits)))
        },
        Some(n) => Some(Json::Number(n)),
        None => None,
    }
}

fn copy_opt(v: &Option<String>) -> (r: Option<String>)
    ensures
        opt_view(r) == opt_view(*v),
{
    match v {
        Some(s) => Some(s.clone()),
        None => None,
    }
}

/// The namespace a call uses (see [`default_namespace_of`]).
pub fn default_namespace(client_namespace: &str, namespace: &Option<String>) -> (r: Option<String>)
    ensures
        opt_view(r) == default_namespace_of(client_namespace@, opt_view(*namespace)),
{
    match namespace {
        Some(ns) => Some(ns.clone()),
        None => if client_namespace.is_empty() {
            None
        } else {
            Some(owned(client_namespace))
        },
    }
}

/// A JSON array of the given strings.
pub fn text_array_of(items: &Vec<String>) -> (r: Json)
    ensures
        r@ == text_array(strings_view(items@)),
{
    let mut out: Vec<Json> = Vec::new();
    let mut i: usize = 0;
    while i < items.len()
        invariant
            i <= items.len(),
            out.len() == i,
            items_view(out@) == strings_view(items@).take(i as int).map_values(
                |t: Seq<char>| JsonV::Text(t),
            ),
        decreases items.len() - i,
    {
        let ghost before = out@;
        out.push(Json::Text(items[i].clone()));
        proof {
            lemma_items_view_push(before, out@[i as int]);
            assert(before.push(out@[i as int]) =~= out@);
            assert(strings_view(items@).take(i + 1).map_values(|t: Seq<char>| JsonV::Text(t))
                =~= strings_view(items@).take(i as int).map_values(|t: Seq<char>| JsonV::Text(t)).push(
                JsonV::Text(items@[i as int]@),
            ));
        }
        i = i + 1;
    }
    proof {
        assert(strings_view(items@).take(items.len() as int) =~= strings_view(items@));
    }
    Json::Array(out)
}

/// `/v2/workspaces/{ws}`: the path prefix of every workspace-scoped call;
/// the opaque id is percent-encoded.
pub open spec fn workspace_prefix_of(workspace: Seq<char>) -> Seq<char> {
    "/v2/workspaces/"@ + url_encoded(workspace)
}

pub fn workspace_prefix(workspace: &str) -> (r: String)
    ensures
        r@ == workspace_prefix_of(workspace@),
{
    let encoded = percent_encode(workspace);
    concat("/v2/workspaces/", encoded.as_str())
}

/// `prefix` followed by an endpoint name such as `/recall`.
pub fn endpoint(prefix: &str, name: &str) -> (r: String)
    ensures
        r@ == prefix@ + name@,
{
    concat(prefix, name)
}

/// The recall request body: `query`, then each option that is set, in a
/// fixed order; options that are not set are left out.
pub open spec fn recall_body_of(query: Seq<char>, client_namespace: Seq<char>, o: RecallOptions) -> JsonV {
    JsonV::Object(
        value_entry("query"@, Some(JsonV::Text(query))) + value_entry(
            "namespace"@,
            opt_text(default_namespace_of(client_namespace, opt_view(o.namespace))),
        ) + value_entry("top_k"@, opt_u32(o.top_k)) + value_entry("verbose"@, opt_bool(o.verbose))
            + value_entry("golden"@, opt_bool(o.golden)) + value_entry(
            "format"@,
            opt_text(opt_view(o.format)),
        ) + value_entry("snippet_chars"@, opt_u64(o.snippet_chars)) + value_entry(
            "adaptive"@,
            opt_bool(o.adaptive),
        ) + value_entry("margin"@, opt_number(o.margin)),
    )
}

pub fn recall_body(query: &str, client_namespace: &str, options: &RecallOptions) -> (r: Json)
    ensures
        r@ == recall_body_of(query@, client_namespace@, *options),
{
    let mut entries: Vec<(String, Json)> = Vec::new();
    push_entry(&mut entries, "query", Json::Text(owned(query)));
    proof {
        assert(entries_view(entries@) =~= value_entry("query"@, Some(JsonV::Text(query@))));
    }
    push_opt_entry(
        &mut entries,
        "namespace",
        text_value(default_namespace(client_namespace, &options.namespace)),
    );
    push_opt_entry(&mut entries, "top_k", u32_value(options.top_k));
    push_opt_entry(&mut entries, "verbose", bool_value(options.verbose));
    push_opt_entry(&mut entries, "golden", bool_value(options.golden));
    push_opt_entry(&mut entries, "format", text_value(copy_opt(&options.format)));
    push_opt_entry(&mut entries, "snippet_chars", u64_value(options.snippet_chars));
    push_opt_entry(&mut entries, "adaptive", bool_value(options.adaptive));
    push_opt_entry(&mut entries, "margin", number_value(options.margin));
    Json::Object(entries)
}

/// The top-k an investigate call asks for when none is given.
pub const INVESTIGATE_DEFAULT_TOP_K: u32 = 5;

/// An investigate call is a recall in the hinted namespace with top-k
/// defaulting to 5 and no other options.
pub fn investigate_options(options: InvestigateOptions) -> (r: RecallOptions)
    ensures
        opt_view(r.namespace) == opt_view(options.namespace_hint),
        r.top_k == Some(
            match options.top_k {
                Some(k) => k,
                None => INVESTIGATE_DEFAULT_TOP_K,
            },
        ),
        r.verbose is None,
        r.golden is None,
        r.format is None,
        r.snippet_chars is None,
        r.adaptive is None,
        r.margin is None,
{
    let top_k = match options.top_k {
        Some(k) => k,
        None => INVESTIGATE_DEFAULT_TOP_K,
    };
    RecallOptions {
        namespace: options.namespace_hint,
        top_k: Some(top_k),
        verbose: None,
        golden: None,
        format: None,
        snippet_chars: None,
        adaptive: None,
        margin: None,
    }
}

/// The tags member: always an array of normalized tags.
pub open spec fn tags_value(tags: Option<Seq<Seq<char>>>) -> Option<JsonV> {
    match tags {
        Some(t) => Some(text_array(normalized_tags(t))),
        None => None,
    }
}

pub open spec fn opt_strings_view(v: Option<Vec<String>>) -> Option<Seq<Seq<char>>> {
    match v {
        Some(t) => Some(strings_view(t@)),
        None => None,
    }
}

/// The remember request body: `text`, then namespace, source and tags when set.
pub open spec fn remember_body_of(text: Seq<char>, client_namespace: Seq<char>, o: RememberOptions) -> JsonV {
    JsonV::Object(
        seq![("text"@, JsonV::Text(text))] + value_entry(
            "namespace"@,
            opt_text(default_namespace_of(client_namespace, opt_view(o.namespace))),
        ) + value_entry("source"@, opt_text(opt_view(o.source))) + value_entry(
            "tags"@,
            tags_value(opt_strings_view(o.tags)),
        ),
    )
}

fn tags_json(tags: &Vec<String>) -> (r: Json)
    ensures
        r@ == text_array(normalized_tags(strings_view(tags@))),
{
    let normalized = normalize_tags(tags.as_slice());
    text_array_of(&normalized)
}

fn tags_value_of(tags: &Option<Vec<String>>) -> (r: Option<Json>)
    ensures
        opt_json_view(r) == tags_value(opt_strings_view(*tags)),
{
    match tags {
        Some(t) => Some(tags_json(t)),
        None => None,
    }
}

pub fn remember_body(text: &str, client_namespace: &str, options: &RememberOptions) -> (r: Json)
    ensures
        r@ == remember_body_of(text@, client_namespace@, *options),
{
    let mut entries: Vec<(String, Json)> = Vec::new();
    push_entry(&mut entries, "text", Json::Text(owned(text)));
    proof {
        assert(entries_view(entries@) =~= seq![("text"@, JsonV::Text(text@))]);
    }
    push_opt_entry(
        &mut entries,
        "namespace",
        text_value(default_namespace(client_namespace, &options.namespace)),
    );
    push_opt_entry(&mut entries, "source", text_value(copy_opt(&options.source)));
    push_opt_entry(&mut entries, "tags", tags_value_of(&options.tags));
    Json::Object(entries)
}

/// `{"text": text}`.
pub fn encode_body(text: &str) -> (r: Json)
    ensures
        r@ == JsonV::Object(seq![("text"@, JsonV::Text(text@))]),
{
    let mut entries: Vec<(String, Json)> = Vec::new();
    push_entry(&mut entries, "text", Json::Text(owned(text)));
    proof {
        assert(entries_view(entries@) =~= seq![("text"@, JsonV::Text(text@))]);
    }
    Json::Object(entries)
}

/// `{"text1": text1, "text2": text2}`.
pub fn similarity_body(text1: &str, text2: &str) -> (r: Json)
    ensures
        r@ == JsonV::Object(seq![("text1"@, JsonV::Text(text1@)), ("text2"@, JsonV::Text(text2@))]),
{
    let mut entries: Vec<(String, Json)> = Vec::new();
    push_entry(&mut entries, "text1", Json::Text(owned(text1)));
    push_entry(&mut entries, "text2", Json::Text(owned(text2)));
    proof {
        assert(entries_view(entries@) =~= seq![
            ("text1"@, JsonV::Text(text1@)),
            ("text2"@, JsonV::Text(text2@)),
        ]);
    }
    Json::Object(entries)
}


/// The source a batch item is stored with: its own, else the batch default.
pub open spec fn item_source(item: RememberItem, fallback: Option<Seq<char>>) -> Option<Seq<char>> {
    if item.source is Some {
        opt_view(item.source)
    } else {
        fallback
    }
}

/// The arguments of one `remember` sub-operation.
pub open spec fn batch_args_of(
    item: RememberItem,
    namespace: Option<Seq<char>>,
    fallback_source: Option<Seq<char>>,
) -> JsonV {
    JsonV::Object(
        seq![("text"@, JsonV::Text(item.text@))] + value_entry(
            "source"@,
            opt_text(item_source(item, fallback_source)),
        ) + value_entry("tags"@, tags_value(opt_strings_view(item.tags))) + value_entry(
            "namespace"@,
            opt_text(namespace),
        ),
    )
}

/// One `{"op": "remember", "args": ...}` sub-operation.
pub open spec fn batch_op_of(
    item: RememberItem,
    namespace: Option<Seq<char>>,
    fallback_source: Option<Seq<char>>,
) -> JsonV {
    JsonV::Object(
        seq![
            ("op"@, JsonV::Text("remember"@)),
            ("args"@, batch_args_of(item, namespace, fallback_source)),
        ],
    )
}

/// The execute body for a remember batch: one `remember` sub-operation per
/// item, in order; no body at all for an empty batch.
pub open spec fn remember_batch_body_of(
    items: Seq<RememberItem>,
    client_namespace: Seq<char>,
    o: RememberOptions,
) -> Option<JsonV> {
    if items.len() == 0 {
        None
    } else {
        let ns = default_namespace_of(client_namespace, opt_view(o.namespace));
        let src = opt_view(o.source);
        Some(
            JsonV::Object(
                seq![
                    ("operations"@, JsonV::Array(
                        items.map_values(|it: RememberItem| batch_op_of(it, ns, src)),
                    )),
                ],
            ),
        )
    }
}

fn batch_op(item: &RememberItem, namespace: &Option<String>, fallback_source: &Option<String>) -> (r:
    Json)
    ensures
        r@ == batch_op_of(*item, opt_view(*namespace), opt_view(*fallback_source)),
{
    let mut args: Vec<(String, Json)> = Vec::new();
    push_entry(&mut args, "text", Json::Text(item.text.clone()));
    proof {
        assert(entries_view(args@) =~= seq![("text"@, JsonV::Text(item.text@))]);
    }
    let source = match &item.source {
        Some(s) => Some(s.clone()),
        None => copy_opt(fallback_source),
    };
    push_opt_entry(&mut args, "source", text_value(source));
    push_opt_entry(&mut args, "tags", tags_value_of(&item.tags));
    push_opt_entry(&mut args, "namespace", text_value(copy_opt(namespace)));
    let mut op: Vec<(String, Json)> = Vec::new();
    push_entry(&mut op, "op", Json::Text(owned("remember")));
    push_entry(&mut op, "args", Json::Object(args));
    proof {
        assert(entries_view(op@) =~= seq![
            ("op"@, JsonV::Text("remember"@)),
            ("args"@, batch_args_of(*item, opt_view(*namespace), opt_view(*fallback_source))),
        ]);
    }
    Json::Object(op)
}

/// The execute body for a remember batch (see [`remember_batch_body_of`]).
pub fn remember_batch_body(items: &[RememberItem], client_namespace: &str, options: &RememberOptions) -> (r:
    Option<Json>)
    ensures
        opt_json_view(r) == remember_batch_body_of(items@, client_namespace@, *options),
{
    if items.len() == 0 {
        return None;
    }
    let namespace = default_namespace(client_namespace, &options.namespace);
    let ghost ns = default_namespace_of(client_namespace@, opt_view(options.namespace));
    let ghost src = opt_view(options.source);
    let mut ops: Vec<Json> = Vec::new();
    let mut i: usize = 0;
    while i < items.len()
        invariant
            i <= items.len(),
            ops.len() == i,
            opt_view(namespace) == ns,
            src == opt_view(options.source),
            items_view(ops@) == items@.take(i as int).map_values(
                |it: RememberItem| batch_op_of(it, ns, src),
            ),
        decreases items.len() - i,
    {
        let ghost before = ops@;
        ops.push(batch_op(&items[i], &namespace, &options.source));
        proof {
            lemma_items_view_push(before, ops@[i as int]);
            assert(before.push(ops@[i as int]) =~= ops@);
            assert(items@.take(i + 1).map_values(|it: RememberItem| batch_op_of(it, ns, src))
                =~= items@.take(i as int).map_values(|it: RememberItem| batch_op_of(it, ns, src)).push(
                batch_op_of(items@[i as int], ns, src),
            ));
        }
        i = i + 1;
    }
    proof {
        assert(items@.take(items.len() as int) =~= items@);
    }
    let mut body: Vec<(String, Json)> = Vec::new();
    push_entry(&mut body, "operations", Json::Array(ops));
    proof {
        assert(entries_view(body@) =~= seq![
            ("operations"@, JsonV::Array(
                items@.map_values(|it: RememberItem| batch_op_of(it, ns, src)),
            )),
        ]);
    }
    Some(Json::Object(body))
}

pub open spec fn select_value(select: Option<Vec<String>>) -> Option<JsonV> {
    match select {
        Some(v) => Some(text_array(strings_view(v@))),
        None => None,
    }
}

/// One batch entry on the wire: `op`, then `args` and `select` when set.
pub open spec fn operation_json(op: Operation) -> JsonV {
    JsonV::Object(
        seq![("op"@, JsonV::Text(op.op@))] + value_entry("args"@, opt_json_view(op.args))
            + value_entry("select"@, select_value(op.select)),
    )
}

/// The simple `{operations}` execute body, one entry per operation, in order.
pub open spec fn execute_body_of(ops: Seq<Operation>) -> JsonV {
    JsonV::Object(
        seq![("operations"@, JsonV::Array(ops.map_values(|op: Operation| operation_json(op))))],
    )
}

fn operation_to_json(op: &Operation) -> (r: Json)
    ensures
        r@ == operation_json(*op),
{
    let mut entries: Vec<(String, Json)> = Vec::new();
    push_entry(&mut entries, "op", Json::Text(op.op.clone()));
    proof {
        assert(entries_view(entries@) =~= seq![("op"@, JsonV::Text(op.op@))]);
    }
    let args = match &op.args {
        Some(a) => Some(a.deep_copy()),
        None => None,
    };
    push_opt_entry(&mut entries, "args", args);
    let select = match &op.select {
        Some(v) => Some(text_array_of(v)),
        None => None,
    };
    push_opt_entry(&mut entries, "select", select);
    Json::Object(entries)
}

pub fn execute_body(operations: &[Operation]) -> (r: Json)
    ensures
        r@ == execute_body_of(operations@),
{
    let mut out: Vec<Json> = Vec::new();
    let mut i: usize = 0;
    while i < operations.len()
        invariant
            i <= operations.len(),
            out.len() == i,
            items_view(out@) == operations@.take(i as int).map_values(
                |op: Operation| operation_json(op),
            ),
        decreases operations.len() - i,
    {
        let ghost before = out@;
        out.push(operation_to_json(&operations[i]));
        proof {
            lemma_items_view_push(before, out@[i as int]);
            assert(before.push(out@[i as int]) =~= out@);
            assert(operations@.take(i + 1).map_values(|op: Operation| operation_json(op))
                =~= operations@.take(i as int).map_values(|op: Operation| operation_json(op)).push(
                operation_json(operations@[i as int]),
            ));
        }
        i = i + 1;
    }
    proof {
        assert(operations@.take(operations.len() as int) =~= operations@);
    }
    let mut body: Vec<(String, Json)> = Vec::new();
    push_entry(&mut body, "operations", Json::Array(out));
    proof {
        assert(entries_view(body@) =~= seq![
            ("operations"@, JsonV::Array(
                operations@.map_values(|op: Operation| operation_json(op)),
            )),
        ]);
    }
    Json::Object(body)
}


/// `name=<encoded value>` when the value is present, nothing otherwise.
pub open spec fn opt_param(name: Seq<char>, v: Option<Seq<char>>) -> Seq<Seq<char>> {
    match v {
        Some(x) => seq![name + "="@ + url_encoded(x)],
        None => Seq::empty(),
    }
}

/// `?` and the parameters joined with `&`; nothing when there are none.
pub open spec fn query_string(params: Seq<Seq<char>>) -> Seq<char> {
    if params.len() == 0 {
        Seq::empty()
    } else {
        "?"@ + join_with(params, "&"@)
    }
}

fn push_opt_param(params: &mut Vec<String>, name: &str, value: &Option<String>)
    ensures
        strings_view(final(params)@) == strings_view(old(params)@) + opt_param(
            name@,
            opt_view(*value),
        ),
{
    let ghost before = strings_view(params@);
    match value {
        Some(v) => {
            let mut p = concat(name, "=");
            let encoded = percent_encode(v.as_str());
            p.append(encoded.as_str());
            params.push(p);
        },
        None => {},
    }
    proof {
        assert(strings_view(params@) =~= before + opt_param(name@, opt_view(*value)));
    }
}

fn query_suffix(params: &Vec<String>) -> (r: String)
    ensures
        r@ == query_string(strings_view(params@)),
{
    if params.len() == 0 {
        String::new()
    } else {
        let joined = join_strings(params, "&");
        concat("?", joined.as_str())
    }
}

/// `DELETE` path of one memory: the id is percent-encoded and the namespace,
/// when one applies, is sent as the `namespace` query parameter.
pub open spec fn forget_path_of(
    prefix: Seq<char>,
    memory_id: Seq<char>,
    client_namespace: Seq<char>,
    o: ForgetOptions,
) -> Seq<char> {
    prefix + "/memories/"@ + url_encoded(memory_id) + query_string(
        opt_param("namespace"@, default_namespace_of(client_namespace, opt_view(o.namespace))),
    )
}

pub fn forget_path(prefix: &str, memory_id: &str, client_namespace: &str, options: &ForgetOptions) -> (r:
    String)
    ensures
        r@ == forget_path_of(prefix@, memory_id@, client_namespace@, *options),
{
    let mut path = concat(prefix, "/memories/");
    let encoded = percent_encode(memory_id);
    path.append(encoded.as_str());
    let mut params: Vec<String> = Vec::new();
    proof {
        assert(strings_view(params@) =~= Seq::<Seq<char>>::empty());
    }
    let ns = default_namespace(client_namespace, &options.namespace);
    push_opt_param(&mut params, "namespace", &ns);
    proof {
        assert(strings_view(params@) =~= opt_param(
            "namespace"@,
            default_namespace_of(client_namespace@, opt_view(options.namespace)),
        ));
    }
    let suffix = query_suffix(&params);
    path.append(suffix.as_str());
    path
}

/// `limit=<n>` when a limit is set.
pub open spec fn limit_param(limit: Option<u32>) -> Seq<Seq<char>> {
    match limit {
        Some(n) => seq!["limit="@ + decimal(n as nat)],
        None => Seq::empty(),
    }
}

/// Query parameters of a listing: `ns`, `q`, `limit`, each when set.
pub open spec fn list_params_of(client_namespace: Seq<char>, o: ListOptions) -> Seq<Seq<char>> {
    opt_param("ns"@, default_namespace_of(client_namespace, opt_view(o.namespace))) + opt_param(
        "q"@,
        opt_view(o.query),
    ) + limit_param(o.limit)
}

/// `GET` path of a listing or a search.
pub open spec fn list_path_of(prefix: Seq<char>, client_namespace: Seq<char>, o: ListOptions) -> Seq<
    char,
> {
    prefix + "/memories"@ + query_string(list_params_of(client_namespace, o))
}

pub fn list_path(prefix: &str, client_namespace: &str, options: &ListOptions) -> (r: String)
    ensures
        r@ == list_path_of(prefix@, client_namespace@, *options),
{
    let mut params: Vec<String> = Vec::new();
    proof {
        assert(strings_view(params@) =~= Seq::<Seq<char>>::empty());
    }
    let ns = default_namespace(client_namespace, &options.namespace);
    push_opt_param(&mut params, "ns", &ns);
    push_opt_param(&mut params, "q", &options.query);
    let ghost before = strings_view(params@);
    if let Some(n) = options.limit {
        let digits = decimal_string(n as u64);
        params.push(concat("limit=", digits.as_str()));
    }
    proof {
        assert(strings_view(params@) =~= before + limit_param(options.limit));
        assert(strings_view(params@) =~= list_params_of(client_namespace@, *options));
    }
    let mut path = concat(prefix, "/memories");
    let suffix = query_suffix(&params);
    path.append(suffix.as_str());
    path
}

/// Query parameters of an ingest: `ns` and `tag_prefix`, each when set.
pub open spec fn ingest_params_of(client_namespace: Seq<char>, o: IngestOptions) -> Seq<Seq<char>> {
    opt_param("ns"@, default_namespace_of(client_namespace, opt_view(o.namespace))) + opt_param(
        "tag_prefix"@,
        opt_view(o.tag_prefix),
    )
}

pub open spec fn ingest_path_of(prefix: Seq<char>, client_namespace: Seq<char>, o: IngestOptions) -> Seq<
    char,
> {
    prefix + "/ingest"@ + query_string(ingest_params_of(client_namespace, o))
}

pub fn ingest_path(prefix: &str, client_namespace: &str, options: &IngestOptions) -> (r: String)
    ensures
        r@ == ingest_path_of(prefix@, client_namespace@, *options),
{
    let mut params: Vec<String> = Vec::new();
    proof {
        assert(strings_view(params@) =~= Seq::<Seq<char>>::empty());
    }
    let ns = default_namespace(client_namespace, &options.namespace);
    push_opt_param(&mut params, "ns", &ns);
    push_opt_param(&mut params, "tag_prefix", &options.tag_prefix);
    proof {
        assert(strings_view(params@) =~= ingest_params_of(client_namespace@, *options));
    }
    let mut path = concat(prefix, "/ingest");
    let suffix = query_suffix(&params);
    path.append(suffix.as_str());
    path
}

/// The listing options the older `list_recent` call stands for.
pub fn list_recent_options(options: ListRecentOptions) -> (r: ListOptions)
    ensures
        opt_view(r.namespace) == opt_view(options.namespace),
        r.query is None,
        r.limit == options.n,
{
    ListOptions { namespace: options.namespace, query: None, limit: options.n }
}

/// Whether `c` occurs in `s`.
pub open spec fn has_char(s: Seq<char>, c: char) -> bool {
    exists|i: int| 0 <= i < s.len() && s[i] == c
}

proof fn lemma_has_char_concat(a: Seq<char>, b: Seq<char>, c: char)
    ensures
        has_char(a + b, c) <==> has_char(a, c) || has_char(b, c),
{
    if has_char(a + b, c) {
        let i = choose|i: int| 0 <= i < (a + b).len() && (a + b)[i] == c;
        if i >= a.len() {
            assert(b[i - a.len()] == c);
        }
    }
    if has_char(a, c) {
        let i = choose|i: int| 0 <= i < a.len() && a[i] == c;
        assert((a + b)[i] == c);
    }
    if has_char(b, c) {
        let i = choose|i: int| 0 <= i < b.len() && b[i] == c;
        assert((a + b)[a.len() + i] == c);
    }
}

proof fn lemma_url_encoded_no_delimiter(s: Seq<char>, c: char)
    requires
        is_url_delimiter(c),
    ensures
        !has_char(url_encoded(s), c),
{
    lemma_percent_encoded_no_delimiter(vstd::utf8::encode_utf8(s));
    if has_char(url_encoded(s), c) {
        let i = choose|i: int| 0 <= i < url_encoded(s).len() && url_encoded(s)[i] == c;
        assert(!is_url_delimiter(url_encoded(s)[i]));
    }
}

/// The workspace id fills exactly one path segment: whatever it holds,
/// nothing after `/v2/workspaces/` is a `/` or a `?`.
pub proof fn law_workspace_id_single_segment(workspace: Seq<char>)
    ensures
        workspace_prefix_of(workspace) == "/v2/workspaces/"@ + url_encoded(workspace),
        !has_char(url_encoded(workspace), '/'),
        !has_char(url_encoded(workspace), '?'),
{
    lemma_url_encoded_no_delimiter(workspace, '/');
    lemma_url_encoded_no_delimiter(workspace, '?');
}

/// A forget path carries a query string exactly when a namespace applies
/// (for a prefix without `?`, such as every workspace prefix).
pub proof fn law_forget_namespace_query(
    workspace: Seq<char>,
    memory_id: Seq<char>,
    client_namespace: Seq<char>,
    o: ForgetOptions,
)
    ensures
        has_char(forget_path_of(workspace_prefix_of(workspace), memory_id, client_namespace, o), '?')
            <==> default_namespace_of(client_namespace, opt_view(o.namespace)) is Some,
{
    let prefix = workspace_prefix_of(workspace);
    let lit = "/v2/workspaces/"@;
    let mem = "/memories/"@;
    reveal_strlit("/v2/workspaces/");
    reveal_strlit("/memories/");
    reveal_strlit("?");
    assert(!has_char(lit, '?'));
    assert(!has_char(mem, '?'));
    lemma_url_encoded_no_delimiter(workspace, '?');
    lemma_url_encoded_no_delimiter(memory_id, '?');
    lemma_has_char_concat(lit, url_encoded(workspace), '?');
    lemma_has_char_concat(prefix, mem, '?');
    lemma_has_char_concat(prefix + mem, url_encoded(memory_id), '?');
    let q = query_string(
        opt_param("namespace"@, default_namespace_of(client_namespace, opt_view(o.namespace))),
    );
    lemma_has_char_concat(prefix + mem + url_encoded(memory_id), q, '?');
    match default_namespace_of(client_namespace, opt_view(o.namespace)) {
        Some(ns) => {
            let params = seq!["namespace"@ + "="@ + url_encoded(ns)];
            assert(join_with(params, "&"@) == params[0]);
            assert(("?"@ + params[0])[0] == '?');
        },
        None => {
            assert(q =~= Seq::<char>::empty());
        },
    }
}


/// Looking a key up in a concatenation finds it in the first part, else in
/// the second.
pub broadcast proof fn lemma_lookup_concat(
    a: Seq<(Seq<char>, JsonV)>,
    b: Seq<(Seq<char>, JsonV)>,
    key: Seq<char>,
)
    ensures
        #[trigger] entries_lookup(a + b, key) == if entries_lookup(a, key) is Some {
            entries_lookup(a, key)
        } else {
            entries_lookup(b, key)
        },
    decreases a.len(),
{
    if a.len() == 0 {
        assert(a + b =~= b);
    } else {
        assert((a + b)[0] == a[0]);
        if a[0].0 != key {
            assert((a + b).drop_first() =~= a.drop_first() + b);
            lemma_lookup_concat(a.drop_first(), b, key);
        }
    }
}

pub broadcast proof fn lemma_value_entry_lookup(k: Seq<char>, v: Option<JsonV>, key: Seq<char>)
    ensures
        #[trigger] entries_lookup(value_entry(k, v), key) == if k == key {
            v
        } else {
            None
        },
{
    let e = value_entry(k, v);
    if v is Some {
        assert(e.len() == 1);
        assert(e[0] == (k, v->0));
        assert(e.drop_first() =~= Seq::<(Seq<char>, JsonV)>::empty());
        assert(entries_lookup(e.drop_first(), key) is None);
    } else {
        assert(e.len() == 0);
    }
}

/// Every recall option reaches the body under its own key exactly when it is
/// set, with its value; the retrieval extras are never sent unset.
pub proof fn law_recall_options_only_when_set(
    query: Seq<char>,
    client_namespace: Seq<char>,
    o: RecallOptions,
)
    ensures
        recall_body_of(query, client_namespace, o).get("query"@) == Some(JsonV::Text(query)),
        recall_body_of(query, client_namespace, o).get("namespace"@) == opt_text(
            default_namespace_of(client_namespace, opt_view(o.namespace)),
        ),
        recall_body_of(query, client_namespace, o).get("top_k"@) == opt_u32(o.top_k),
        recall_body_of(query, client_namespace, o).get("verbose"@) == opt_bool(o.verbose),
        recall_body_of(query, client_namespace, o).get("golden"@) == opt_bool(o.golden),
        recall_body_of(query, client_namespace, o).get("format"@) == opt_text(opt_view(o.format)),
        recall_body_of(query, client_namespace, o).get("snippet_chars"@) == opt_u64(
            o.snippet_chars,
        ),
        recall_body_of(query, client_namespace, o).get("adaptive"@) == opt_bool(o.adaptive),
        recall_body_of(query, client_namespace, o).get("margin"@) == opt_number(o.margin),
{
    broadcast use {lemma_lookup_concat, lemma_value_entry_lookup};

    reveal_strlit("query");
    reveal_strlit("namespace");
    reveal_strlit("top_k");
    reveal_strlit("verbose");
    reveal_strlit("golden");
    reveal_strlit("format");
    reveal_strlit("snippet_chars");
    reveal_strlit("adaptive");
    reveal_strlit("margin");
    assert("query"@[0] == 'q');
    assert("namespace"@[0] == 'n');
    assert("top_k"@[0] == 't');
    assert("verbose"@[0] == 'v');
    assert("golden"@[0] == 'g');
    assert("format"@[0] == 'f');
    assert("snippet_chars"@[0] == 's');
    assert("adaptive"@[0] == 'a');
    assert("margin"@[0] == 'm');
}

/// A remember body carries its text, and the namespace the call asks for;
/// when the call names none, the client's default namespace if it is not
/// empty; otherwise no namespace at all.
pub proof fn law_remember_namespace(text: Seq<char>, client_namespace: Seq<char>, o: RememberOptions)
    ensures
        remember_body_of(text, client_namespace, o).get("text"@) == Some(JsonV::Text(text)),
        o.namespace is Some ==> remember_body_of(text, client_namespace, o).get("namespace"@)
            == Some(JsonV::Text((o.namespace->0)@)),
        o.namespace is None && client_namespace.len() > 0 ==> remember_body_of(
            text,
            client_namespace,
            o,
        ).get("namespace"@) == Some(JsonV::Text(client_namespace)),
        o.namespace is None && client_namespace.len() == 0 ==> remember_body_of(
            text,
            client_namespace,
            o,
        ).get("namespace"@) is None,
{
    broadcast use {lemma_lookup_concat, lemma_value_entry_lookup};

    reveal_strlit("text");
    reveal_strlit("namespace");
    reveal_strlit("source");
    reveal_strlit("tags");
    assert("text"@[0] == 't');
    assert("namespace"@[0] == 'n');
    assert("source"@[0] == 's');
    assert("tags"@[0] == 't');
    let first = seq![("text"@, JsonV::Text(text))];
    assert(entries_lookup(first, "text"@) == Some(JsonV::Text(text)));
    assert(first.drop_first() =~= Seq::<(Seq<char>, JsonV)>::empty());
    assert(entries_lookup(first, "namespace"@) is None);
}

/// A recall body carries the namespace the call asks for; when the call
/// names none, the client's default namespace if it is not empty; otherwise
/// no namespace at all.
pub proof fn law_recall_namespace(query: Seq<char>, client_namespace: Seq<char>, o: RecallOptions)
    ensures
        o.namespace is Some ==> recall_body_of(query, client_namespace, o).get("namespace"@)
            == Some(JsonV::Text((o.namespace->0)@)),
        o.namespace is None && client_namespace.len() > 0 ==> recall_body_of(
            query,
            client_namespace,
            o,
        ).get("namespace"@) == Some(JsonV::Text(client_namespace)),
        o.namespace is None && client_namespace.len() == 0 ==> recall_body_of(
            query,
            client_namespace,
            o,
        ).get("namespace"@) is None,
{
    law_recall_options_only_when_set(query, client_namespace, o);
}

/// The sub-operations of an execute body (empty when there is no body).
pub open spec fn body_operations(body: Option<JsonV>) -> Seq<JsonV> {
    match body {
        Some(b) => match b.get("operations"@) {
            Some(JsonV::Array(ops)) => ops,
            _ => Seq::empty(),
        },
        None => Seq::empty(),
    }
}

/// The member `key` of the `args` of a sub-operation.
pub open spec fn op_arg(op: JsonV, key: Seq<char>) -> Option<JsonV> {
    match op.get("args"@) {
        Some(args) => args.get(key),
        None => None,
    }
}

proof fn lemma_batch_op(item: RememberItem, ns: Option<Seq<char>>, src: Option<Seq<char>>)
    ensures
        batch_op_of(item, ns, src).get("op"@) == Some(JsonV::Text("remember"@)),
        op_arg(batch_op_of(item, ns, src), "text"@) == Some(JsonV::Text(item.text@)),
        op_arg(batch_op_of(item, ns, src), "namespace"@) == opt_text(ns),
{
    broadcast use {lemma_lookup_concat, lemma_value_entry_lookup};

    reveal_strlit("op");
    reveal_strlit("args");
    reveal_strlit("text");
    reveal_strlit("namespace");
    reveal_strlit("source");
    reveal_strlit("tags");
    assert("op"@[0] == 'o');
    assert("args"@[0] == 'a');
    assert("text"@[0] == 't');
    assert("namespace"@[0] == 'n');
    assert("source"@[0] == 's');
    assert("tags"@[0] == 't');
    let args = batch_args_of(item, ns, src);
    let op = seq![("op"@, JsonV::Text("remember"@)), ("args"@, args)];
    assert("op"@ != "args"@);
    assert("text"@ != "namespace"@);
    assert(op.drop_first() =~= seq![("args"@, args)]);
    assert(entries_lookup(op.drop_first(), "args"@) == Some(args));
    assert(entries_lookup(op, "args"@) == entries_lookup(op.drop_first(), "args"@));
    let first = seq![("text"@, JsonV::Text(item.text@))];
    assert(first.drop_first() =~= Seq::<(Seq<char>, JsonV)>::empty());
    assert(entries_lookup(first.drop_first(), "namespace"@) is None);
    assert(entries_lookup(first, "namespace"@) is None);
}

/// A remember batch sends nothing for no items, and otherwise one `remember`
/// sub-operation per item, in order, each with that item's text and with the
/// namespace the call asks for; when the call names none, the client's
/// default namespace if it is not empty; otherwise no namespace at all.
pub proof fn law_remember_batch_namespace(
    items: Seq<RememberItem>,
    client_namespace: Seq<char>,
    o: RememberOptions,
)
    ensures
        remember_batch_body_of(items, client_namespace, o) is None <==> items.len() == 0,
        body_operations(remember_batch_body_of(items, client_namespace, o)).len() == items.len(),
        forall|k: int|
            0 <= k < items.len() ==> (#[trigger] body_operations(
                remember_batch_body_of(items, client_namespace, o),
            )[k]).get("op"@) == Some(JsonV::Text("remember"@)),
        forall|k: int|
            0 <= k < items.len() ==> op_arg(
                #[trigger] body_operations(remember_batch_body_of(items, client_namespace, o))[k],
                "text"@,
            ) == Some(JsonV::Text(items[k].text@)),
        o.namespace is Some ==> forall|k: int|
            0 <= k < items.len() ==> op_arg(
                #[trigger] body_operations(remember_batch_body_of(items, client_namespace, o))[k],
                "namespace"@,
            ) == Some(JsonV::Text((o.namespace->0)@)),
        o.namespace is None && client_namespace.len() > 0 ==> forall|k: int|
            0 <= k < items.len() ==> op_arg(
                #[trigger] body_operations(remember_batch_body_of(items, client_namespace, o))[k],
                "namespace"@,
            ) == Some(JsonV::Text(client_namespace)),
        o.namespace is None && client_namespace.len() == 0 ==> forall|k: int|
            0 <= k < items.len() ==> op_arg(
                #[trigger] body_operations(remember_batch_body_of(items, client_namespace, o))[k],
                "namespace"@,
            ) is None,
{
    broadcast use {lemma_lookup_concat, lemma_value_entry_lookup};

    if items.len() > 0 {
        let fallback = opt_view(o.source);
        let ns = default_namespace_of(client_namespace, opt_view(o.namespace));
        let ops = items.map_values(|it: RememberItem| batch_op_of(it, ns, fallback));
        reveal_strlit("operations");
        let entries = seq![("operations"@, JsonV::Array(ops))];
        assert(entries_lookup(entries, "operations"@) == Some(JsonV::Array(ops)));
        let body = remember_batch_body_of(items, client_namespace, o);
        assert(body_operations(body) == ops);
        assert forall|k: int| 0 <= k < items.len() implies {
            &&& (#[trigger] ops[k]).get("op"@) == Some(JsonV::Text("remember"@))
            &&& op_arg(ops[k], "text"@) == Some(JsonV::Text(items[k].text@))
            &&& op_arg(ops[k], "namespace"@) == opt_text(ns)
        } by {
            lemma_batch_op(items[k], ns, fallback);
        }
    }
}

/// `path` is `base`, then `?` and `param` as the first query parameter,
/// followed by the end of the path or by `&` and further parameters.
pub open spec fn first_param_is(path: Seq<char>, base: Seq<char>, param: Seq<char>) -> bool {
    let head = base + "?"@ + param;
    &&& head.len() <= path.len()
    &&& path.subrange(0, head.len() as int) == head
    &&& (path.len() == head.len() || path[head.len() as int] == '&')
}

proof fn lemma_join_with_first(parts: Seq<Seq<char>>, sep: Seq<char>)
    requires
        parts.len() >= 2,
    ensures
        join_with(parts, sep) == parts[0] + sep + join_with(parts.drop_first(), sep),
    decreases parts.len(),
{
    if parts.len() == 2 {
        assert(parts.drop_last().len() == 1);
        assert(parts.drop_first().len() == 1);
        assert(join_with(parts.drop_last(), sep) == parts[0]);
        assert(join_with(parts.drop_first(), sep) == parts[1]);
    } else {
        let init = parts.drop_last();
        lemma_join_with_first(init, sep);
        assert(init.drop_first() =~= parts.drop_first().drop_last());
        assert(parts.drop_first().last() == parts.last());
        assert(join_with(parts, sep) =~= parts[0] + sep + join_with(parts.drop_first(), sep));
    }
}

proof fn lemma_path_first_param(base: Seq<char>, params: Seq<Seq<char>>)
    requires
        params.len() >= 1,
    ensures
        first_param_is(base + query_string(params), base, params[0]),
{
    reveal_strlit("?");
    reveal_strlit("&");
    let path = base + query_string(params);
    let head = base + "?"@ + params[0];
    if params.len() == 1 {
        assert(join_with(params, "&"@) == params[0]);
        assert(path =~= head);
        assert(path.subrange(0, head.len() as int) =~= head);
    } else {
        lemma_join_with_first(params, "&"@);
        let rest = "&"@ + join_with(params.drop_first(), "&"@);
        assert(path =~= head + rest);
        assert(path.subrange(0, head.len() as int) =~= head);
        assert(path[head.len() as int] == rest[0]);
    }
}

/// A listing sends the namespace the call asks for as its first parameter
/// `ns`; when the call names none, the client's default namespace if it is
/// not empty; otherwise no `ns` parameter at all.
pub proof fn law_list_path_namespace(prefix: Seq<char>, client_namespace: Seq<char>, o: ListOptions)
    ensures
        o.namespace is Some ==> first_param_is(
            list_path_of(prefix, client_namespace, o),
            prefix + "/memories"@,
            "ns="@ + url_encoded((o.namespace->0)@),
        ),
        o.namespace is None && client_namespace.len() > 0 ==> first_param_is(
            list_path_of(prefix, client_namespace, o),
            prefix + "/memories"@,
            "ns="@ + url_encoded(client_namespace),
        ),
        o.namespace is None && client_namespace.len() == 0 ==> list_path_of(
            prefix,
            client_namespace,
            o,
        ) == prefix + "/memories"@ + query_string(
            opt_param("q"@, opt_view(o.query)) + limit_param(o.limit),
        ),
{
    reveal_strlit("ns");
    reveal_strlit("=");
    reveal_strlit("ns=");
    assert("ns"@ + "="@ =~= "ns="@);
    let params = list_params_of(client_namespace, o);
    let ns = default_namespace_of(client_namespace, opt_view(o.namespace));
    if ns is Some {
        assert(params[0] =~= "ns="@ + url_encoded(ns->0));
        lemma_path_first_param(prefix + "/memories"@, params);
    } else {
        assert(params =~= opt_param("q"@, opt_view(o.query)) + limit_param(o.limit));
    }
}

/// An ingest sends the namespace the call asks for as its first parameter
/// `ns`; when the call names none, the client's default namespace if it is
/// not empty; otherwise no `ns` parameter at all.
pub proof fn law_ingest_path_namespace(prefix: Seq<char>, client_namespace: Seq<char>, o: IngestOptions)
    ensures
        o.namespace is Some ==> first_param_is(
            ingest_path_of(prefix, client_namespace, o),
            prefix + "/ingest"@,
            "ns="@ + url_encoded((o.namespace->0)@),
        ),
        o.namespace is None && client_namespace.len() > 0 ==> first_param_is(
            ingest_path_of(prefix, client_namespace, o),
            prefix + "/ingest"@,
            "ns="@ + url_encoded(client_namespace),
        ),
        o.namespace is None && client_namespace.len() == 0 ==> ingest_path_of(
            prefix,
            client_namespace,
            o,
        ) == prefix + "/ingest"@ + query_string(opt_param("tag_prefix"@, opt_view(o.tag_prefix))),
{
    reveal_strlit("ns");
    reveal_strlit("=");
    reveal_strlit("ns=");
    assert("ns"@ + "="@ =~= "ns="@);
    let params = ingest_params_of(client_namespace, o);
    let ns = default_namespace_of(client_namespace, opt_view(o.namespace));
    if ns is Some {
        assert(params[0] =~= "ns="@ + url_encoded(ns->0));
        lemma_path_first_param(prefix + "/ingest"@, params);
    } else {
        assert(params =~= opt_param("tag_prefix"@, opt_view(o.tag_prefix)));
    }
}

/// A forget path is the memory's path with `?namespace=` and the namespace
/// the call asks for; when the call names none, the client's default
/// namespace if it is not empty; otherwise the memory's path alone.
pub proof fn law_forget_path_namespace(
    prefix: Seq<char>,
    memory_id: Seq<char>,
    client_namespace: Seq<char>,
    o: ForgetOptions,
)
    ensures
        o.namespace is Some ==> forget_path_of(prefix, memory_id, client_namespace, o) == prefix
            + "/memories/"@ + url_encoded(memory_id) + "?namespace="@ + url_encoded(
            (o.namespace->0)@,
        ),
        o.namespace is None && client_namespace.len() > 0 ==> forget_path_of(
            prefix,
            memory_id,
            client_namespace,
            o,
        ) == prefix + "/memories/"@ + url_encoded(memory_id) + "?namespace="@ + url_encoded(
            client_namespace,
        ),
        o.namespace is None && client_namespace.len() == 0 ==> forget_path_of(
            prefix,
            memory_id,
            client_namespace,
            o,
        ) == prefix + "/memories/"@ + url_encoded(memory_id),
{
    reveal_strlit("?");
    reveal_strlit("namespace");
    reveal_strlit("=");
    reveal_strlit("?namespace=");
    let ns = default_namespace_of(client_namespace, opt_view(o.namespace));
    let base = prefix + "/memories/"@ + url_encoded(memory_id);
    if ns is Some {
        let params = seq!["namespace"@ + "="@ + url_encoded(ns->0)];
        assert(join_with(params, "&"@) == params[0]);
        assert(base + query_string(params) =~= base + "?namespace="@ + url_encoded(ns->0));
    } else {
        assert(base + query_string(Seq::<Seq<char>>::empty()) =~= base);
    }
}

} // verus!
