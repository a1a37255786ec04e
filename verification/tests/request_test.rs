use infolang::request::{
    default_namespace, encode_body, endpoint, execute_body, forget_path, ingest_path,
    investigate_options, list_path, list_recent_options, recall_body, remember_batch_body,
    remember_body, similarity_body, workspace_prefix,
};
use infolang::{
    Credential, ApiKeyAuth, ForgetOptions, IngestOptions, InvestigateOptions, Json, JsonNumber,
    ListOptions, ListRecentOptions, Operation, RecallOptions, RememberItem, RememberOptions,
    default_user_agent,
};

fn text(s: &str) -> Json {
    Json::Text(s.to_string())
}

fn uint(n: u64) -> Json {
    Json::Number(JsonNumber::PosInt(n))
}

fn obj(entries: Vec<(&str, Json)>) -> Json {
    Json::Object(entries.into_iter().map(|(k, v)| (k.to_string(), v)).collect())
}

fn texts(items: &[&str]) -> Json {
    Json::Array(items.iter().map(|s| text(s)).collect())
}

#[test]
fn investigate_sends_recall_with_top_k_and_headers() {
    let options = investigate_options(InvestigateOptions::default());
    let body = recall_body("auth middleware", "docs", &options);
    assert_eq!(
        body,
        obj(vec![
            ("query", text("auth middleware")),
            ("namespace", text("docs")),
            ("top_k", uint(5)),
        ])
    );
    let credential = Credential::ApiKey(ApiKeyAuth::new("il_live_test"));
    assert_eq!(credential.authorization(), "Bearer il_live_test");
    assert_eq!(default_user_agent(), "infolang-rust/0.3.0");
    assert_eq!(endpoint(&workspace_prefix("ws-123"), "/recall"), "/v2/workspaces/ws-123/recall");
}

#[test]
fn recall_serializes_extras_only_when_some() {
    let options = RecallOptions {
        top_k: Some(2),
        verbose: Some(true),
        golden: Some(true),
        format: Some("snippet".into()),
        snippet_chars: Some(240),
        adaptive: Some(true),
        margin: Some(JsonNumber::Float(0.07f64.to_bits())),
        ..Default::default()
    };
    assert_eq!(
        recall_body("q", "docs", &options),
        obj(vec![
            ("query", text("q")),
            ("namespace", text("docs")),
            ("top_k", uint(2)),
            ("verbose", Json::Bool(true)),
            ("golden", Json::Bool(true)),
            ("format", text("snippet")),
            ("snippet_chars", uint(240)),
            ("adaptive", Json::Bool(true)),
            ("margin", Json::Number(JsonNumber::Float(0.07f64.to_bits()))),
        ])
    );
}

#[test]
fn recall_omits_extras_when_none() {
    assert_eq!(
        recall_body("q", "docs", &RecallOptions::default()),
        obj(vec![("query", text("q")), ("namespace", text("docs"))])
    );
    // No namespace at all when neither the call nor the client names one.
    assert_eq!(recall_body("q", "", &RecallOptions::default()), obj(vec![("query", text("q"))]));
}

#[test]
fn workspace_id_is_percent_encoded_in_paths() {
    assert_eq!(
        endpoint(&workspace_prefix("ws/1"), "/recall"),
        "/v2/workspaces/ws%2F1/recall"
    );
}

#[test]
fn remember_sends_tags_array_and_parses_dedup_fields() {
    let options = RememberOptions {
        source: Some("test".into()),
        tags: Some(vec!["a".into(), "b, c".into()]),
        ..Default::default()
    };
    assert_eq!(
        remember_body("note", "docs", &options),
        obj(vec![
            ("text", text("note")),
            ("namespace", text("docs")),
            ("source", text("test")),
            ("tags", texts(&["a", "b", "c"])),
        ])
    );
}

#[test]
fn forget_sends_namespace_query() {
    let path = forget_path(&workspace_prefix("ws-123"), "mem-1", "docs", &ForgetOptions::default());
    assert_eq!(path, "/v2/workspaces/ws-123/memories/mem-1?namespace=docs");
}

#[test]
fn forget_omits_namespace_when_unset() {
    let path =
        forget_path(&workspace_prefix("ws-123"), "mem-2", "", &ForgetOptions { namespace: None });
    assert_eq!(path, "/v2/workspaces/ws-123/memories/mem-2");
}

#[test]
fn forget_encodes_id_and_namespace() {
    let options = ForgetOptions { namespace: Some("a b".into()) };
    let path = forget_path("/v2/workspaces/w", "m/1?x", "docs", &options);
    assert_eq!(path, "/v2/workspaces/w/memories/m%2F1%3Fx?namespace=a%20b");
}

#[test]
fn list_builds_query_and_parses_page() {
    let options = ListOptions { query: Some("auth".into()), limit: Some(2), ..Default::default() };
    assert_eq!(
        list_path(&workspace_prefix("ws-123"), "docs", &options),
        "/v2/workspaces/ws-123/memories?ns=docs&q=auth&limit=2"
    );
}

#[test]
fn list_without_params_has_no_query() {
    assert_eq!(list_path("/p", "", &ListOptions::default()), "/p/memories");
    let options = ListOptions { limit: Some(0), ..Default::default() };
    assert_eq!(list_path("/p", "", &options), "/p/memories?limit=0");
}

#[test]
fn list_recent_deprecated_wraps_list() {
    let options = list_recent_options(ListRecentOptions { n: Some(1), ..Default::default() });
    assert_eq!(options.limit, Some(1));
    assert_eq!(options.query, None);
    assert_eq!(
        list_path(&workspace_prefix("ws-123"), "docs", &options),
        "/v2/workspaces/ws-123/memories?ns=docs&limit=1"
    );
}

#[test]
fn ingest_sends_zip_bytes_with_content_type_and_query() {
    let options = IngestOptions { tag_prefix: Some("repo".into()), ..Default::default() };
    assert_eq!(
        ingest_path(&workspace_prefix("ws-123"), "docs", &options),
        "/v2/workspaces/ws-123/ingest?ns=docs&tag_prefix=repo"
    );
}

#[test]
fn ingest_files_sends_multipart_parts() {
    assert_eq!(
        ingest_path(&workspace_prefix("ws-123"), "docs", &IngestOptions::default()),
        "/v2/workspaces/ws-123/ingest?ns=docs"
    );
    assert_eq!(ingest_path("/p", "", &IngestOptions::default()), "/p/ingest");
}

#[test]
fn encode_and_similarity_post_expected_bodies() {
    assert_eq!(encode_body("hi"), obj(vec![("text", text("hi"))]));
    assert_eq!(
        similarity_body("a", "b"),
        obj(vec![("text1", text("a")), ("text2", text("b"))])
    );
}

#[test]
fn execute_sends_simple_operations_body_and_parses_op_result() {
    let ops = vec![Operation { op: "stats".into(), args: None, select: None }];
    assert_eq!(
        execute_body(&ops),
        obj(vec![("operations", Json::Array(vec![obj(vec![("op", text("stats"))])]))])
    );
    let ops = vec![Operation {
        op: "recall".into(),
        args: Some(obj(vec![("query", text("q"))])),
        select: Some(vec!["hits".into()]),
    }];
    assert_eq!(
        execute_body(&ops),
        obj(vec![(
            "operations",
            Json::Array(vec![obj(vec![
                ("op", text("recall")),
                ("args", obj(vec![("query", text("q"))])),
                ("select", texts(&["hits"])),
            ])])
        )])
    );
}

#[test]
fn remember_batch_builds_remember_sub_ops() {
    let items = vec![
        RememberItem { text: "one".into(), tags: None, source: None },
        RememberItem {
            text: "two".into(),
            tags: Some(vec!["tag, extra".into()]),
            source: Some("own".into()),
        },
    ];
    let options = RememberOptions { source: Some("fallback".into()), ..Default::default() };
    let body = remember_batch_body(&items, "docs", &options).expect("body");
    assert_eq!(
        body,
        obj(vec![(
            "operations",
            Json::Array(vec![
                obj(vec![
                    ("op", text("remember")),
                    (
                        "args",
                        obj(vec![
                            ("text", text("one")),
                            ("source", text("fallback")),
                            ("namespace", text("docs")),
                        ])
                    ),
                ]),
                obj(vec![
                    ("op", text("remember")),
                    (
                        "args",
                        obj(vec![
                            ("text", text("two")),
                            ("source", text("own")),
                            ("tags", texts(&["tag", "extra"])),
                            ("namespace", text("docs")),
                        ])
                    ),
                ]),
            ])
        )])
    );
}

#[test]
fn remember_batch_empty_short_circuits() {
    assert_eq!(remember_batch_body(&[], "docs", &RememberOptions::default()), None);
}

#[test]
fn call_namespace_beats_client_namespace() {
    assert_eq!(default_namespace("docs", &Some("other".into())), Some("other".into()));
    assert_eq!(default_namespace("docs", &None), Some("docs".into()));
    assert_eq!(default_namespace("", &None), None);
    assert_eq!(default_namespace("docs", &Some(String::new())), Some(String::new()));
}

#[test]
fn non_finite_margin_is_sent_as_null() {
    for x in [f64::NAN, f64::INFINITY, f64::NEG_INFINITY] {
        let options = RecallOptions {
            margin: Some(JsonNumber::Float(x.to_bits())),
            ..Default::default()
        };
        assert_eq!(
            recall_body("q", "", &options),
            obj(vec![("query", text("q")), ("margin", Json::Null)])
        );
    }
    // Finite doubles, the largest included, stay numbers.
    let options = RecallOptions {
        margin: Some(JsonNumber::Float(f64::MAX.to_bits())),
        ..Default::default()
    };
    assert_eq!(
        recall_body("q", "", &options),
        obj(vec![("query", text("q")), ("margin", Json::Number(JsonNumber::Float(f64::MAX.to_bits())))])
    );
}
