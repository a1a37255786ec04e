use infolang::health::wrap_status;
use infolang::parse::{
    op_error_member, parse_execute_remember_batch, parse_list, parse_namespaces, parse_op_result,
    parse_recall, parse_remember,
};
use infolang::transport::{body_from_parse, decode_body, finish_response, header_i64, header_text, is_blank, request_url};
use infolang::{Json, JsonNumber, OpError};

fn text(s: &str) -> Json {
    Json::Text(s.to_string())
}

fn integer(n: i64) -> Json {
    if n >= 0 {
        Json::Number(JsonNumber::PosInt(n as u64))
    } else {
        Json::Number(JsonNumber::NegInt(n))
    }
}

fn float(x: f64) -> Json {
    Json::Number(JsonNumber::Float(x.to_bits()))
}

fn obj(entries: Vec<(&str, Json)>) -> Json {
    Json::Object(entries.into_iter().map(|(k, v)| (k.to_string(), v)).collect())
}

#[test]
fn parse_recall_maps_hits() {
    let data = obj(vec![
        ("namespace", text("docs")),
        ("latency_ms", float(12.5)),
        (
            "hits",
            Json::Array(vec![obj(vec![
                ("id", text("m1")),
                ("text", text("auth")),
                ("similarity", float(0.91)),
                ("tags", text("a,b")),
                ("source", text("notes")),
                ("timestamp", float(1000.0)),
            ])]),
        ),
    ]);
    let result = parse_recall(&data);
    assert_eq!(result.hits[0].id, "m1");
    assert_eq!(result.hits[0].text, "auth");
    assert_eq!(result.hits[0].tags.as_deref(), Some("a,b"));
    assert_eq!(result.hits[0].source.as_deref(), Some("notes"));
    assert_eq!(result.namespace.as_deref(), Some("docs"));
}

#[test]
fn recall_parses_verbose_hit_fields_and_weak() {
    let data = obj(vec![
        ("namespace", text("docs")),
        (
            "hits",
            Json::Array(vec![obj(vec![
                ("id", text("h1")),
                ("text", text("hit text")),
                ("tags", text("t1,t2")),
                ("similarity", float(0.5)),
                ("source", text("notes.md")),
                ("timestamp", float(1720000000.0)),
            ])]),
        ),
    ]);
    let hit = &parse_recall(&data).hits[0];
    assert_eq!(hit.id, "h1");
    assert_eq!(hit.tags.as_deref(), Some("t1,t2"));
    assert_eq!(hit.source.as_deref(), Some("notes.md"));
}

#[test]
fn recall_tolerates_missing_fields() {
    let data = obj(vec![("hits", Json::Array(vec![obj(vec![]), text("odd")]))]);
    let page = parse_recall(&data);
    assert_eq!(page.hits.len(), 2);
    assert_eq!(page.hits[0].id, "");
    assert_eq!(page.hits[1].text, "");
    assert_eq!(page.namespace, None);
    assert!(parse_recall(&Json::Null).hits.is_empty());
    assert!(parse_recall(&obj(vec![("hits", text("no"))])).hits.is_empty());
}

#[test]
fn parse_remember_reads_server_fields() {
    let result = parse_remember(&obj(vec![
        ("memory_id", text("m1")),
        ("namespace", text("docs")),
        ("stored", Json::Bool(false)),
        ("deduplicated", Json::Bool(true)),
        ("deduped_against", text("m0")),
        ("total_memories", integer(4)),
    ]));
    assert_eq!(result.memory_id.as_deref(), Some("m1"));
    assert_eq!(result.stored, Some(false));
    assert_eq!(result.deduplicated, Some(true));
    assert_eq!(result.deduped_against.as_deref(), Some("m0"));
    assert_eq!(result.total_memories, Some(4));
    assert_eq!(
        parse_remember(&obj(vec![("id", text("m2")), ("deduplicated", Json::Bool(false))]))
            .deduplicated,
        None
    );
}

#[test]
fn remember_prefers_id_over_memory_id() {
    let result = parse_remember(&obj(vec![("id", text("a")), ("memory_id", text("b"))]));
    assert_eq!(result.memory_id.as_deref(), Some("a"));
    let result = parse_remember(&obj(vec![("id", integer(3)), ("memory_id", text("b"))]));
    assert_eq!(result.memory_id.as_deref(), Some("b"));
    assert_eq!(parse_remember(&obj(vec![("total_memories", float(2.0))])).total_memories, None);
}

#[test]
fn parse_namespaces_tolerates_bare_strings() {
    let out = parse_namespaces(&obj(vec![(
        "namespaces",
        Json::Array(vec![
            obj(vec![("namespace", text("docs")), ("memories", integer(3)), ("chunks", integer(9))]),
            text("plain"),
        ]),
    )]));
    assert_eq!(out.len(), 2);
    assert_eq!(out[0].namespace, "docs");
    assert_eq!(out[0].memories, Some(3));
    assert_eq!(out[0].chunks, Some(9));
    assert_eq!(out[1].namespace, "plain");
    assert_eq!(out[1].memories, None);
}

#[test]
fn parse_execute_remember_batch_maps_sub_payloads() {
    let out = parse_execute_remember_batch(&obj(vec![
        ("ok", Json::Bool(true)),
        (
            "payload",
            obj(vec![(
                "results",
                Json::Array(vec![
                    obj(vec![
                        ("ok", Json::Bool(true)),
                        ("payload", obj(vec![("id", text("a")), ("stored", Json::Bool(true))])),
                    ]),
                    obj(vec![
                        ("ok", Json::Bool(true)),
                        ("payload", obj(vec![("id", text("b")), ("stored", Json::Bool(true))])),
                    ]),
                ]),
            )]),
        ),
    ]));
    assert_eq!(out.len(), 2);
    assert_eq!(out[0].memory_id.as_deref(), Some("a"));
    assert_eq!(out[1].memory_id.as_deref(), Some("b"));
}

#[test]
fn batch_without_payload_is_empty_and_missing_sub_payload_is_blank() {
    assert!(parse_execute_remember_batch(&obj(vec![("ok", Json::Bool(false))])).is_empty());
    let out = parse_execute_remember_batch(&obj(vec![(
        "payload",
        obj(vec![("results", Json::Array(vec![obj(vec![("ok", Json::Bool(false))])]))]),
    )]));
    assert_eq!(out.len(), 1);
    assert_eq!(out[0].memory_id, None);
}

#[test]
fn parse_op_result_reads_error() {
    let data = obj(vec![
        ("ok", Json::Bool(false)),
        (
            "error",
            obj(vec![
                ("code", text("capability_required")),
                ("message", text("no")),
                ("capability", text("stats")),
            ]),
        ),
    ]);
    assert!(op_error_member(&data).is_some());
    // What the `error` member above decodes to.
    let decoded = OpError {
        code: "capability_required".into(),
        message: "no".into(),
        capability: Some("stats".into()),
    };
    let result = parse_op_result(&data, Some(decoded));
    assert!(!result.ok);
    let err = result.error.expect("error");
    assert_eq!(err.code, "capability_required");
    assert_eq!(err.capability.as_deref(), Some("stats"));
}

#[test]
fn op_result_payload_and_null_members() {
    let data = obj(vec![
        ("ok", Json::Bool(true)),
        ("payload", obj(vec![("total", integer(1))])),
        ("error", Json::Null),
    ]);
    assert!(op_error_member(&data).is_none());
    let stray = OpError::default();
    let result = parse_op_result(&data, Some(stray));
    assert!(result.ok);
    assert_eq!(result.payload, Some(obj(vec![("total", integer(1))])));
    assert_eq!(result.error, None);
    let result = parse_op_result(&obj(vec![("payload", Json::Null)]), None);
    assert!(!result.ok);
    assert_eq!(result.payload, None);
}

#[test]
fn list_page_keeps_items_and_cursor() {
    let first = obj(vec![("id", text("m1")), ("score", float(0.93))]);
    let second = obj(vec![("id", text("m2"))]);
    let page = parse_list(&obj(vec![
        ("memories", Json::Array(vec![first.clone(), second.clone()])),
        ("nextCursor", text("cur-2")),
    ]));
    assert_eq!(page.items, vec![first, second]);
    assert_eq!(page.next_cursor.as_deref(), Some("cur-2"));
    let last = parse_list(&obj(vec![("memories", Json::Array(vec![]))]));
    assert!(last.items.is_empty());
    assert_eq!(last.next_cursor, None);
}

#[test]
fn healthz_and_readyz() {
    let status = obj(vec![("status", text("ok"))]);
    assert_eq!(wrap_status(status.clone()), status);
    assert_eq!(wrap_status(text("ok")), obj(vec![("status", text("ok"))]));
    assert_eq!(wrap_status(Json::Null), obj(vec![("status", Json::Null)]));
}

#[test]
fn decode_body_handles_empty() {
    assert_eq!(decode_body(b"   "), Json::Null);
    assert_eq!(decode_body(b""), Json::Null);
    assert!(is_blank(b"   "));
    assert!(is_blank(b"\t\r\n\x0c"));
    assert!(!is_blank(b"{\"ok\":true}"));
    assert!(!is_blank(b"\x0b"));
}

#[test]
fn decode_body_parses_json() {
    let value = decode_body(br#"{"ok":true}"#);
    assert_eq!(value.get("ok"), Some(&Json::Bool(true)));
}

#[test]
fn decode_body_reads_numbers_arrays_and_text() {
    let value = decode_body(br#"{"a":[1,-2,0.5,"x",null],"b":{"c":false}}"#);
    assert_eq!(
        value.get("a"),
        Some(&Json::Array(vec![integer(1), integer(-2), float(0.5), text("x"), Json::Null]))
    );
    assert_eq!(value.get("b"), Some(&obj(vec![("c", Json::Bool(false))])));
    // Not JSON: kept as its text, invalid UTF-8 replaced.
    assert_eq!(decode_body(b"bad gateway"), text("bad gateway"));
    assert_eq!(decode_body(b"x\xffy"), text("x\u{fffd}y"));
}

#[test]
fn parse_metering_reads_headers() {
    assert_eq!(header_text(Some("req-1")), "req-1");
    assert_eq!(header_text(None), "");
    assert_eq!(header_i64(Some("12")), Some(12));
    assert_eq!(header_i64(Some("3")), Some(3));
    assert_eq!(header_i64(Some("7")), Some(7));
    assert_eq!(header_i64(Some("0.5")), None);
    assert_eq!(header_i64(None), None);
}

#[test]
fn error_envelope_renders_code_message() {
    let body = obj(vec![(
        "error",
        obj(vec![("code", text("not_found")), ("message", text("memory missing"))]),
    )]);
    let err = finish_response(404, body, "req-404".to_string()).unwrap_err();
    assert!(err.is_not_found());
    assert_eq!(err.status, 404);
    assert_eq!(err.message, "not_found: memory missing");
    assert_eq!(err.code.as_deref(), Some("not_found"));
    assert_eq!(err.request_id, "req-404");
}

#[test]
fn flat_error_body_still_maps() {
    let err = finish_response(422, obj(vec![("detail", text("bad tags"))]), String::new())
        .unwrap_err();
    assert!(err.is_validation());
    assert_eq!(err.message, "bad tags");
    assert_eq!(err.code, None);
}

#[test]
fn success_passes_body_through() {
    let body = obj(vec![("hits", Json::Array(vec![]))]);
    assert_eq!(finish_response(200, body.clone(), String::new()), Ok(body.clone()));
    assert_eq!(finish_response(204, Json::Null, String::new()), Ok(Json::Null));
    assert!(finish_response(300, Json::Null, String::new()).is_err());
}

#[test]
fn request_url_joins_base_and_path() {
    assert_eq!(request_url("https://api.infolang.ai/", "/healthz"), "https://api.infolang.ai/healthz");
    assert_eq!(
        request_url("http://127.0.0.1:9", "/v2/whoami"),
        "http://127.0.0.1:9/v2/whoami"
    );
}

#[test]
fn namespaces_tolerates_bare_strings() {
    let data = obj(vec![(
        "namespaces",
        Json::Array(vec![
            obj(vec![("namespace", text("docs")), ("memories", integer(3)), ("chunks", integer(9))]),
            text("plain"),
        ]),
    )]);
    let namespaces = parse_namespaces(&data);
    assert_eq!(namespaces.len(), 2);
    assert_eq!(namespaces[0].namespace, "docs");
    assert_eq!(namespaces[0].memories, Some(3));
    assert_eq!(namespaces[0].chunks, Some(9));
    assert_eq!(namespaces[1].namespace, "plain");
    assert_eq!(namespaces[1].memories, None);
}

#[test]
fn stats_parses_op_result_error() {
    let data = obj(vec![
        ("ok", Json::Bool(false)),
        (
            "error",
            obj(vec![
                ("code", text("capability_required")),
                ("message", text("no")),
                ("capability", text("stats")),
            ]),
        ),
    ]);
    assert!(op_error_member(&data).is_some());
    let decoded = OpError {
        code: "capability_required".to_string(),
        message: "no".to_string(),
        capability: Some("stats".to_string()),
    };
    let result = parse_op_result(&data, Some(decoded));
    assert!(!result.ok);
    let err = result.error.expect("op error");
    assert_eq!(err.code, "capability_required");
    assert_eq!(err.capability.as_deref(), Some("stats"));
}

#[test]
fn lane_not_supported_403_is_authentication() {
    let body = obj(vec![(
        "error",
        obj(vec![
            ("code", text("lane_not_supported")),
            ("message", text("session lane cannot use v2")),
        ]),
    )]);
    let api = finish_response(403, body, String::new()).unwrap_err();
    assert_eq!(api.code.as_deref(), Some("lane_not_supported"));
    let err = infolang::Error::Api(api);
    assert!(err.is_authentication());
}

#[test]
fn rate_limit_exposes_retry_after() {
    // With no retries left a 429 is handed back as the typed error.
    let action = infolang::retry::decide(0, 0, infolang::AttemptOutcome::Response(429));
    assert_eq!(action, infolang::RetryAction::Finish);
    let body = obj(vec![(
        "error",
        obj(vec![("code", text("rate_limited")), ("message", text("slow down"))]),
    )]);
    let api = finish_response(429, body, String::new()).unwrap_err();
    assert_eq!(api.code.as_deref(), Some("rate_limited"));
    assert_eq!(api.message, "rate_limited: slow down");
    let err = infolang::Error::Api(api);
    assert!(err.is_rate_limit());
}

#[test]
fn overage_metering_header_is_parsed() {
    assert_eq!(header_i64(Some("3")), Some(3));
    assert_eq!(header_i64(Some("12")), Some(12));
    assert_eq!(header_i64(Some("-4")), Some(-4));
    assert_eq!(header_i64(Some("+5")), Some(5));
    assert_eq!(header_i64(Some("")), None);
    assert_eq!(header_i64(Some("9223372036854775808")), None);
}

#[test]
fn body_from_parse_keeps_document_or_text() {
    let doc = obj(vec![("ok", Json::Bool(true))]);
    assert_eq!(body_from_parse(b"{\"ok\":true}", Some(doc.clone())), doc);
    assert_eq!(body_from_parse(b"upstream timeout", None), text("upstream timeout"));
    assert_eq!(body_from_parse(b"caf\xc3\xa9", None), text("caf\u{e9}"));
    assert_eq!(body_from_parse(b"\xff", None), text("\u{fffd}"));
}
