use infolang::error::{api_error_from_response, error_code, message_from_body};
use infolang::{ApiError, ConfigError, ConnectionError, Error, Json};

fn text(s: &str) -> Json {
    Json::Text(s.to_string())
}

fn obj(entries: Vec<(&str, Json)>) -> Json {
    Json::Object(entries.into_iter().map(|(k, v)| (k.to_string(), v)).collect())
}

fn empty() -> Json {
    obj(vec![])
}

#[test]
fn message_from_body_reads_common_keys() {
    assert_eq!(
        message_from_body(&obj(vec![("error", text("boom"))])),
        Some("boom".into())
    );
    assert_eq!(message_from_body(&text("plain")), Some("plain".into()));
    assert_eq!(
        message_from_body(&obj(vec![("detail", text("oops"))])),
        Some("oops".into())
    );
}

#[test]
fn message_from_body_reads_v2_envelope() {
    assert_eq!(
        message_from_body(&obj(vec![(
            "error",
            obj(vec![("code", text("not_found")), ("message", text("missing"))])
        )])),
        Some("not_found: missing".into())
    );
    assert_eq!(
        message_from_body(&obj(vec![("error", obj(vec![("message", text("just message"))]))])),
        Some("just message".into())
    );
    assert_eq!(
        message_from_body(&obj(vec![("error", obj(vec![("code", text("just_code"))]))])),
        Some("just_code".into())
    );
}

#[test]
fn error_code_extracted() {
    let err = api_error_from_response(
        403,
        obj(vec![(
            "error",
            obj(vec![("code", text("lane_not_supported")), ("message", text("nope"))]),
        )]),
        String::new(),
    );
    assert_eq!(err.code.as_deref(), Some("lane_not_supported"));
    assert_eq!(err.message, "lane_not_supported: nope");
    assert!(err.is_authentication());
}

#[test]
fn api_error_classifiers() {
    let err = api_error_from_response(401, empty(), String::new());
    assert!(err.is_authentication());
    assert!(api_error_from_response(404, empty(), String::new()).is_not_found());
    assert!(api_error_from_response(422, empty(), String::new()).is_validation());
    assert!(api_error_from_response(429, empty(), String::new()).is_rate_limit());
    assert!(api_error_from_response(500, empty(), String::new()).is_server());
}

#[test]
fn top_level_error_helpers() {
    let err = Error::Api(api_error_from_response(404, empty(), String::new()));
    assert!(err.is_not_found());
}

#[test]
fn top_level_error_rate_limit_and_server() {
    let rate = Error::Api(api_error_from_response(429, empty(), String::new()));
    assert!(rate.is_rate_limit());
    let server = Error::Api(api_error_from_response(500, empty(), String::new()));
    assert!(server.is_server());
    let validation = Error::Api(api_error_from_response(422, empty(), String::new()));
    assert!(validation.is_validation());
}

#[test]
fn message_falls_back_to_status_text() {
    let err = api_error_from_response(502, Json::Null, "req-9".to_string());
    assert_eq!(err.message, "request failed with status 502");
    assert_eq!(err.code, None);
    assert_eq!(err.request_id, "req-9");
    assert_eq!(err.body, Json::Null);
}

#[test]
fn empty_strings_are_not_messages() {
    assert_eq!(message_from_body(&text("")), None);
    assert_eq!(
        message_from_body(&obj(vec![("error", text("")), ("message", text("second"))])),
        Some("second".into())
    );
    assert_eq!(
        message_from_body(&obj(vec![("error", obj(vec![])), ("detail", text("third"))])),
        Some("third".into())
    );
    assert_eq!(message_from_body(&Json::Null), None);
    assert_eq!(message_from_body(&obj(vec![("message", Json::Bool(true))])), None);
}

#[test]
fn error_code_needs_nested_object() {
    assert_eq!(error_code(&obj(vec![("error", text("flat"))])), None);
    assert_eq!(error_code(&obj(vec![("error", obj(vec![("code", Json::Null)]))])), None);
    assert_eq!(
        error_code(&obj(vec![("error", obj(vec![("code", text("c"))]))])),
        Some("c".to_string())
    );
}

#[test]
fn lane_not_supported_403_and_401_are_authentication() {
    let forbidden = ApiError {
        status: 403,
        message: String::new(),
        code: Some("lane_not_supported".into()),
        body: Json::Null,
        request_id: String::new(),
    };
    assert!(forbidden.is_authentication());
    assert!(!forbidden.is_validation());
    assert!(!forbidden.is_server());
    let bad_request = api_error_from_response(400, empty(), String::new());
    assert!(bad_request.is_validation());
    assert!(!bad_request.is_not_found());
    assert!(api_error_from_response(503, empty(), String::new()).is_server());
    assert!(!api_error_from_response(499, empty(), String::new()).is_server());
}

#[test]
fn non_api_errors_classify_as_nothing() {
    let config = Error::Config(ConfigError { message: "x".into() });
    assert!(!config.is_authentication());
    assert!(!config.is_not_found());
    assert!(!config.is_validation());
    assert!(!config.is_rate_limit());
    assert!(!config.is_server());
    let connection = Error::Connection(ConnectionError { message: "timeout".into() });
    assert!(!connection.is_server());
    assert!(!connection.is_rate_limit());
}
