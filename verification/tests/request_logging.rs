use pezzottify::request_logging::body_log_plan;
use pezzottify::request_logging::format_loggable_body;
use pezzottify::request_logging::format_safe_headers;
use pezzottify::request_logging::is_authentication_path;
use pezzottify::request_logging::is_json_content_type;
use pezzottify::request_logging::is_report_path;
use pezzottify::request_logging::is_sensitive_json_key;
use pezzottify::request_logging::parse_content_length;
use pezzottify::request_logging::redact_json;
use pezzottify::request_logging::BodyLogPlan;
use pezzottify::request_logging::ContentLength;
use pezzottify::request_logging::HeaderSide;
use pezzottify::request_logging::JsonValue;
use pezzottify::request_logging::LoggableBody;
use pezzottify::request_logging::Omission;
use pezzottify::request_logging::RequestsLoggingLevel;

fn to_json_value(value: serde_json::Value) -> JsonValue {
    match value {
        serde_json::Value::Null => JsonValue::Null,
        serde_json::Value::Bool(b) => JsonValue::Boolean(b),
        serde_json::Value::Number(n) => JsonValue::Number(n.to_string()),
        serde_json::Value::String(s) => JsonValue::Text(s),
        serde_json::Value::Array(items) => {
            JsonValue::Array(items.into_iter().map(to_json_value).collect())
        }
        serde_json::Value::Object(fields) => JsonValue::Object(
            fields
                .into_iter()
                .map(|(k, v)| (k, to_json_value(v)))
                .collect(),
        ),
    }
}

fn to_serde(value: JsonValue) -> serde_json::Value {
    match value {
        JsonValue::Null => serde_json::Value::Null,
        JsonValue::Boolean(b) => serde_json::Value::Bool(b),
        JsonValue::Number(n) => serde_json::from_str(&n).unwrap(),
        JsonValue::Text(s) => serde_json::Value::String(s),
        JsonValue::Array(items) => serde_json::Value::Array(items.into_iter().map(to_serde).collect()),
        JsonValue::Object(fields) => {
            let mut map = serde_json::Map::new();
            for (k, v) in fields {
                map.insert(k, to_serde(v));
            }
            serde_json::Value::Object(map)
        }
    }
}

/// What the middleware writes for a body: the omission notice, or the redacted JSON.
fn render(path: &str, content_type: Option<&str>, bytes: &[u8]) -> String {
    let parsed = serde_json::from_slice::<serde_json::Value>(bytes)
        .ok()
        .map(to_json_value);
    match format_loggable_body(path, content_type, parsed) {
        LoggableBody::Omitted(o) => o.message().to_string(),
        LoggableBody::Redacted(v) => serde_json::to_string(&to_serde(v)).unwrap(),
    }
}

#[test]
fn report_bodies_are_never_loggable() {
    for path in [
        "/v1/reports",
        "/v1/reports/id/attachments/id",
        "/v1/admin/reports/settings",
        "/v1/user/bug-report",
        "/v1/admin/bug-reports",
        "/v1/admin/bug-report/id",
    ] {
        assert_eq!(
            render(path, Some("application/json"), br#"{"description":"private chat"}"#),
            "[omitted: report endpoint]"
        );
        assert_eq!(render(path, None, b"private chat"), "[omitted: report endpoint]");
    }
}

#[test]
fn level_ordering() {
    let none = RequestsLoggingLevel::Off;

    assert!(none < RequestsLoggingLevel::Headers);
    assert!(RequestsLoggingLevel::Body > RequestsLoggingLevel::Off);
}

#[test]
fn request_headers_are_allowlisted_and_credentials_are_not_rendered() {
    let headers = vec![
        ("content-type".to_string(), Some("application/json".to_string())),
        ("authorization".to_string(), Some("Bearer sentinel-access-token".to_string())),
        ("cookie".to_string(), Some("session_token=sentinel-cookie".to_string())),
        ("x-unexpected-secret".to_string(), Some("sentinel-custom-secret".to_string())),
    ];

    let rendered = format_safe_headers(&headers, HeaderSide::Request);

    assert!(rendered.contains("content-type: application/json"));
    assert!(!rendered.contains("sentinel-access-token"));
    assert!(!rendered.contains("sentinel-cookie"));
    assert!(!rendered.contains("sentinel-custom-secret"));
    assert!(!rendered.contains("authorization"));
    assert!(!rendered.contains("cookie"));
}

#[test]
fn response_headers_are_allowlisted_and_session_cookie_is_not_rendered() {
    let headers = vec![
        ("content-length".to_string(), Some("42".to_string())),
        (
            "set-cookie".to_string(),
            Some("session_token=sentinel-session-token; HttpOnly".to_string()),
        ),
    ];

    let rendered = format_safe_headers(&headers, HeaderSide::Response);

    assert!(rendered.contains("content-length: 42"));
    assert!(!rendered.contains("sentinel-session-token"));
    assert!(!rendered.contains("set-cookie"));
}

#[test]
fn authentication_bodies_are_always_omitted() {
    let body = br#"{"user_handle":"alice","password":"sentinel-password"}"#;

    let rendered = render("/v1/auth/login", Some("application/json"), body);

    assert_eq!(rendered, "[omitted: authentication endpoint]");
    assert!(!rendered.contains("sentinel-password"));
    assert!(is_authentication_path("/v1/auth/oidc/callback"));
    assert!(is_authentication_path("/v1/admin/users/alice/password"));
}

#[test]
fn sensitive_fields_are_recursively_redacted_from_other_json_bodies() {
    let body = br#"{
        "name":"safe-name",
        "password":"sentinel-password",
        "nested":{"access_token":"sentinel-access-token"},
        "items":[{"clientSecret":"sentinel-client-secret"}],
        "api-key":"sentinel-api-key"
    }"#;

    let rendered = render("/v1/content/batch", Some("application/json; charset=utf-8"), body);

    assert!(rendered.contains("safe-name"));
    assert!(rendered.contains("[REDACTED]"));
    assert!(!rendered.contains("sentinel-password"));
    assert!(!rendered.contains("sentinel-access-token"));
    assert!(!rendered.contains("sentinel-client-secret"));
    assert!(!rendered.contains("sentinel-api-key"));
}

#[test]
fn non_json_bodies_are_not_logged() {
    let rendered = render("/v1/bug-report", Some("text/plain"), b"sentinel-plain-secret");

    assert_eq!(rendered, "[omitted: only JSON bodies are loggable]");
    assert!(!rendered.contains("sentinel-plain-secret"));
}

#[test]
fn invalid_json_bodies_are_not_logged() {
    assert_eq!(
        render("/v1/content/batch", Some("application/json"), b"{not json"),
        "[omitted: invalid JSON body]"
    );
}

#[test]
fn report_paths_need_a_segment_boundary() {
    assert!(is_report_path("/v1/reports"));
    assert!(is_report_path("/v1/reports/"));
    assert!(!is_report_path("/v1/reportsx"));
    assert!(!is_report_path("/v1/report"));
    assert!(!is_authentication_path("/v1/authx"));
    assert!(is_authentication_path("/v1/auth"));
    assert!(!is_authentication_path("/v1/admin/users/alice"));
}

#[test]
fn sensitive_keys_ignore_case_and_punctuation() {
    assert!(is_sensitive_json_key("Authorization"));
    assert!(is_sensitive_json_key("Set-Cookie"));
    assert!(is_sensitive_json_key("db_password_hash"));
    assert!(is_sensitive_json_key("client_SECRET"));
    assert!(is_sensitive_json_key("refresh_token"));
    assert!(is_sensitive_json_key("X-API-KEY"));
    assert!(is_sensitive_json_key("credentials"));
    assert!(!is_sensitive_json_key("token_type"));
    assert!(!is_sensitive_json_key("name"));
    assert!(!is_sensitive_json_key("cookies"));
}

#[test]
fn redaction_keeps_structure_and_other_values() {
    let mut value = JsonValue::Array(vec![
        JsonValue::Object(vec![
            ("token".to_string(), JsonValue::Number("7".to_string())),
            ("count".to_string(), JsonValue::Number("3".to_string())),
        ]),
        JsonValue::Boolean(true),
    ]);
    redact_json(&mut value);
    assert_eq!(
        serde_json::to_string(&to_serde(value)).unwrap(),
        r#"[{"count":3,"token":"[REDACTED]"},true]"#
    );
}

#[test]
fn json_content_types_are_recognised() {
    assert!(is_json_content_type("application/json"));
    assert!(is_json_content_type("  Application/JSON ; charset=utf-8"));
    assert!(!is_json_content_type("application/json-patch"));
    assert!(!is_json_content_type("text/json"));
}

#[test]
fn content_lengths_are_read_as_usize() {
    assert_eq!(parse_content_length(Some(Some("42"))), ContentLength::Bytes(42));
    assert_eq!(parse_content_length(Some(Some("+7"))), ContentLength::Bytes(7));
    assert_eq!(parse_content_length(Some(Some("4x"))), ContentLength::NotANumber);
    assert_eq!(parse_content_length(Some(Some(""))), ContentLength::NotANumber);
    assert_eq!(parse_content_length(Some(None)), ContentLength::NotText);
    assert_eq!(parse_content_length(None), ContentLength::Missing);
    assert_eq!(ContentLength::Missing.message(), "Content-length not set.");
    assert_eq!(ContentLength::Bytes(9).announced_bytes(), 9);
    assert_eq!(ContentLength::NotText.announced_bytes(), 0);
}

#[test]
fn bodies_are_logged_only_when_small_at_body_level() {
    let level = RequestsLoggingLevel::Body;
    assert_eq!(body_log_plan(level, "/v1/x", ContentLength::Bytes(1023)), BodyLogPlan::Read(1023));
    assert_eq!(body_log_plan(level, "/v1/x", ContentLength::Bytes(1024)), BodyLogPlan::TooBig(1024));
    assert_eq!(
        body_log_plan(level, "/v1/x", ContentLength::Missing),
        BodyLogPlan::Unknown(ContentLength::Missing)
    );
    assert_eq!(body_log_plan(level, "/v1/reports", ContentLength::Bytes(3)), BodyLogPlan::Skip);
    assert_eq!(
        body_log_plan(RequestsLoggingLevel::Headers, "/v1/x", ContentLength::Bytes(3)),
        BodyLogPlan::Skip
    );
    assert_eq!(Omission::NotJson.message(), "[omitted: only JSON bodies are loggable]");
    assert_eq!(RequestsLoggingLevel::default(), RequestsLoggingLevel::Path);
    assert_eq!(RequestsLoggingLevel::Headers.name(), "Headers");
}
