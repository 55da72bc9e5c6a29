use serde_json::Value;
use ves::ves::{
    failed_schema_validation, invalid_api_version, message_size_exceeded, VesError, VesException,
    FAILED_SCHEMA_VALIDATION_BODY, INVALID_API_VERSION_BODY, MESSAGE_SIZE_EXCEEDED_BODY,
};

fn to_json_string(error: VesError) -> String {
    error.to_json()
}

fn object(key: &str, value: Value) -> Value {
    let mut map = serde_json::Map::new();
    map.insert(key.to_string(), value);
    Value::Object(map)
}

fn exception(message_id: &str, text: &str) -> Value {
    let mut map = serde_json::Map::new();
    map.insert("messageId".to_string(), Value::String(message_id.to_string()));
    map.insert("text".to_string(), Value::String(text.to_string()));
    Value::Object(map)
}

#[test]
fn test_message_size_exceeded() {
    assert_eq!(
        to_json_string(message_size_exceeded()),
        object(
            "policyException",
            exception("POL9003", "Message content size exceeds the allowable limit")
        )
        .to_string()
    );
}

#[test]
fn test_invalid_api_version() {
    assert_eq!(
        to_json_string(invalid_api_version()),
        object("serviceException", exception("SVC0002", "Bad parameter (Invalid API version)"))
            .to_string()
    );
}

#[test]
fn failed_schema_validation_is_a_service_exception() {
    assert_eq!(
        failed_schema_validation(),
        VesError::ServiceException(VesException {
            message_id: "SVC0002".to_string(),
            text: "Bad parameter (JSON does not conform to schema)".to_string(),
        })
    );
    assert_eq!(
        failed_schema_validation().to_json(),
        "{\"serviceException\":{\"messageId\":\"SVC0002\",\"text\":\"Bad parameter (JSON does not conform to schema)\"}}"
    );
}

#[test]
fn errors_hold_their_texts() {
    assert_eq!(
        message_size_exceeded(),
        VesError::PolicyException(VesException {
            message_id: "POL9003".to_string(),
            text: "Message content size exceeds the allowable limit".to_string(),
        })
    );
    assert_eq!(
        invalid_api_version(),
        VesError::ServiceException(VesException {
            message_id: "SVC0002".to_string(),
            text: "Bad parameter (Invalid API version)".to_string(),
        })
    );
}

#[test]
fn texts_are_quoted_as_json_strings() {
    let e = VesException { message_id: "A\"B".to_string(), text: "line\nbreak \\ é".to_string() };
    assert_eq!(e.to_json(), "{\"messageId\":\"A\\\"B\",\"text\":\"line\\nbreak \\\\ é\"}");
    let parsed: Value = serde_json::from_str(&e.to_json()).unwrap();
    assert_eq!(parsed, exception("A\"B", "line\nbreak \\ é"));
}

#[test]
fn the_request_error_wraps_the_error() {
    let body = invalid_api_version().to_request_error();
    assert_eq!(
        body,
        object(
            "requestError",
            object("serviceException", exception("SVC0002", "Bad parameter (Invalid API version)"))
        )
        .to_string()
    );
}

#[test]
fn the_bodies_of_the_errors_are_fixed_texts() {
    assert_eq!(invalid_api_version().to_request_error(), INVALID_API_VERSION_BODY);
    assert_eq!(failed_schema_validation().to_request_error(), FAILED_SCHEMA_VALIDATION_BODY);
    assert_eq!(message_size_exceeded().to_request_error(), MESSAGE_SIZE_EXCEEDED_BODY);
    assert_eq!(
        INVALID_API_VERSION_BODY,
        r#"{"requestError":{"serviceException":{"messageId":"SVC0002","text":"Bad parameter (Invalid API version)"}}}"#
    );
    for body in [INVALID_API_VERSION_BODY, FAILED_SCHEMA_VALIDATION_BODY, MESSAGE_SIZE_EXCEEDED_BODY]
    {
        let parsed: Value = serde_json::from_str(body).unwrap();
        assert_eq!(parsed.to_string(), body);
    }
}

#[test]
fn characters_below_the_space_are_escaped() {
    let e = VesException {
        message_id: "\u{0}\u{8}\u{9}\u{a}\u{b}\u{c}\u{d}\u{1f} \u{7f}/".to_string(),
        text: String::new(),
    };
    assert_eq!(
        e.to_json(),
        "{\"messageId\":\"\\u0000\\b\\t\\n\\u000b\\f\\r\\u001f \u{7f}/\",\"text\":\"\"}"
    );
}
