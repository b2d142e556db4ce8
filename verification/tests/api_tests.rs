use mock_service::api::{error_envelope, respond, success_envelope, ApiResponse};
use mock_service::errors::{MockError, ValidationError};
use mock_service::jsontext::{canonical_json, json_quote};

#[test]
fn envelopes_have_the_documented_shape() {
    assert_eq!(
        error_envelope("no such service"),
        "{\"success\":false,\"data\":null,\"error\":\"no such service\"}"
    );
    assert_eq!(
        success_envelope("{\"a\":1}"),
        "{\"success\":true,\"data\":{\"a\":1},\"error\":null}"
    );
}

#[test]
fn envelope_builders_match_the_struct() {
    let ok: ApiResponse<String> = ApiResponse::success("payload".to_string());
    assert!(ok.success);
    assert_eq!(ok.data, Some("payload".to_string()));
    assert!(ok.error.is_none());

    let err: ApiResponse<String> = ApiResponse::error("went wrong");
    assert!(!err.success);
    assert!(err.data.is_none());
    assert_eq!(err.error, Some("went wrong".to_string()));
}

#[test]
fn quoting_escapes_json_specials() {
    assert_eq!(json_quote("plain"), "\"plain\"");
    assert_eq!(json_quote("say \"hi\""), "\"say \\\"hi\\\"\"");
    assert_eq!(json_quote("back\\slash"), "\"back\\\\slash\"");
    assert_eq!(json_quote("line\nbreak"), "\"line\\u000abreak\"");
    // what it produces is a JSON document denoting the original string
    let quoted = json_quote("a \"b\" \\ c\n");
    let parsed: String = serde_json::from_str(&quoted).unwrap();
    assert_eq!(parsed, "a \"b\" \\ c\n");
}

#[test]
fn canonical_json_accepts_and_normalizes() {
    assert_eq!(canonical_json("{ \"b\" : 1 , \"a\" : 2 }").unwrap(), "{\"a\":2,\"b\":1}");
    assert_eq!(canonical_json("[1, 2,  3]").unwrap(), "[1,2,3]");
    match canonical_json("{nope") {
        Err(MockError::InvalidInput(_)) => {},
        other => panic!("expected invalid input, got {:?}", other),
    }
}

#[test]
fn outcomes_map_to_the_documented_statuses() {
    let (status, body) = respond(Ok("{\"a\":1}".to_string()));
    assert_eq!(status, 200);
    assert_eq!(body, "{\"a\":1}");

    let cases: Vec<(MockError, u16)> = vec![
        (MockError::NotFound("x".to_string()), 404),
        (MockError::InvalidInput("x".to_string()), 400),
        (
            MockError::Validation(ValidationError::MissingParameter("id".to_string())),
            400,
        ),
        (MockError::Template("x".to_string()), 400),
        (MockError::Execution("x".to_string()), 500),
        (MockError::Io("x".to_string()), 500),
    ];
    for (e, want) in cases {
        let (status, body) = respond(Err(e));
        assert_eq!(status, want);
        let parsed: serde_json::Value = serde_json::from_str(&body).unwrap();
        assert_eq!(parsed["success"], serde_json::Value::Bool(false));
        assert!(parsed["error"].is_string());
        assert!(parsed["data"].is_null());
    }
}

#[test]
fn error_messages_name_the_failing_parameter() {
    let v = ValidationError::PatternMismatch("code".to_string());
    assert_eq!(v.param_name(), "code");
    let e = MockError::Validation(v);
    let m = e.message();
    assert_eq!(m, "Parameter value does not match its pattern: code");
    assert_eq!(
        MockError::NotFound("users-GET.json".to_string()).message(),
        "Not found: users-GET.json"
    );
}
