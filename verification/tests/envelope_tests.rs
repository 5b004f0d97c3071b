use gmocoin::envelope::parse_response;
use gmocoin::errors::GmocoinError;

#[test]
fn success_returns_data_text() {
    let r = parse_response("{\"status\":0,\"data\":{\"x\":1},\"responsetime\":\"t\"}");
    assert_eq!(r.unwrap(), "{\"x\":1}");
}

#[test]
fn success_with_string_data() {
    let r = parse_response("{\"status\":0,\"data\":\"123456\",\"responsetime\":\"t\"}");
    assert_eq!(r.unwrap(), "\"123456\"");
}

#[test]
fn error_status_joins_messages() {
    let r = parse_response(
        "{\"status\":5,\"messages\":[\
         {\"message_code\":\"ERR-5003\",\"message_string\":\"Requests are too many\"},\
         {\"message_code\":\"ERR-5106\",\"message_string\":\"Invalid request parameter\"}],\
         \"responsetime\":\"t\"}",
    );
    match r {
        Err(GmocoinError::ExchangeError { status, messages }) => {
            assert_eq!(status, 5);
            assert_eq!(messages, "Requests are too many; Invalid request parameter");
        }
        other => panic!("expected ExchangeError, got {:?}", other),
    }
}

#[test]
fn message_without_string_is_skipped() {
    let r = parse_response(
        "{\"status\":9,\"messages\":[\
         {\"message_code\":\"ERR-1\"},\
         {\"message_code\":\"ERR-2\",\"message_string\":\"second\"}],\
         \"responsetime\":\"t\"}",
    );
    match r {
        Err(GmocoinError::ExchangeError { status, messages }) => {
            assert_eq!(status, 9);
            assert_eq!(messages, "second");
        }
        other => panic!("expected ExchangeError, got {:?}", other),
    }
}

#[test]
fn error_without_messages_uses_fallback() {
    let body = "{\"status\":4,\"responsetime\":\"t\"}";
    match parse_response(body) {
        Err(GmocoinError::ExchangeError { status, messages }) => {
            assert_eq!(status, 4);
            assert_eq!(messages, format!("Unknown error. Body: {}", body));
        }
        other => panic!("expected ExchangeError, got {:?}", other),
    }
}

#[test]
fn success_without_data_is_protocol_violation() {
    let body = "{\"status\":0,\"responsetime\":\"t\"}";
    match parse_response(body) {
        Err(GmocoinError::Unknown(m)) => {
            assert_eq!(m, format!("status=0 but no data. Body: {}", body));
        }
        other => panic!("expected Unknown, got {:?}", other),
    }
}

#[test]
fn unparseable_body_is_parse_error() {
    match parse_response("not json at all") {
        Err(GmocoinError::ParseError(_)) => {}
        other => panic!("expected ParseError, got {:?}", other),
    }
}

#[test]
fn missing_status_is_minus_one() {
    match parse_response("{\"responsetime\":\"t\"}") {
        Err(GmocoinError::ExchangeError { status, .. }) => assert_eq!(status, -1),
        other => panic!("expected ExchangeError, got {:?}", other),
    }
}

#[test]
fn recoverability_by_kind() {
    assert!(GmocoinError::RequestError(String::from("x")).is_recoverable());
    assert!(GmocoinError::WebSocketError(String::from("x")).is_recoverable());
    assert!(GmocoinError::AuthError(String::from("x")).is_recoverable());
    assert!(!GmocoinError::ParseError(String::from("x")).is_recoverable());
    assert!(
        !GmocoinError::ExchangeError { status: 5, messages: String::from("m") }.is_recoverable()
    );
    assert!(!GmocoinError::Unknown(String::from("x")).is_recoverable());
}
