use soniq::auth::TokenResponse;
use soniq::client::Client;
use soniq::client::Response;
use soniq::error::Error;
use soniq::error::ErrorResponse;
use soniq::error::JsonError;
use soniq::error::RequestError;
use soniq::error::RequestErrorKind;
use std::cell::Cell;

fn response(status: u16, text: &str) -> Response {
    Response { status, text: text.to_string() }
}

fn decode_token(body: &String) -> Result<TokenResponse, String> {
    let value: serde_json::Value = serde_json::from_str(body).map_err(|e| e.to_string())?;
    match value.get("token").and_then(|token| token.as_str()) {
        Some(token) => Ok(TokenResponse { token: token.to_string() }),
        None => Err("missing field `token`".to_string()),
    }
}

fn parse_error(body: &String) -> Option<ErrorResponse> {
    let value: serde_json::Value = serde_json::from_str(body).ok()?;
    let error = u32::try_from(value.get("error")?.as_u64()?).ok()?;
    let message = value.get("message")?.as_str()?.to_string();
    Some(ErrorResponse { error, message })
}

#[test]
fn success_status_and_token_body_give_the_token() {
    let result = Client::handle_response(
        response(200, r#"{"token":"abc123"}"#),
        decode_token,
        parse_error,
    );
    assert_eq!(result.unwrap().token, "abc123");
}

#[test]
fn failure_status_and_structured_body_give_the_remote_error() {
    let result = Client::handle_response(
        response(403, r#"{"error":10,"message":"Invalid API key"}"#),
        decode_token,
        parse_error,
    );
    assert_eq!(
        result.map(|t| t.token).unwrap_err(),
        Error::LastFm(ErrorResponse { error: 10, message: "Invalid API key".to_string() })
    );
}

#[test]
fn failure_status_and_other_body_give_the_http_error() {
    let result =
        Client::handle_response(response(500, "Internal Server Error"), decode_token, parse_error);
    assert_eq!(
        result.map(|t| t.token).unwrap_err(),
        Error::Http { status: 500, text: "Internal Server Error".to_string() }
    );
}

#[test]
fn success_status_and_undecodable_body_give_the_json_error_with_the_body() {
    let result = Client::handle_response(response(200, r#"{"tokn":"abc123"}"#), decode_token, parse_error);
    assert_eq!(
        result.map(|t| t.token).unwrap_err(),
        Error::Json(JsonError {
            reason: "missing field `token`".to_string(),
            text: r#"{"tokn":"abc123"}"#.to_string(),
        })
    );
    let result = Client::handle_response(response(200, "<html>"), decode_token, parse_error);
    match result.map(|t| t.token).unwrap_err() {
        Error::Json(e) => {
            assert_eq!(e.text, "<html>");
            assert!(!e.reason.is_empty());
        }
        other => panic!("{:?}", other),
    }
}

#[test]
fn success_status_does_not_read_the_body_as_an_error() {
    let result = Client::handle_response(
        response(200, r#"{"error":10,"message":"Invalid API key"}"#),
        decode_token,
        parse_error,
    );
    assert!(matches!(result.map(|t| t.token).unwrap_err(), Error::Json(_)));
}

#[test]
fn failure_status_does_not_decode_the_body_as_a_value() {
    let result = Client::handle_response(response(404, r#"{"token":"abc123"}"#), decode_token, parse_error);
    assert_eq!(
        result.map(|t| t.token).unwrap_err(),
        Error::Http { status: 404, text: r#"{"token":"abc123"}"#.to_string() }
    );
}

#[test]
fn exactly_one_decoder_is_called_once() {
    let decoded = Cell::new(0);
    let parsed = Cell::new(0);
    let result: Result<u8, Error> = Client::handle_response(
        response(200, "body"),
        |_body: &String| {
            decoded.set(decoded.get() + 1);
            Ok(7)
        },
        |_body: &String| {
            parsed.set(parsed.get() + 1);
            None
        },
    );
    assert_eq!(result, Ok(7));
    assert_eq!((decoded.get(), parsed.get()), (1, 0));
    let result: Result<u8, Error> = Client::handle_response(
        response(503, "body"),
        |_body: &String| {
            decoded.set(decoded.get() + 1);
            Ok(7)
        },
        |_body: &String| {
            parsed.set(parsed.get() + 1);
            None
        },
    );
    assert_eq!(result, Err(Error::Http { status: 503, text: "body".to_string() }));
    assert_eq!((decoded.get(), parsed.get()), (1, 1));
}

#[test]
fn the_decoders_get_the_body_as_it_was_received() {
    let body = "  { \"token\" : \"t\" }\n";
    let result: Result<String, Error> = Client::handle_response(
        response(200, body),
        |text: &String| Ok(text.clone()),
        |_text: &String| None,
    );
    assert_eq!(result, Ok(body.to_string()));
    let result: Result<String, Error> = Client::handle_response(
        response(400, body),
        |text: &String| Ok(text.clone()),
        |text: &String| Some(ErrorResponse { error: 1, message: text.clone() }),
    );
    assert_eq!(result, Err(Error::LastFm(ErrorResponse { error: 1, message: body.to_string() })));
}

#[test]
fn success_is_a_status_from_200_to_299() {
    for status in [200u16, 201, 204, 250, 299] {
        assert!(Client::status_is_success(status), "{}", status);
    }
    for status in [0u16, 100, 199, 300, 301, 400, 403, 404, 500, 503, 999, u16::MAX] {
        assert!(!Client::status_is_success(status), "{}", status);
    }
    let ok = |status: u16| -> Result<u8, Error> {
        Client::handle_response(response(status, "x"), |_b: &String| Ok(1), |_b: &String| None)
    };
    assert_eq!(ok(199), Err(Error::Http { status: 199, text: "x".to_string() }));
    assert_eq!(ok(200), Ok(1));
    assert_eq!(ok(299), Ok(1));
    assert_eq!(ok(300), Err(Error::Http { status: 300, text: "x".to_string() }));
}

#[test]
fn handle_success_keeps_the_value_or_reports_the_body() {
    let ok: Result<u32, Error> = Client::handle_success("body".to_string(), Ok(5));
    assert_eq!(ok, Ok(5));
    let failed: Result<u32, Error> =
        Client::handle_success("body".to_string(), Err("expected value".to_string()));
    assert_eq!(
        failed,
        Err(Error::Json(JsonError { reason: "expected value".to_string(), text: "body".to_string() }))
    );
}

#[test]
fn handle_failure_prefers_the_remote_error() {
    let remote = ErrorResponse { error: 29, message: "Rate limit exceeded".to_string() };
    assert_eq!(
        Client::handle_failure(429, "body".to_string(), Some(remote.clone())),
        Error::LastFm(remote)
    );
    assert_eq!(
        Client::handle_failure(502, "Bad Gateway".to_string(), None),
        Error::Http { status: 502, text: "Bad Gateway".to_string() }
    );
    assert_eq!(
        Client::handle_failure(500, String::new(), None),
        Error::Http { status: 500, text: String::new() }
    );
}

#[test]
fn conclude_returns_a_transport_failure_as_it_is() {
    let failure = RequestError { kind: RequestErrorKind::Timeout, message: "timed out".to_string() };
    let called = Cell::new(0);
    let result: Result<u8, Error> = Client::conclude(
        Err(failure.clone()),
        |_b: &String| {
            called.set(called.get() + 1);
            Ok(1)
        },
        |_b: &String| {
            called.set(called.get() + 1);
            None
        },
    );
    assert_eq!(result, Err(Error::Request(failure)));
    assert_eq!(called.get(), 0);
    for kind in [RequestErrorKind::Connect, RequestErrorKind::Other] {
        let failure = RequestError { kind, message: "refused".to_string() };
        let result: Result<u8, Error> =
            Client::conclude(Err(failure.clone()), |_b: &String| Ok(1), |_b: &String| None);
        assert_eq!(result, Err(Error::Request(failure)));
    }
}

#[test]
fn conclude_handles_a_response() {
    let result = Client::conclude(Ok(response(200, r#"{"token":"abc123"}"#)), decode_token, parse_error);
    assert_eq!(result.unwrap().token, "abc123");
    let result = Client::conclude(
        Ok(response(403, r#"{"error":10,"message":"Invalid API key"}"#)),
        decode_token,
        parse_error,
    );
    assert_eq!(
        result.map(|t| t.token).unwrap_err(),
        Error::LastFm(ErrorResponse { error: 10, message: "Invalid API key".to_string() })
    );
    let result = Client::conclude(Ok(response(500, "Internal Server Error")), decode_token, parse_error);
    assert_eq!(
        result.map(|t| t.token).unwrap_err(),
        Error::Http { status: 500, text: "Internal Server Error".to_string() }
    );
}

#[test]
fn error_response_in_words() {
    let e = ErrorResponse { error: 10, message: "Invalid API key".to_string() };
    assert_eq!(e.to_string(), "Error 10: Invalid API key");
    let e = ErrorResponse { error: 0, message: String::new() };
    assert_eq!(e.to_string(), "Error 0: ");
    let e = ErrorResponse { error: u32::MAX, message: "é".to_string() };
    assert_eq!(e.to_string(), "Error 4294967295: é");
}
