use request_bridge::executor::{conclude, step, trace_line, Action, CallState, Event, Operation};
use request_bridge::outcome::{
    DecodedBody, ErrorCategory, Outcome, ResponseShape, TransportReply,
};
use request_bridge::request::{HttpRequest, Method, RequestPayload};
use request_bridge::schema::{FieldSpec, FieldType, Schema};
use request_bridge::value::{DynValue, RawParameters};

const BODY: &str = "{\"first_name\":\"Foo\",\"last_name\":\"Bar\"}";
const ECHO: &str = "{\"data\":\"{\\\"first_name\\\":\\\"Foo\\\",\\\"last_name\\\":\\\"Bar\\\"}\",\"method\":\"POST\",\"headers\":{}}";

fn person() -> Schema {
    let mut schema = Schema::new();
    schema.push(FieldSpec::required("first_name", FieldType::Text));
    schema.push(FieldSpec::required("last_name", FieldType::Text));
    schema
}

fn embedded() -> ResponseShape {
    ResponseShape::Embedded { field: "data".to_string(), record: person() }
}

fn url_only() -> RawParameters {
    let mut params = RawParameters::new();
    params.insert("url", DynValue::Str("https://example.test/anything".to_string()));
    params
}

/// Runs one call against a transport that answers every request with what
/// `answer` gives; returns the outcome, the trace and the requests sent.
fn run(
    operation: Operation,
    params: RawParameters,
    answer: fn(&HttpRequest) -> TransportReply,
) -> (Outcome, Option<String>, Vec<HttpRequest>) {
    let mut sent = Vec::new();
    let mut state = CallState::Idle { operation };
    let mut event = Event::Start { params };
    loop {
        let (next, action) = step(state, event);
        state = next;
        match action {
            Action::Advance => event = Event::Proceed,
            Action::Send { request } => {
                let reply = answer(&request);
                sent.push(request);
                event = Event::Reply { reply };
            }
            Action::Finish { outcome, trace } => {
                assert!(matches!(state, CallState::Decoded | CallState::Failed));
                return (outcome, trace, sent);
            }
            other => panic!("unexpected action: {:?}", other),
        }
    }
}

fn echoes(_: &HttpRequest) -> TransportReply {
    TransportReply::Response { status: 200, headers: Vec::new(), body: ECHO.to_string() }
}

fn refuses(_: &HttpRequest) -> TransportReply {
    TransportReply::Failed { message: "connection refused".to_string() }
}

fn answers_with_text(_: &HttpRequest) -> TransportReply {
    TransportReply::Response {
        status: 200,
        headers: vec![("content-type".to_string(), "text/plain".to_string())],
        body: "not json".to_string(),
    }
}

fn not_found(_: &HttpRequest) -> TransportReply {
    TransportReply::Response { status: 404, headers: Vec::new(), body: "gone".to_string() }
}

#[test]
fn echoed_post_decodes_the_inner_record() {
    let operation =
        Operation::Post { payload: RequestPayload::new(BODY, "x"), shape: embedded() };
    let (outcome, trace, sent) = run(operation, url_only(), echoes);
    assert_eq!(sent.len(), 1);
    assert_eq!(sent[0].method, Method::Post);
    assert_eq!(sent[0].url, "https://example.test/anything");
    assert_eq!(sent[0].body, BODY);
    assert_eq!(
        sent[0].headers,
        vec![
            ("Content-Type".to_string(), "application/json".to_string()),
            ("headers".to_string(), "x".to_string()),
        ]
    );
    assert_eq!(sent[0].timeout, None);
    match outcome {
        Outcome::Success(payload) => match payload.body {
            DecodedBody::Record(record) => {
                assert_eq!(record.len(), 2);
                assert_eq!(record.text("first_name").unwrap(), "Foo");
                assert_eq!(record.text("last_name").unwrap(), "Bar");
            }
            other => panic!("unexpected body: {:?}", other),
        },
        other => panic!("unexpected outcome: {:?}", other),
    }
    assert_eq!(trace.unwrap(), format!("Response body:\n{}", ECHO));
}

#[test]
fn refused_connection_is_a_transport_failure() {
    let operation =
        Operation::Post { payload: RequestPayload::new(BODY, "x"), shape: embedded() };
    let (outcome, trace, sent) = run(operation, url_only(), refuses);
    assert_eq!(sent.len(), 1);
    match outcome {
        Outcome::Failure(detail) => {
            assert_eq!(detail.category, ErrorCategory::TransportError);
            assert_eq!(detail.message, "connection refused");
        }
        other => panic!("unexpected outcome: {:?}", other),
    }
    assert!(trace.is_none());
}

#[test]
fn undecodable_body_is_a_decode_failure() {
    let operation =
        Operation::Post { payload: RequestPayload::new(BODY, "x"), shape: embedded() };
    let (outcome, trace, _) = run(operation, url_only(), answers_with_text);
    match outcome {
        Outcome::Failure(detail) => {
            assert_eq!(detail.category, ErrorCategory::DecodeError);
            assert_eq!(detail.message, "response body is not a JSON object");
        }
        other => panic!("unexpected outcome: {:?}", other),
    }
    assert_eq!(trace.unwrap(), "Response body:\nnot json");
}

#[test]
fn text_is_handed_back_as_it_came() {
    let operation =
        Operation::Post { payload: RequestPayload::new(BODY, "x"), shape: ResponseShape::Text };
    let (outcome, _, _) = run(operation, url_only(), answers_with_text);
    match outcome {
        Outcome::Success(payload) => {
            assert!(matches!(payload.body, DecodedBody::Text(ref s) if s == "not json"));
            assert_eq!(
                payload.headers,
                vec![("content-type".to_string(), "text/plain".to_string())]
            );
        }
        other => panic!("unexpected outcome: {:?}", other),
    }
}

#[test]
fn status_without_success_is_a_transport_failure() {
    let operation =
        Operation::Post { payload: RequestPayload::new(BODY, "x"), shape: ResponseShape::Text };
    let (outcome, trace, _) = run(operation, url_only(), not_found);
    match outcome {
        Outcome::Failure(detail) => {
            assert_eq!(detail.category, ErrorCategory::TransportError);
            assert_eq!(detail.message, "HTTP status 404");
        }
        other => panic!("unexpected outcome: {:?}", other),
    }
    assert_eq!(trace.unwrap(), "Response body:\ngone");
}

#[test]
fn status_bounds() {
    for (status, success) in [(199u16, false), (200, true), (299, true), (300, false), (0, false)]
    {
        let reply = TransportReply::Response { status, headers: Vec::new(), body: String::new() };
        assert_eq!(conclude(&ResponseShape::Text, reply).is_success(), success, "{}", status);
    }
    let reply = TransportReply::Response { status: 65535, headers: Vec::new(), body: String::new() };
    match conclude(&ResponseShape::Text, reply) {
        Outcome::Failure(detail) => assert_eq!(detail.message, "HTTP status 65535"),
        other => panic!("unexpected outcome: {:?}", other),
    }
}

#[test]
fn missing_url_sends_nothing() {
    let operation =
        Operation::Post { payload: RequestPayload::new(BODY, "x"), shape: embedded() };
    let (outcome, trace, sent) = run(operation, RawParameters::new(), echoes);
    assert_eq!(sent.len(), 0);
    match outcome {
        Outcome::Failure(detail) => {
            assert_eq!(detail.category, ErrorCategory::MissingField);
            assert_eq!(detail.message, "Missing 'url' parameter");
        }
        other => panic!("unexpected outcome: {:?}", other),
    }
    assert!(trace.is_none());
}

#[test]
fn url_of_wrong_type_sends_nothing() {
    let mut params = RawParameters::new();
    params.insert("url", DynValue::Int(80));
    let operation =
        Operation::Post { payload: RequestPayload::new(BODY, "x"), shape: embedded() };
    let (outcome, _, sent) = run(operation, params, echoes);
    assert_eq!(sent.len(), 0);
    match outcome {
        Outcome::Failure(detail) => {
            assert_eq!(detail.category, ErrorCategory::TypeMismatch);
            assert_eq!(detail.message, "Parameter 'url' is not a string");
        }
        other => panic!("unexpected outcome: {:?}", other),
    }
}

#[test]
fn a_finished_call_takes_no_further_events() {
    let (state, _) = step(
        CallState::Idle { operation: Operation::Connect },
        Event::Start { params: RawParameters::new() },
    );
    assert!(matches!(state, CallState::Failed));
    let (state, action) = step(state, Event::Proceed);
    assert!(matches!(state, CallState::Failed));
    assert!(matches!(action, Action::Nothing));
    let (state, action) =
        step(state, Event::Reply { reply: TransportReply::Failed { message: String::new() } });
    assert!(matches!(state, CallState::Failed));
    assert!(matches!(action, Action::Nothing));
    let (state, action) = step(state, Event::Start { params: url_only() });
    assert!(matches!(state, CallState::Failed));
    assert!(matches!(action, Action::Nothing));
}

#[test]
fn events_out_of_turn_change_nothing() {
    let (state, action) = step(CallState::Idle { operation: Operation::Connect }, Event::Proceed);
    assert!(matches!(state, CallState::Idle { .. }));
    assert!(matches!(action, Action::Nothing));
    let (state, action) = step(state, Event::Start { params: url_only() });
    assert!(matches!(state, CallState::Building { .. }));
    assert!(matches!(action, Action::Advance));
    let (state, action) = step(state, Event::Start { params: url_only() });
    assert!(matches!(state, CallState::Building { .. }));
    assert!(matches!(action, Action::Nothing));
}

#[test]
fn node_connection_runs_to_its_end() {
    let mut params = url_only();
    params.insert("ss58_format", DynValue::Int(42));
    params.insert("auto_reconnect", DynValue::Bool(true));
    params.insert("websocket", DynValue::Int(1));
    let (state, action) =
        step(CallState::Idle { operation: Operation::Connect }, Event::Start { params });
    assert!(matches!(action, Action::Advance));
    let (state, action) = step(state, Event::Proceed);
    assert!(matches!(state, CallState::InFlight { .. }));
    let request = match action {
        Action::Connect { connection } => connection,
        other => panic!("unexpected action: {:?}", other),
    };
    assert_eq!(request.url, "https://example.test/anything");
    assert_eq!(request.options.len(), 2);
    assert_eq!(request.options[0].0, "ss58_format");
    assert_eq!(request.options[1].0, "auto_reconnect");
    let reply = TransportReply::Connected { description: "Client { .. }".to_string() };
    let (state, action) = step(state, Event::Reply { reply });
    assert!(matches!(state, CallState::Decoded));
    match action {
        Action::Finish { outcome: Outcome::Success(payload), trace } => {
            assert!(matches!(payload.body, DecodedBody::Text(ref s) if s == "Client { .. }"));
            assert!(payload.headers.is_empty());
            assert_eq!(trace.unwrap(), "Client { .. }");
        }
        other => panic!("unexpected action: {:?}", other),
    }
}

#[test]
fn embedded_payload_failures_have_their_messages() {
    let cases = [
        ("{\"method\":\"POST\"}", "response body holds no embedded payload"),
        ("{\"data\": 5}", "response body holds no embedded payload"),
        ("{\"data\": \"[1]\"}", "embedded payload is not a JSON object"),
        ("{\"data\": \"{\\\"first_name\\\": \\\"Foo\\\"}\"}", "Missing 'last_name' parameter"),
        (
            "{\"data\": \"{\\\"first_name\\\": 1, \\\"last_name\\\": \\\"Bar\\\"}\"}",
            "Parameter 'first_name' is not a string",
        ),
    ];
    for (body, message) in cases {
        let reply =
            TransportReply::Response { status: 200, headers: Vec::new(), body: body.to_string() };
        match conclude(&embedded(), reply) {
            Outcome::Failure(detail) => {
                assert_eq!(detail.category, ErrorCategory::DecodeError);
                assert_eq!(detail.message, message);
            }
            other => panic!("unexpected outcome: {:?}", other),
        }
    }
}

#[test]
fn the_trace_does_not_depend_on_the_outcome() {
    let reply =
        TransportReply::Response { status: 500, headers: Vec::new(), body: "oops".to_string() };
    assert_eq!(trace_line(&reply).unwrap(), "Response body:\noops");
    let reply = TransportReply::Failed { message: "timed out".to_string() };
    assert!(trace_line(&reply).is_none());
}
