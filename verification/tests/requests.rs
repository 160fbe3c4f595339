use request_bridge::executor::{step, Action, CallState, Event, Operation};
use request_bridge::extract::extract;
use request_bridge::outcome::{DecodedBody, Outcome, ResponseShape, TransportReply};
use request_bridge::presets::{http_schema, node_schema};
use request_bridge::request::{
    connection_request, http_request, HttpRequest, Method, RequestPayload,
};
use request_bridge::schema::{FieldSpec, FieldType, FieldValue, Schema};
use request_bridge::value::{DynValue, RawParameters};

fn text(s: &str) -> DynValue {
    DynValue::Str(s.to_string())
}

fn pair(name: &str, value: &str) -> (String, String) {
    (name.to_string(), value.to_string())
}

/// A transport that sends back what it was handed, line by line.
fn echo(request: &HttpRequest) -> TransportReply {
    let mut body = format!("{:?}\n{}\n", request.method, request.url);
    for (name, value) in &request.headers {
        body.push_str(&format!("{}: {}\n", name, value));
    }
    body.push_str(&format!("{:?}\n", request.timeout));
    body.push_str(&request.body);
    TransportReply::Response { status: 200, headers: request.headers.clone(), body }
}

fn post(params: RawParameters, body: &str, headers: &str) -> (Vec<HttpRequest>, Outcome) {
    let operation = Operation::Post {
        payload: RequestPayload::new(body, headers),
        shape: ResponseShape::Text,
    };
    let mut sent = Vec::new();
    let mut state = CallState::Idle { operation };
    let mut event = Event::Start { params };
    loop {
        let (next, action) = step(state, event);
        state = next;
        match action {
            Action::Advance => event = Event::Proceed,
            Action::Send { request } => {
                let reply = echo(&request);
                sent.push(request);
                event = Event::Reply { reply };
            }
            Action::Finish { outcome, .. } => return (sent, outcome),
            other => panic!("unexpected action: {:?}", other),
        }
    }
}

#[test]
fn the_payload_carries_the_content_type_and_the_callers_string() {
    let payload = RequestPayload::new("{}", "x");
    assert_eq!(payload.body(), "{}");
    assert_eq!(
        payload.headers(),
        &vec![pair("Content-Type", "application/json"), pair("headers", "x")]
    );
}

#[test]
fn echoed_request_equals_what_was_configured() {
    let mut params = RawParameters::new();
    params.insert("url", text("https://example.test/anything"));
    params.insert("timeout", DynValue::Int(30));
    let (sent, outcome) = post(params, "{\"a\":1}", "token");
    assert_eq!(sent.len(), 1);
    match outcome {
        Outcome::Success(payload) => {
            assert_eq!(
                payload.headers,
                vec![pair("Content-Type", "application/json"), pair("headers", "token")]
            );
            match payload.body {
                DecodedBody::Text(body) => assert_eq!(
                    body,
                    "Post\nhttps://example.test/anything\nContent-Type: application/json\n\
                     headers: token\nSome(30)\n{\"a\":1}"
                ),
                other => panic!("unexpected body: {:?}", other),
            }
        }
        other => panic!("unexpected outcome: {:?}", other),
    }
}

#[test]
fn an_unset_timeout_is_left_out() {
    let mut params = RawParameters::new();
    params.insert("url", text("https://example.test/anything"));
    let config = extract(&params, &http_schema()).unwrap();
    let request = http_request(&config, &RequestPayload::new("b", "h")).unwrap();
    assert_eq!(request.method, Method::Post);
    assert_eq!(request.timeout, None);

    params.insert("timeout", text("soon"));
    let config = extract(&params, &http_schema()).unwrap();
    let request = http_request(&config, &RequestPayload::new("b", "h")).unwrap();
    assert_eq!(request.timeout, None);

    params.insert("timeout", DynValue::Int(0));
    let config = extract(&params, &http_schema()).unwrap();
    let request = http_request(&config, &RequestPayload::new("b", "h")).unwrap();
    assert_eq!(request.timeout, Some(0));
}

#[test]
fn a_configuration_without_target_gives_no_request() {
    let mut schema = Schema::new();
    schema.push(FieldSpec::optional("url", FieldType::Text));
    schema.push(FieldSpec::optional("timeout", FieldType::Number));
    let config = extract(&RawParameters::new(), &schema).unwrap();
    assert!(http_request(&config, &RequestPayload::new("b", "h")).is_none());
    assert!(connection_request(&config).is_none());

    let mut schema = Schema::new();
    schema.push(FieldSpec::required("url", FieldType::Number));
    let mut params = RawParameters::new();
    params.insert("url", DynValue::Int(1));
    let config = extract(&params, &schema).unwrap();
    assert!(http_request(&config, &RequestPayload::new("b", "h")).is_none());
    assert!(connection_request(&config).is_none());
}

#[test]
fn two_calls_share_nothing() {
    let mut first = RawParameters::new();
    first.insert("url", text("https://one.test/"));
    first.insert("timeout", DynValue::Int(5));
    let mut second = RawParameters::new();
    second.insert("url", text("https://two.test/"));
    let (sent_first, _) = post(first, "one", "secret-of-one");
    let (sent_second, outcome) = post(second, "two", "of-two");
    assert_eq!(sent_first[0].headers[1], pair("headers", "secret-of-one"));
    assert_eq!(
        sent_second[0].headers,
        vec![pair("Content-Type", "application/json"), pair("headers", "of-two")]
    );
    assert_eq!(sent_second[0].url, "https://two.test/");
    assert_eq!(sent_second[0].body, "two");
    assert_eq!(sent_second[0].timeout, None);
    assert!(!format!("{:?}", outcome).contains("secret-of-one"));
}

#[test]
fn the_same_call_twice_ends_the_same() {
    let mut outcomes = Vec::new();
    for _ in 0..2 {
        let mut params = RawParameters::new();
        params.insert("url", text("https://example.test/anything"));
        let (sent, outcome) = post(params, "body", "x");
        assert_eq!(sent.len(), 1);
        outcomes.push(format!("{:?}", outcome));
    }
    assert_eq!(outcomes[0], outcomes[1]);
}

#[test]
fn the_node_schema_has_ten_fields() {
    let schema = node_schema();
    let names = [
        "url",
        "websocket",
        "ss58_format",
        "type_registry",
        "type_registry_preset",
        "cache_region",
        "runtime_config",
        "ws_options",
        "auto_discover",
        "auto_reconnect",
    ];
    assert_eq!(schema.len(), names.len());
    for (i, name) in names.iter().enumerate() {
        let field = schema.field(i).unwrap();
        assert_eq!(field.name(), name);
        assert_eq!(field.is_required(), i == 0);
        assert!(!field.default_value().is_set());
    }
    assert_eq!(schema.field(2).unwrap().field_type(), FieldType::Number);
    assert_eq!(schema.field(8).unwrap().field_type(), FieldType::Flag);
    assert_eq!(schema.field(9).unwrap().field_type(), FieldType::Flag);
    assert_eq!(schema.field(7).unwrap().field_type(), FieldType::Text);
}

#[test]
fn a_connection_passes_on_the_fields_that_are_set() {
    let mut params = RawParameters::new();
    params.insert("url", text("wss://node.test:443"));
    params.insert("websocket", text("wss://other.test"));
    params.insert("ss58_format", DynValue::Int(42));
    params.insert("type_registry_preset", text("kusama"));
    params.insert("cache_region", DynValue::Null);
    params.insert("auto_discover", DynValue::Bool(false));
    params.insert("auto_reconnect", text("yes"));
    let config = extract(&params, &node_schema()).unwrap();
    assert_eq!(config.len(), 10);
    let request = connection_request(&config).unwrap();
    assert_eq!(request.url, "wss://node.test:443");
    let names: Vec<&str> = request.options.iter().map(|o| o.0.as_str()).collect();
    assert_eq!(names, vec!["websocket", "ss58_format", "type_registry_preset", "auto_discover"]);
    assert!(matches!(&request.options[0].1, FieldValue::Text(s) if s == "wss://other.test"));
    assert!(matches!(request.options[1].1, FieldValue::Number(42)));
    assert!(matches!(&request.options[2].1, FieldValue::Text(s) if s == "kusama"));
    assert!(matches!(request.options[3].1, FieldValue::Flag(false)));
}

#[test]
fn a_connection_with_the_address_only_has_no_options() {
    let mut params = RawParameters::new();
    params.insert("url", text("ws://127.0.0.1:9944"));
    let config = extract(&params, &node_schema()).unwrap();
    let request = connection_request(&config).unwrap();
    assert_eq!(request.url, "ws://127.0.0.1:9944");
    assert!(request.options.is_empty());
}
