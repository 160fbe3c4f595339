//! The course of one call: what to do next, and how it ends.
//!
//! A call starts idle, builds its request, has one network operation in
//! flight, and ends decoded or failed. The network operation itself is not
//! performed here: [`step`] says what is to be sent, and takes what came
//! back.

use vstd::prelude::*;
use vstd::string::StringExecFns;
use crate::extract::{extract, extraction, ExtractError, ExtractErrorView, RequestConfig};
use crate::json::{decode_object, document_map};
use crate::outcome::{
    extraction_detail, status_failure, status_message, DecodedBody, DecodedBodyView,
    ErrorCategory, ErrorDetail, ErrorDetailView, Outcome, OutcomeView, ReplyView,
    ResponsePayload, ResponsePayloadView, ResponseShape, ShapeView, TransportReply,
};
use crate::presets::{http_fields, http_schema, node_fields, node_schema};
use crate::request::{
    connection_of, connection_request, http_request, pairs_view, post_of, ConnectionRequest,
    ConnectionView, HttpRequest, HttpRequestView, PayloadView, RequestPayload,
};
use crate::schema::{FieldSpecView, FieldView, Schema};
use crate::value::{DynValue, DynView, RawParameters};

verus! {

/// Whether a response of this status counts as a success.
pub open spec fn is_success_status(status: int) -> bool {
    200 <= status <= 299
}

/// A failure to decode, with its message.
pub open spec fn decode_failure(message: Seq<char>) -> ErrorDetailView {
    ErrorDetailView { category: ErrorCategory::DecodeError, message }
}

/// The record embedded in `body`, or the message that says why there is
/// none: `body` must be a JSON object, its member `field` a string, that
/// string a JSON object again, and that object must give every field of
/// `record`.
pub open spec fn embedded_record(
    body: Seq<char>,
    field: Seq<char>,
    record: Seq<FieldSpecView>,
) -> Result<Seq<(Seq<char>, FieldView)>, Seq<char>> {
    match document_map(body) {
        None => Err("response body is not a JSON object"@),
        Some(outer) => if outer.contains_key(field) && outer[field] is Str {
            match document_map(outer[field]->Str_0) {
                None => Err("embedded payload is not a JSON object"@),
                Some(inner) => match extraction(inner, record) {
                    Ok(fields) => Ok(fields),
                    Err(e) => Err(extraction_detail(e).message),
                },
            }
        } else {
            Err("response body holds no embedded payload"@)
        },
    }
}

/// How a call ends, given what was expected and what came back.
///
/// Without an answer, or with an answer of another status than 200 to 299,
/// the call fails on the transport. A body that cannot be decoded as
/// expected is a failure of its own kind.
pub open spec fn outcome_of(shape: ShapeView, reply: ReplyView) -> OutcomeView {
    match reply {
        ReplyView::Failed { message } => OutcomeView::Failure(
            ErrorDetailView { category: ErrorCategory::TransportError, message },
        ),
        ReplyView::Connected { description } => OutcomeView::Success(
            ResponsePayloadView {
                body: DecodedBodyView::Text(description),
                headers: Seq::empty(),
            },
        ),
        ReplyView::Response { status, headers, body } => if !is_success_status(status) {
            OutcomeView::Failure(
                ErrorDetailView {
                    category: ErrorCategory::TransportError,
                    message: status_message(status),
                },
            )
        } else {
            match shape {
                ShapeView::Text => OutcomeView::Success(
                    ResponsePayloadView { body: DecodedBodyView::Text(body), headers },
                ),
                ShapeView::Embedded { field, record } => match embedded_record(
                    body,
                    field,
                    record,
                ) {
                    Ok(fields) => OutcomeView::Success(
                        ResponsePayloadView { body: DecodedBodyView::Record(fields), headers },
                    ),
                    Err(message) => OutcomeView::Failure(decode_failure(message)),
                },
            }
        },
    }
}

/// The line that goes to the diagnostic sink for what came back: the body
/// of a response, of whatever status, or the description of a connection.
/// There is none where nothing came back.
pub open spec fn trace_of(reply: ReplyView) -> Option<Seq<char>> {
    match reply {
        ReplyView::Response { body, .. } => Some("Response body:\n"@ + body),
        ReplyView::Connected { description } => Some(description),
        ReplyView::Failed { .. } => None,
    }
}

/// Decodes the record embedded in `body`; see [`embedded_record`].
pub fn decode_embedded(body: &str, field: &str, record: &Schema) -> (r: Result<
    RequestConfig,
    String,
>)
    ensures
        match r {
            Ok(config) => embedded_record(body@, field@, record@) == Ok::<
                Seq<(Seq<char>, FieldView)>,
                Seq<char>,
            >(config@),
            Err(message) => embedded_record(body@, field@, record@) == Err::<
                Seq<(Seq<char>, FieldView)>,
                Seq<char>,
            >(message@),
        },
{
    let outer = match decode_object(body) {
        Some(p) => p,
        None => { return Err(String::from_str("response body is not a JSON object")); },
    };
    let embedded = match outer.get(field) {
        Some(DynValue::Str(s)) => s,
        _ => { return Err(String::from_str("response body holds no embedded payload")); },
    };
    let inner = match decode_object(embedded.as_str()) {
        Some(p) => p,
        None => { return Err(String::from_str("embedded payload is not a JSON object")); },
    };
    match extract(&inner, record) {
        Ok(config) => Ok(config),
        Err(e) => Err(e.detail().message),
    }
}

/// Decides how a call ends; see [`outcome_of`].
pub fn conclude(shape: &ResponseShape, reply: TransportReply) -> (r: Outcome)
    ensures
        r@ == outcome_of(shape@, reply@),
{
    match reply {
        TransportReply::Failed { message } => Outcome::Failure(
            ErrorDetail { category: ErrorCategory::TransportError, message },
        ),
        TransportReply::Connected { description } => {
            let headers: Vec<(String, String)> = Vec::new();
            assert(pairs_view(headers@) =~= Seq::empty());
            Outcome::Success(ResponsePayload { body: DecodedBody::Text(description), headers })
        },
        TransportReply::Response { status, headers, body } => {
            if status < 200 || status > 299 {
                return Outcome::Failure(status_failure(status));
            }
            match shape {
                ResponseShape::Text => Outcome::Success(
                    ResponsePayload { body: DecodedBody::Text(body), headers },
                ),
                ResponseShape::Embedded { field, record } => match decode_embedded(
                    body.as_str(),
                    field.as_str(),
                    record,
                ) {
                    Ok(config) => Outcome::Success(
                        ResponsePayload { body: DecodedBody::Record(config), headers },
                    ),
                    Err(message) => Outcome::Failure(
                        ErrorDetail { category: ErrorCategory::DecodeError, message },
                    ),
                },
            }
        },
    }
}

/// The mathematical value of an optional string.
pub open spec fn optional_text(text: Option<String>) -> Option<Seq<char>> {
    match text {
        Some(s) => Some(s@),
        None => None,
    }
}

/// The line for the diagnostic sink; see [`trace_of`].
pub fn trace_line(reply: &TransportReply) -> (r: Option<String>)
    ensures
        optional_text(r) == trace_of(reply@),
{
    match reply {
        TransportReply::Response { body, .. } => {
            let mut line = String::from_str("Response body:\n");
            line.append(body.as_str());
            Some(line)
        },
        TransportReply::Connected { description } => Some(description.clone()),
        TransportReply::Failed { .. } => None,
    }
}

/// The network operation that a call is for.
#[derive(Debug)]
pub enum Operation {
    /// An HTTP POST of `payload`, whose response is expected as `shape`.
    Post { payload: RequestPayload, shape: ResponseShape },
    /// The opening of a connection to a remote node.
    Connect,
}

/// The mathematical value of an [`Operation`].
pub ghost enum OperationView {
    Post { payload: PayloadView, shape: ShapeView },
    Connect,
}

impl View for Operation {
    type V = OperationView;

    open spec fn view(&self) -> OperationView {
        match self {
            Operation::Post { payload, shape } => OperationView::Post {
                payload: payload@,
                shape: shape@,
            },
            Operation::Connect => OperationView::Connect,
        }
    }
}

/// The schema that the parameters of an operation are read with.
pub open spec fn fields_of(operation: OperationView) -> Seq<FieldSpecView> {
    match operation {
        OperationView::Post { .. } => http_fields(),
        OperationView::Connect => node_fields(),
    }
}

/// Where a call stands.
#[derive(Debug)]
pub enum CallState {
    /// Nothing has happened yet.
    Idle { operation: Operation },
    /// The parameters were accepted; the request is to be built.
    Building { operation: Operation, config: RequestConfig },
    /// The request is with the transport.
    InFlight { shape: ResponseShape },
    /// The call ended with a success.
    Decoded,
    /// The call ended with a failure.
    Failed,
}

/// The mathematical value of a [`CallState`].
pub ghost enum StateView {
    Idle { operation: OperationView },
    Building { operation: OperationView, config: Seq<(Seq<char>, FieldView)> },
    InFlight { shape: ShapeView },
    Decoded,
    Failed,
}

impl View for CallState {
    type V = StateView;

    open spec fn view(&self) -> StateView {
        match self {
            CallState::Idle { operation } => StateView::Idle { operation: operation@ },
            CallState::Building { operation, config } => StateView::Building {
                operation: operation@,
                config: config@,
            },
            CallState::InFlight { shape } => StateView::InFlight { shape: shape@ },
            CallState::Decoded => StateView::Decoded,
            CallState::Failed => StateView::Failed,
        }
    }
}

/// What happened, as the caller of [`step`] reports it.
#[derive(Debug)]
pub enum Event {
    /// The call was made with these parameters.
    Start { params: RawParameters },
    /// Nothing happened outside: the call may go on.
    Proceed,
    /// The transport is done with the request.
    Reply { reply: TransportReply },
}

/// The mathematical value of an [`Event`].
pub ghost enum EventView {
    Start { params: Map<Seq<char>, DynView> },
    Proceed,
    Reply { reply: ReplyView },
}

impl View for Event {
    type V = EventView;

    open spec fn view(&self) -> EventView {
        match self {
            Event::Start { params } => EventView::Start { params: params@ },
            Event::Proceed => EventView::Proceed,
            Event::Reply { reply } => EventView::Reply { reply: reply@ },
        }
    }
}

/// What the caller of [`step`] is to do.
#[derive(Debug)]
pub enum Action {
    /// The event does not belong to this state: there is nothing to do.
    Nothing,
    /// Report [`Event::Proceed`].
    Advance,
    /// Hand the request to the HTTP transport, and report its reply.
    Send { request: HttpRequest },
    /// Open the connection, and report the reply.
    Connect { connection: ConnectionRequest },
    /// Write `trace`, where there is one, to the diagnostic sink, and hand
    /// `outcome` back: the call is over.
    Finish { outcome: Outcome, trace: Option<String> },
}

/// The mathematical value of an [`Action`].
pub ghost enum ActionView {
    Nothing,
    Advance,
    Send { request: HttpRequestView },
    Connect { connection: ConnectionView },
    Finish { outcome: OutcomeView, trace: Option<Seq<char>> },
}

impl View for Action {
    type V = ActionView;

    open spec fn view(&self) -> ActionView {
        match self {
            Action::Nothing => ActionView::Nothing,
            Action::Advance => ActionView::Advance,
            Action::Send { request } => ActionView::Send { request: request@ },
            Action::Connect { connection } => ActionView::Connect { connection: connection@ },
            Action::Finish { outcome, trace } => ActionView::Finish {
                outcome: outcome@,
                trace: optional_text(*trace),
            },
        }
    }
}

/// The end of a call that fails before anything is sent.
pub open spec fn rejected(e: ExtractErrorView) -> (StateView, ActionView) {
    (
        StateView::Failed,
        ActionView::Finish { outcome: OutcomeView::Failure(extraction_detail(e)), trace: None },
    )
}

/// The error of a configuration that names no target.
pub open spec fn no_target() -> ExtractErrorView {
    ExtractErrorView::MissingField { name: "url"@ }
}

/// One transition of a call: the state after `event`, and what is to be
/// done.
///
/// - Idle, on `Start`: the parameters are read with the schema of the
///   operation. Where that fails the call is over, with the failure, and
///   nothing is ever sent.
/// - Building, on `Proceed`: the request is built and goes out.
/// - In flight, on `Reply`: the call is over, with the outcome that
///   [`outcome_of`] gives and the line of [`trace_of`].
/// - Any other event leaves the state as it is.
pub open spec fn next(state: StateView, event: EventView) -> (StateView, ActionView) {
    match (state, event) {
        (StateView::Idle { operation }, EventView::Start { params }) => match extraction(
            params,
            fields_of(operation),
        ) {
            Ok(config) => (StateView::Building { operation, config }, ActionView::Advance),
            Err(e) => rejected(e),
        },
        (StateView::Building { operation, config }, EventView::Proceed) => match operation {
            OperationView::Post { payload, shape } => match post_of(config, payload) {
                Some(request) => (StateView::InFlight { shape }, ActionView::Send { request }),
                None => rejected(no_target()),
            },
            OperationView::Connect => match connection_of(config) {
                Some(connection) => (
                    StateView::InFlight { shape: ShapeView::Text },
                    ActionView::Connect { connection },
                ),
                None => rejected(no_target()),
            },
        },
        (StateView::InFlight { shape }, EventView::Reply { reply }) => {
            let outcome = outcome_of(shape, reply);
            (
                if outcome is Success {
                    StateView::Decoded
                } else {
                    StateView::Failed
                },
                ActionView::Finish { outcome, trace: trace_of(reply) },
            )
        },
        _ => (state, ActionView::Nothing),
    }
}

fn reject(e: &ExtractError) -> (r: (CallState, Action))
    ensures
        (r.0@, r.1@) == rejected(e@),
{
    (CallState::Failed, Action::Finish { outcome: Outcome::Failure(e.detail()), trace: None })
}

fn reject_without_target() -> (r: (CallState, Action))
    ensures
        (r.0@, r.1@) == rejected(no_target()),
{
    reject(&ExtractError::MissingField { name: String::from_str("url") })
}

/// Performs one transition of a call; see [`next`].
pub fn step(state: CallState, event: Event) -> (r: (CallState, Action))
    ensures
        (r.0@, r.1@) == next(state@, event@),
{
    match (state, event) {
        (CallState::Idle { operation }, Event::Start { params }) => {
            let schema = match &operation {
                Operation::Post { .. } => http_schema(),
                Operation::Connect => node_schema(),
            };
            match extract(&params, &schema) {
                Ok(config) => (CallState::Building { operation, config }, Action::Advance),
                Err(e) => reject(&e),
            }
        },
        (CallState::Building { operation, config }, Event::Proceed) => match operation {
            Operation::Post { payload, shape } => match http_request(&config, &payload) {
                Some(request) => (CallState::InFlight { shape }, Action::Send { request }),
                None => reject_without_target(),
            },
            Operation::Connect => match connection_request(&config) {
                Some(connection) => (
                    CallState::InFlight { shape: ResponseShape::Text },
                    Action::Connect { connection },
                ),
                None => reject_without_target(),
            },
        },
        (CallState::InFlight { shape }, Event::Reply { reply }) => {
            let trace = trace_line(&reply);
            let outcome = conclude(&shape, reply);
            let after = if outcome.is_success() {
                CallState::Decoded
            } else {
                CallState::Failed
            };
            (after, Action::Finish { outcome, trace })
        },
        (state, _) => (state, Action::Nothing),
    }
}

} // verus!
