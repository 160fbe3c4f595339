//! What one call ends with, and what the transport reports.

use vstd::prelude::*;
use vstd::string::StringExecFns;
use crate::extract::{ExtractError, ExtractErrorView, RequestConfig};
use crate::request::pairs_view;
use crate::schema::{FieldSpecView, FieldType, FieldView, Schema};
use crate::text::{decimal, push_decimal};

verus! {

/// The kinds of failure of a call.
#[derive(Clone, Copy, Debug, PartialEq, Eq, Structural)]
pub enum ErrorCategory {
    /// A required parameter was not supplied.
    MissingField,
    /// A required parameter was supplied with a value of the wrong type.
    TypeMismatch,
    /// The network operation failed, or the peer answered without success.
    TransportError,
    /// The response arrived and could not be read as what was expected.
    DecodeError,
}

/// A failure: its kind, and a message for a person to read.
#[derive(Debug)]
pub struct ErrorDetail {
    pub category: ErrorCategory,
    pub message: String,
}

/// The mathematical value of an [`ErrorDetail`].
pub ghost struct ErrorDetailView {
    pub category: ErrorCategory,
    pub message: Seq<char>,
}

impl View for ErrorDetail {
    type V = ErrorDetailView;

    open spec fn view(&self) -> ErrorDetailView {
        ErrorDetailView { category: self.category, message: self.message@ }
    }
}

/// The body of a response: its text as it came, or the record that was
/// decoded from it.
#[derive(Debug)]
pub enum DecodedBody {
    Text(String),
    Record(RequestConfig),
}

/// The mathematical value of a [`DecodedBody`].
pub ghost enum DecodedBodyView {
    Text(Seq<char>),
    Record(Seq<(Seq<char>, FieldView)>),
}

impl View for DecodedBody {
    type V = DecodedBodyView;

    open spec fn view(&self) -> DecodedBodyView {
        match self {
            DecodedBody::Text(s) => DecodedBodyView::Text(s@),
            DecodedBody::Record(r) => DecodedBodyView::Record(r@),
        }
    }
}

/// What a successful call hands back.
#[derive(Debug)]
pub struct ResponsePayload {
    pub body: DecodedBody,
    pub headers: Vec<(String, String)>,
}

/// The mathematical value of a [`ResponsePayload`].
pub ghost struct ResponsePayloadView {
    pub body: DecodedBodyView,
    pub headers: Seq<(Seq<char>, Seq<char>)>,
}

impl View for ResponsePayload {
    type V = ResponsePayloadView;

    open spec fn view(&self) -> ResponsePayloadView {
        ResponsePayloadView { body: self.body@, headers: pairs_view(self.headers@) }
    }
}

/// How one call ended.
#[derive(Debug)]
pub enum Outcome {
    Success(ResponsePayload),
    Failure(ErrorDetail),
}

/// The mathematical value of an [`Outcome`].
pub ghost enum OutcomeView {
    Success(ResponsePayloadView),
    Failure(ErrorDetailView),
}

impl View for Outcome {
    type V = OutcomeView;

    open spec fn view(&self) -> OutcomeView {
        match self {
            Outcome::Success(p) => OutcomeView::Success(p@),
            Outcome::Failure(d) => OutcomeView::Failure(d@),
        }
    }
}

impl Outcome {
    pub fn is_success(&self) -> (r: bool)
        ensures
            r == (self@ is Success),
    {
        match self {
            Outcome::Success(_) => true,
            Outcome::Failure(_) => false,
        }
    }
}

/// What came back from the one network operation of a call.
#[derive(Debug)]
pub enum TransportReply {
    /// An HTTP response, of whatever status.
    Response { status: u16, headers: Vec<(String, String)>, body: String },
    /// A node accepted the connection; `description` says what was connected.
    Connected { description: String },
    /// No answer: the connection was refused, timed out, or broke.
    Failed { message: String },
}

/// The mathematical value of a [`TransportReply`].
pub ghost enum ReplyView {
    Response { status: int, headers: Seq<(Seq<char>, Seq<char>)>, body: Seq<char> },
    Connected { description: Seq<char> },
    Failed { message: Seq<char> },
}

impl View for TransportReply {
    type V = ReplyView;

    open spec fn view(&self) -> ReplyView {
        match self {
            TransportReply::Response { status, headers, body } => ReplyView::Response {
                status: *status as int,
                headers: pairs_view(headers@),
                body: body@,
            },
            TransportReply::Connected { description } => ReplyView::Connected {
                description: description@,
            },
            TransportReply::Failed { message } => ReplyView::Failed { message: message@ },
        }
    }
}

/// What the caller expects the body of a response to be.
#[derive(Debug)]
pub enum ResponseShape {
    /// Text, to be handed back as it is.
    Text,
    /// A JSON object whose member `field` is a string that holds a second
    /// JSON object, which is to be read as a record with the fields of
    /// `record`.
    Embedded { field: String, record: Schema },
}

/// The mathematical value of a [`ResponseShape`].
pub ghost enum ShapeView {
    Text,
    Embedded { field: Seq<char>, record: Seq<FieldSpecView> },
}

impl View for ResponseShape {
    type V = ShapeView;

    open spec fn view(&self) -> ShapeView {
        match self {
            ResponseShape::Text => ShapeView::Text,
            ResponseShape::Embedded { field, record } => ShapeView::Embedded {
                field: field@,
                record: record@,
            },
        }
    }
}

/// How a message names a field type.
pub open spec fn type_phrase(ty: FieldType) -> Seq<char> {
    match ty {
        FieldType::Text => "a string"@,
        FieldType::Number => "an unsigned 32-bit integer"@,
        FieldType::Flag => "a boolean"@,
    }
}

/// The category and the message of a failed extraction.
pub open spec fn extraction_detail(e: ExtractErrorView) -> ErrorDetailView {
    match e {
        ExtractErrorView::MissingField { name } => ErrorDetailView {
            category: ErrorCategory::MissingField,
            message: "Missing '"@ + name + "' parameter"@,
        },
        ExtractErrorView::TypeMismatch { name, expected } => ErrorDetailView {
            category: ErrorCategory::TypeMismatch,
            message: "Parameter '"@ + name + "' is not "@ + type_phrase(expected),
        },
    }
}

/// The message for a response without success.
pub open spec fn status_message(status: int) -> Seq<char> {
    "HTTP status "@ + decimal(status as nat)
}

fn phrase(ty: FieldType) -> (r: &'static str)
    ensures
        r@ == type_phrase(ty),
{
    match ty {
        FieldType::Text => "a string",
        FieldType::Number => "an unsigned 32-bit integer",
        FieldType::Flag => "a boolean",
    }
}

impl ExtractError {
    /// The failure that this error is reported as.
    pub fn detail(&self) -> (r: ErrorDetail)
        ensures
            r@ == extraction_detail(self@),
    {
        match self {
            ExtractError::MissingField { name } => {
                let mut message = String::from_str("Missing '");
                message.append(name.as_str());
                message.append("' parameter");
                ErrorDetail { category: ErrorCategory::MissingField, message }
            },
            ExtractError::TypeMismatch { name, expected } => {
                let mut message = String::from_str("Parameter '");
                message.append(name.as_str());
                message.append("' is not ");
                message.append(phrase(*expected));
                ErrorDetail { category: ErrorCategory::TypeMismatch, message }
            },
        }
    }
}

/// The failure for a response of status `status`.
pub fn status_failure(status: u16) -> (r: ErrorDetail)
    ensures
        r@ == (ErrorDetailView {
            category: ErrorCategory::TransportError,
            message: status_message(status as int),
        }),
{
    let mut message = String::from_str("HTTP status ");
    push_decimal(&mut message, status as u32);
    ErrorDetail { category: ErrorCategory::TransportError, message }
}

} // verus!
