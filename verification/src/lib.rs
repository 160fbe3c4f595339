//! Typed request configuration extracted from loosely typed parameters, and
//! the decisions around one outbound network operation.
//!
//! A caller hands over a bag of named values of unknown type. [`extract`]
//! reads it against a [`schema`] and gives a typed configuration, or says
//! which required field is missing or mistyped. From the configuration
//! [`request`] builds what goes out: an HTTP POST, or the opening of a
//! connection to a remote node. [`executor`] leads a call from its start to
//! its end. It performs no network operation itself: it says what is to be
//! sent, takes what came back, and decides the outcome. [`json`] reads the
//! body of a response where a record is expected in it, and [`laws`] states
//! what holds of all of this for every input.

pub mod executor;
pub mod extract;
pub mod json;
pub mod laws;
pub mod outcome;
pub mod presets;
pub mod request;
pub mod schema;
pub mod text;
pub mod value;
