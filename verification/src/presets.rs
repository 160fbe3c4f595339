//! The two schemas that this library ships: one for an HTTP POST, one for a
//! connection to a remote node.

use vstd::prelude::*;
use crate::schema::{FieldSpec, FieldSpecView, FieldType, FieldView, Schema};

verus! {

/// A required field, as a mathematical value.
pub open spec fn required_field(name: Seq<char>, ty: FieldType) -> FieldSpecView {
    FieldSpecView { name, required: true, ty, default: FieldView::Unset }
}

/// An optional field that is unset when it is left out, as a mathematical
/// value.
pub open spec fn optional_field(name: Seq<char>, ty: FieldType) -> FieldSpecView {
    FieldSpecView { name, required: false, ty, default: FieldView::Unset }
}

/// The fields of an HTTP POST: the target, and how many seconds to wait for
/// the response. Without `timeout` the request waits without limit.
pub open spec fn http_fields() -> Seq<FieldSpecView> {
    seq![
        required_field("url"@, FieldType::Text),
        optional_field("timeout"@, FieldType::Number),
    ]
}

/// The fields of a connection to a remote node. Only `url` is required. The
/// library attaches no meaning to the others: it passes them on as they are.
pub open spec fn node_fields() -> Seq<FieldSpecView> {
    seq![
        required_field("url"@, FieldType::Text),
        optional_field("websocket"@, FieldType::Text),
        optional_field("ss58_format"@, FieldType::Number),
        optional_field("type_registry"@, FieldType::Text),
        optional_field("type_registry_preset"@, FieldType::Text),
        optional_field("cache_region"@, FieldType::Text),
        optional_field("runtime_config"@, FieldType::Text),
        optional_field("ws_options"@, FieldType::Text),
        optional_field("auto_discover"@, FieldType::Flag),
        optional_field("auto_reconnect"@, FieldType::Flag),
    ]
}

/// The schema of an HTTP POST.
pub fn http_schema() -> (r: Schema)
    ensures
        r@ == http_fields(),
{
    let mut schema = Schema::new();
    schema.push(FieldSpec::required("url", FieldType::Text));
    schema.push(FieldSpec::optional("timeout", FieldType::Number));
    assert(schema@ =~= http_fields());
    schema
}

/// The schema of a connection to a remote node.
pub fn node_schema() -> (r: Schema)
    ensures
        r@ == node_fields(),
{
    let mut schema = Schema::new();
    schema.push(FieldSpec::required("url", FieldType::Text));
    schema.push(FieldSpec::optional("websocket", FieldType::Text));
    schema.push(FieldSpec::optional("ss58_format", FieldType::Number));
    schema.push(FieldSpec::optional("type_registry", FieldType::Text));
    schema.push(FieldSpec::optional("type_registry_preset", FieldType::Text));
    schema.push(FieldSpec::optional("cache_region", FieldType::Text));
    schema.push(FieldSpec::optional("runtime_config", FieldType::Text));
    schema.push(FieldSpec::optional("ws_options", FieldType::Text));
    schema.push(FieldSpec::optional("auto_discover", FieldType::Flag));
    schema.push(FieldSpec::optional("auto_reconnect", FieldType::Flag));
    assert(schema@ =~= node_fields());
    schema
}

} // verus!
