//! Extraction of a typed configuration from untyped parameters.

use vstd::prelude::*;
use vstd::string::StringExecFns;
use crate::schema::{FieldSpec, FieldSpecView, FieldType, FieldValue, FieldView, Schema};
use crate::value::{DynValue, DynView, RawParameters};

verus! {

/// Why no configuration could be extracted.
#[derive(Debug)]
pub enum ExtractError {
    /// A required field has no binding.
    MissingField { name: String },
    /// A required field is bound to a value that its type does not accept.
    TypeMismatch { name: String, expected: FieldType },
}

/// The mathematical value of an [`ExtractError`].
pub ghost enum ExtractErrorView {
    MissingField { name: Seq<char> },
    TypeMismatch { name: Seq<char>, expected: FieldType },
}

impl View for ExtractError {
    type V = ExtractErrorView;

    open spec fn view(&self) -> ExtractErrorView {
        match self {
            ExtractError::MissingField { name } => ExtractErrorView::MissingField { name: name@ },
            ExtractError::TypeMismatch { name, expected } => ExtractErrorView::TypeMismatch {
                name: name@,
                expected: *expected,
            },
        }
    }
}

/// What a value becomes in a field of type `ty`, if the type accepts it.
///
/// A text field accepts strings. A flag accepts booleans. A number accepts
/// the integers from 0 to `u32::MAX`, and a boolean as 0 or 1. Nothing else
/// is accepted; in particular no string is read as a number.
pub open spec fn coerce(value: DynView, ty: FieldType) -> Option<FieldView> {
    match (ty, value) {
        (FieldType::Text, DynView::Str(s)) => Some(FieldView::Text(s)),
        (FieldType::Number, DynView::Int(n)) => if 0 <= n <= u32::MAX {
            Some(FieldView::Number(n))
        } else {
            None
        },
        (FieldType::Number, DynView::Bool(b)) => Some(FieldView::Number(if b { 1 } else { 0 })),
        (FieldType::Flag, DynView::Bool(b)) => Some(FieldView::Flag(b)),
        _ => None,
    }
}

/// Whether `field` is bound in `params` to a value that its type accepts.
pub open spec fn supplied(params: Map<Seq<char>, DynView>, field: FieldSpecView) -> bool {
    params.contains_key(field.name) && coerce(params[field.name], field.ty) is Some
}

/// The outcome of one field: its value, or the reason why there is none.
///
/// A required field fails when it is absent or not accepted. An optional
/// field never fails: absent or not accepted, it takes its default.
pub open spec fn resolve(params: Map<Seq<char>, DynView>, field: FieldSpecView) -> Result<
    FieldView,
    ExtractErrorView,
> {
    if supplied(params, field) {
        Ok(coerce(params[field.name], field.ty)->Some_0)
    } else if !field.required {
        Ok(field.default)
    } else if params.contains_key(field.name) {
        Err(ExtractErrorView::TypeMismatch { name: field.name, expected: field.ty })
    } else {
        Err(ExtractErrorView::MissingField { name: field.name })
    }
}

/// Whether every field of `schema` resolves to a value.
pub open spec fn all_resolve(params: Map<Seq<char>, DynView>, schema: Seq<FieldSpecView>) -> bool {
    forall|i: int| 0 <= i < schema.len() ==> (#[trigger] resolve(params, schema[i])) is Ok
}

/// Whether field `i` is the first, in the order of declaration, that fails.
pub open spec fn first_failure(
    params: Map<Seq<char>, DynView>,
    schema: Seq<FieldSpecView>,
    i: int,
) -> bool {
    &&& 0 <= i < schema.len()
    &&& resolve(params, schema[i]) is Err
    &&& forall|j: int| 0 <= j < i ==> (#[trigger] resolve(params, schema[j])) is Ok
}

/// The fields of the configuration that `params` gives under `schema`, where
/// every field resolves: one entry per declared field, in the same order.
pub open spec fn resolved_fields(
    params: Map<Seq<char>, DynView>,
    schema: Seq<FieldSpecView>,
) -> Seq<(Seq<char>, FieldView)> {
    Seq::new(schema.len(), |i: int| (schema[i].name, resolve(params, schema[i])->Ok_0))
}

/// What extraction gives: the fields where every one resolves, and else the
/// error of the first field that fails.
pub open spec fn extraction(params: Map<Seq<char>, DynView>, schema: Seq<FieldSpecView>) -> Result<
    Seq<(Seq<char>, FieldView)>,
    ExtractErrorView,
> {
    if all_resolve(params, schema) {
        Ok(resolved_fields(params, schema))
    } else {
        let i = choose|i: int| first_failure(params, schema, i);
        Err(resolve(params, schema[i])->Err_0)
    }
}

/// At most one field is the first that fails.
pub proof fn first_failure_is_unique(
    params: Map<Seq<char>, DynView>,
    schema: Seq<FieldSpecView>,
    i: int,
    j: int,
)
    requires
        first_failure(params, schema, i),
        first_failure(params, schema, j),
    ensures
        i == j,
{
    if i < j {
        assert(resolve(params, schema[i]) is Ok);
    } else if j < i {
        assert(resolve(params, schema[j]) is Ok);
    }
}

/// The value of the first entry of `fields` called `name`.
pub open spec fn lookup(fields: Seq<(Seq<char>, FieldView)>, name: Seq<char>) -> Option<FieldView>
    decreases fields.len(),
{
    if fields.len() == 0 {
        None
    } else if fields[0].0 == name {
        Some(fields[0].1)
    } else {
        lookup(fields.drop_first(), name)
    }
}

/// A typed record with a closed set of named fields: the configuration of a
/// request, and likewise the record that is read from a response.
///
/// It is built by [`extract`] and cannot be changed afterwards.
#[derive(Debug)]
pub struct RequestConfig {
    fields: Vec<(String, FieldValue)>,
}

impl View for RequestConfig {
    type V = Seq<(Seq<char>, FieldView)>;

    closed spec fn view(&self) -> Seq<(Seq<char>, FieldView)> {
        Seq::new(self.fields@.len(), |i: int| (self.fields@[i].0@, self.fields@[i].1@))
    }
}

impl Clone for RequestConfig {
    fn clone(&self) -> (r: RequestConfig)
        ensures
            r@ == self@,
    {
        let mut fields: Vec<(String, FieldValue)> = Vec::new();
        let mut i: usize = 0;
        while i < self.fields.len()
            invariant
                i <= self.fields.len(),
                fields@.len() == i,
                forall|j: int|
                    0 <= j < i ==> fields@[j].0@ == self.fields@[j].0@ && fields@[j].1@
                        == self.fields@[j].1@,
            decreases self.fields.len() - i,
        {
            fields.push((self.fields[i].0.clone(), self.fields[i].1.clone()));
            i = i + 1;
        }
        RequestConfig { fields }
    }
}

impl RequestConfig {
    /// The number of fields.
    pub fn len(&self) -> (r: usize)
        ensures
            r == self@.len(),
    {
        self.fields.len()
    }

    /// The name of the field at position `i`.
    pub fn name_at(&self, i: usize) -> (r: Option<&String>)
        ensures
            match r {
                Some(n) => i < self@.len() && n@ == self@[i as int].0,
                None => i >= self@.len(),
            },
    {
        if i < self.fields.len() {
            Some(&self.fields[i].0)
        } else {
            None
        }
    }

    /// The value of the field at position `i`.
    pub fn value_at(&self, i: usize) -> (r: Option<&FieldValue>)
        ensures
            match r {
                Some(v) => i < self@.len() && v@ == self@[i as int].1,
                None => i >= self@.len(),
            },
    {
        if i < self.fields.len() {
            Some(&self.fields[i].1)
        } else {
            None
        }
    }

    /// The value of the field called `name`; `None` where the record has no
    /// such field. A field that was left out is there, and unset.
    pub fn get(&self, name: &str) -> (r: Option<&FieldValue>)
        ensures
            match r {
                Some(v) => lookup(self@, name@) == Some(v@),
                None => lookup(self@, name@) is None,
            },
    {
        let wanted = String::from_str(name);
        let mut i: usize = 0;
        assert(self@.skip(0) == self@);
        while i < self.fields.len()
            invariant
                i <= self.fields.len(),
                wanted@ == name@,
                lookup(self@, name@) == lookup(self@.skip(i as int), name@),
            decreases self.fields.len() - i,
        {
            assert(self@.skip(i as int).drop_first() == self@.skip(i + 1));
            if self.fields[i].0 == wanted {
                return Some(&self.fields[i].1);
            }
            i = i + 1;
        }
        None
    }

    /// The string in the field called `name`, if it holds one.
    pub fn text(&self, name: &str) -> (r: Option<&String>)
        ensures
            match r {
                Some(s) => lookup(self@, name@) == Some(FieldView::Text(s@)),
                None => !(lookup(self@, name@) matches Some(FieldView::Text(_))),
            },
    {
        match self.get(name) {
            Some(FieldValue::Text(s)) => Some(s),
            _ => None,
        }
    }

    /// The number in the field called `name`, if it holds one.
    pub fn number(&self, name: &str) -> (r: Option<u32>)
        ensures
            match r {
                Some(n) => lookup(self@, name@) == Some(FieldView::Number(n as int)),
                None => !(lookup(self@, name@) matches Some(FieldView::Number(_))),
            },
    {
        match self.get(name) {
            Some(FieldValue::Number(n)) => Some(*n),
            _ => None,
        }
    }

    /// The boolean in the field called `name`, if it holds one.
    pub fn flag(&self, name: &str) -> (r: Option<bool>)
        ensures
            match r {
                Some(b) => lookup(self@, name@) == Some(FieldView::Flag(b)),
                None => !(lookup(self@, name@) matches Some(FieldView::Flag(_))),
            },
    {
        match self.get(name) {
            Some(FieldValue::Flag(b)) => Some(*b),
            _ => None,
        }
    }
}

/// The value that `value` becomes in a field of type `ty`.
pub fn coerce_value(value: &DynValue, ty: FieldType) -> (r: Option<FieldValue>)
    ensures
        match r {
            Some(v) => coerce(value@, ty) == Some(v@),
            None => coerce(value@, ty) is None,
        },
{
    match ty {
        FieldType::Text => match value {
            DynValue::Str(s) => Some(FieldValue::Text(s.clone())),
            _ => None,
        },
        FieldType::Number => match value {
            DynValue::Int(n) => {
                if 0 <= *n && *n <= 0xffff_ffff {
                    Some(FieldValue::Number(*n as u32))
                } else {
                    None
                }
            },
            DynValue::Bool(b) => Some(FieldValue::Number(if *b { 1 } else { 0 })),
            _ => None,
        },
        FieldType::Flag => match value {
            DynValue::Bool(b) => Some(FieldValue::Flag(*b)),
            _ => None,
        },
    }
}

/// Resolves one field of a schema against `params`.
pub fn resolve_field(params: &RawParameters, field: &FieldSpec) -> (r: Result<
    FieldValue,
    ExtractError,
>)
    ensures
        match r {
            Ok(v) => resolve(params@, field@) == Ok::<FieldView, ExtractErrorView>(v@)
                && v@.conforms(field@.ty),
            Err(e) => resolve(params@, field@) == Err::<FieldView, ExtractErrorView>(e@),
        },
{
    let found = params.get(field.name().as_str());
    let accepted = match found {
        Some(value) => coerce_value(value, field.field_type()),
        None => None,
    };
    match accepted {
        Some(v) => Ok(v),
        None => {
            if !field.is_required() {
                Ok(field.default_value().clone())
            } else if found.is_some() {
                Err(
                    ExtractError::TypeMismatch {
                        name: field.name().clone(),
                        expected: field.field_type(),
                    },
                )
            } else {
                Err(ExtractError::MissingField { name: field.name().clone() })
            }
        },
    }
}

/// Extracts the configuration that `schema` declares from `params`.
///
/// The fields are resolved in the order of their declaration, and the first
/// one that fails gives the error. Bindings of `params` that `schema` does
/// not declare are not looked at. Each field of the configuration holds a
/// value of its declared type, or is unset.
pub fn extract(params: &RawParameters, schema: &Schema) -> (r: Result<RequestConfig, ExtractError>)
    ensures
        match r {
            Ok(config) => extraction(params@, schema@) == Ok::<
                Seq<(Seq<char>, FieldView)>,
                ExtractErrorView,
            >(config@),
            Err(e) => extraction(params@, schema@) == Err::<
                Seq<(Seq<char>, FieldView)>,
                ExtractErrorView,
            >(e@),
        },
        match r {
            Ok(config) => all_resolve(params@, schema@) && config@ == resolved_fields(
                params@,
                schema@,
            ),
            Err(e) => exists|i: int|
                #![trigger schema@[i]]
                first_failure(params@, schema@, i) && resolve(params@, schema@[i]) == Err::<
                    FieldView,
                    ExtractErrorView,
                >(e@),
        },
        r matches Ok(config) ==> forall|i: int|
            0 <= i < schema@.len() ==> (#[trigger] config@[i]).1.conforms(schema@[i].ty),
{
    let mut fields: Vec<(String, FieldValue)> = Vec::new();
    let mut i: usize = 0;
    while i < schema.len()
        invariant
            i <= schema@.len(),
            fields@.len() == i,
            forall|j: int| 0 <= j < i ==> (#[trigger] resolve(params@, schema@[j])) is Ok,
            forall|j: int|
                0 <= j < i ==> (#[trigger] fields@[j]).0@ == schema@[j].name && fields@[j].1@
                    == resolve(params@, schema@[j])->Ok_0 && fields@[j].1@.conforms(
                    schema@[j].ty,
                ),
        decreases schema@.len() - i,
    {
        let field = schema.at(i);
        match resolve_field(params, field) {
            Ok(v) => {
                fields.push((field.name().clone(), v));
            },
            Err(e) => {
                assert(first_failure(params@, schema@, i as int));
                proof {
                    let k = choose|k: int| first_failure(params@, schema@, k);
                    first_failure_is_unique(params@, schema@, i as int, k);
                }
                return Err(e);
            },
        }
        i = i + 1;
    }
    let config = RequestConfig { fields };
    assert(config@ =~= resolved_fields(params@, schema@));
    Ok(config)
}

} // verus!
