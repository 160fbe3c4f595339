//! Field schemas: which named fields a configuration has, which of them must
//! be present, and what type each holds.

use vstd::prelude::*;
use vstd::string::StringExecFns;

verus! {

/// The type that a field is declared with.
#[derive(Clone, Copy, Debug, PartialEq, Eq, Structural)]
pub enum FieldType {
    /// A string.
    Text,
    /// An unsigned integer of 32 bits.
    Number,
    /// A boolean.
    Flag,
}

/// The value of one field of a typed record.
#[derive(Debug)]
pub enum FieldValue {
    /// The field was not given a value.
    Unset,
    Text(String),
    Number(u32),
    Flag(bool),
}

/// The mathematical value of a [`FieldValue`].
pub ghost enum FieldView {
    Unset,
    Text(Seq<char>),
    Number(int),
    Flag(bool),
}

impl FieldView {
    /// Whether the value is unset or of type `ty`.
    pub open spec fn conforms(self, ty: FieldType) -> bool {
        match self {
            FieldView::Unset => true,
            FieldView::Text(_) => ty == FieldType::Text,
            FieldView::Number(n) => ty == FieldType::Number && 0 <= n <= u32::MAX,
            FieldView::Flag(_) => ty == FieldType::Flag,
        }
    }
}

impl View for FieldValue {
    type V = FieldView;

    open spec fn view(&self) -> FieldView {
        match self {
            FieldValue::Unset => FieldView::Unset,
            FieldValue::Text(s) => FieldView::Text(s@),
            FieldValue::Number(n) => FieldView::Number(*n as int),
            FieldValue::Flag(b) => FieldView::Flag(*b),
        }
    }
}

impl Clone for FieldValue {
    fn clone(&self) -> (r: FieldValue)
        ensures
            r@ == self@,
    {
        match self {
            FieldValue::Unset => FieldValue::Unset,
            FieldValue::Text(s) => FieldValue::Text(s.clone()),
            FieldValue::Number(n) => FieldValue::Number(*n),
            FieldValue::Flag(b) => FieldValue::Flag(*b),
        }
    }
}

impl FieldValue {
    /// Whether the field was given a value.
    pub fn is_set(&self) -> (r: bool)
        ensures
            r == !(self@ is Unset),
    {
        match self {
            FieldValue::Unset => false,
            _ => true,
        }
    }
}

/// The declaration of one field: its name, whether it must be present, its
/// type, and the value it takes when it is optional and not supplied.
#[derive(Debug)]
pub struct FieldSpec {
    name: String,
    required: bool,
    ty: FieldType,
    default: FieldValue,
}

/// The mathematical value of a [`FieldSpec`].
pub ghost struct FieldSpecView {
    pub name: Seq<char>,
    pub required: bool,
    pub ty: FieldType,
    pub default: FieldView,
}

impl FieldSpecView {
    /// The default is unset or of the declared type.
    pub open spec fn wf(self) -> bool {
        self.default.conforms(self.ty)
    }
}

impl View for FieldSpec {
    type V = FieldSpecView;

    closed spec fn view(&self) -> FieldSpecView {
        FieldSpecView {
            name: self.name@,
            required: self.required,
            ty: self.ty,
            default: self.default@,
        }
    }
}

impl Clone for FieldSpec {
    fn clone(&self) -> (r: FieldSpec)
        ensures
            r@ == self@,
    {
        proof {
            use_type_invariant(self);
        }
        FieldSpec {
            name: self.name.clone(),
            required: self.required,
            ty: self.ty,
            default: self.default.clone(),
        }
    }
}

impl FieldSpec {
    #[verifier::type_invariant]
    spec fn default_conforms(self) -> bool {
        self.default@.conforms(self.ty)
    }

    /// A field that must be present with a value of type `ty`.
    pub fn required(name: &str, ty: FieldType) -> (r: FieldSpec)
        ensures
            r@ == (FieldSpecView { name: name@, required: true, ty, default: FieldView::Unset }),
    {
        FieldSpec { name: String::from_str(name), required: true, ty, default: FieldValue::Unset }
    }

    /// A field that may be left out, and is then unset.
    pub fn optional(name: &str, ty: FieldType) -> (r: FieldSpec)
        ensures
            r@ == (FieldSpecView { name: name@, required: false, ty, default: FieldView::Unset }),
    {
        FieldSpec { name: String::from_str(name), required: false, ty, default: FieldValue::Unset }
    }

    /// A text field that may be left out, and then holds `default`.
    pub fn optional_text(name: &str, default: &str) -> (r: FieldSpec)
        ensures
            r@ == (FieldSpecView {
                name: name@,
                required: false,
                ty: FieldType::Text,
                default: FieldView::Text(default@),
            }),
    {
        FieldSpec {
            name: String::from_str(name),
            required: false,
            ty: FieldType::Text,
            default: FieldValue::Text(String::from_str(default)),
        }
    }

    /// A numeric field that may be left out, and then holds `default`.
    pub fn optional_number(name: &str, default: u32) -> (r: FieldSpec)
        ensures
            r@ == (FieldSpecView {
                name: name@,
                required: false,
                ty: FieldType::Number,
                default: FieldView::Number(default as int),
            }),
    {
        FieldSpec {
            name: String::from_str(name),
            required: false,
            ty: FieldType::Number,
            default: FieldValue::Number(default),
        }
    }

    /// A boolean field that may be left out, and then holds `default`.
    pub fn optional_flag(name: &str, default: bool) -> (r: FieldSpec)
        ensures
            r@ == (FieldSpecView {
                name: name@,
                required: false,
                ty: FieldType::Flag,
                default: FieldView::Flag(default),
            }),
    {
        FieldSpec {
            name: String::from_str(name),
            required: false,
            ty: FieldType::Flag,
            default: FieldValue::Flag(default),
        }
    }

    pub fn name(&self) -> (r: &String)
        ensures
            r@ == self@.name,
    {
        &self.name
    }

    pub fn is_required(&self) -> (r: bool)
        ensures
            r == self@.required,
    {
        self.required
    }

    pub fn field_type(&self) -> (r: FieldType)
        ensures
            r == self@.ty,
    {
        self.ty
    }

    /// The value that the field takes when it is optional and not supplied.
    pub fn default_value(&self) -> (r: &FieldValue)
        ensures
            r@ == self@.default,
            self@.wf(),
    {
        proof {
            use_type_invariant(self);
        }
        &self.default
    }
}

/// The fields of a configuration, in the order of their declaration.
#[derive(Debug)]
pub struct Schema {
    fields: Vec<FieldSpec>,
}

impl View for Schema {
    type V = Seq<FieldSpecView>;

    closed spec fn view(&self) -> Seq<FieldSpecView> {
        Seq::new(self.fields@.len(), |i: int| self.fields@[i]@)
    }
}

/// Every declared default is unset or of its field's type.
pub open spec fn schema_wf(schema: Seq<FieldSpecView>) -> bool {
    forall|i: int| 0 <= i < schema.len() ==> (#[trigger] schema[i]).wf()
}

impl Schema {
    /// The schema without fields.
    pub fn new() -> (r: Schema)
        ensures
            r@ == Seq::<FieldSpecView>::empty(),
    {
        Schema { fields: Vec::new() }
    }

    /// Declares one more field, after those already declared.
    pub fn push(&mut self, field: FieldSpec)
        ensures
            final(self)@ == old(self)@.push(field@),
    {
        self.fields.push(field);
    }

    /// The number of declared fields.
    pub fn len(&self) -> (r: usize)
        ensures
            r == self@.len(),
    {
        self.fields.len()
    }

    pub(crate) fn at(&self, i: usize) -> (r: &FieldSpec)
        requires
            i < self@.len(),
        ensures
            r@ == self@[i as int],
    {
        &self.fields[i]
    }

    /// The field declared at position `i`.
    pub fn field(&self, i: usize) -> (r: Option<&FieldSpec>)
        ensures
            match r {
                Some(f) => i < self@.len() && f@ == self@[i as int],
                None => i >= self@.len(),
            },
    {
        if i < self.fields.len() {
            Some(&self.fields[i])
        } else {
            None
        }
    }
}

} // verus!
