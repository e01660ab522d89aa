//! Form fields: sizes, input values, field keys and the messages between a
//! form and its fields.

use vstd::prelude::*;
use crate::gui::validation::ValidationErrors;

verus! {

/// The size of a form element.
#[derive(PartialEq, Eq, Structural, Clone, Copy, Debug)]
pub enum Size {
    Small,
    Normal,
    Medium,
    Big,
}

impl Size {
    /// The CSS class of the size; none for the normal size.
    pub fn to_class(&self) -> (r: Option<String>)
        ensures
            *self == Size::Small ==> (r matches Some(c) && c@ == "is-small"@),
            *self == Size::Normal ==> r is None,
            *self == Size::Medium ==> (r matches Some(c) && c@ == "is-medium"@),
            *self == Size::Big ==> (r matches Some(c) && c@ == "is-big"@),
    {
        match self {
            Size::Small => Some("is-small".to_owned()),
            Size::Normal => None,
            Size::Medium => Some("is-medium".to_owned()),
            Size::Big => Some("is-big".to_owned()),
        }
    }
}

impl Default for Size {
    fn default() -> (s: Size)
        ensures
            s == Size::Normal,
    {
        Size::Normal
    }
}

/// The value of an input field.
#[derive(Debug, Clone)]
pub enum InputValue {
    String(String),
}

impl InputValue {
    /// The string held.
    pub fn as_string(&self) -> (s: &String)
        ensures
            *self == InputValue::String(*s),
    {
        match self {
            InputValue::String(value) => value,
        }
    }

    /// The string held, taken out.
    pub fn into_string(self) -> (s: String)
        ensures
            self == InputValue::String(s),
    {
        match self {
            InputValue::String(value) => value,
        }
    }
}

/// The key that names a field of a form.
pub trait FieldKey: Clone + PartialEq + std::fmt::Display + std::hash::Hash + Eq + std::fmt::Debug {
    /// The label shown for the field.
    fn field_label(&self) -> String;
}

/// A link through which a form talks to one of its fields.
pub trait FieldLink<Key: Clone>: std::fmt::Debug {
    /// The key of the field.
    fn field_key(&self) -> &Key;

    /// Sends a message to the field.
    fn send_message(&self, msg: FieldMsg);
}

/// A field of a form.
pub trait FormField<Key> {
    /// The validation errors of the field's value.
    fn validation_errors(&self) -> &ValidationErrors<Key>;

    /// The key of the field.
    fn field_key(&self) -> &Key;
}

/// A message from a form to a field.
#[derive(Copy, Clone, Debug, PartialEq, Eq, Structural)]
pub enum FieldMsg {
    /// Validate the field's value.
    Validate,
}

/// A message to a form.
#[derive(Clone, Debug)]
pub enum FormMsg<Key> {
    /// The value of the field changed.
    FieldValueUpdate(Key),
    /// The validation errors of the field changed.
    FieldValidationUpdate(Key, ValidationErrors<Key>),
    /// The form is submitted.
    Submit,
    /// The form is cancelled.
    Cancel,
}

} // verus!
