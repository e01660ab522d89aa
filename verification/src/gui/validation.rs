//! Validation of form values: errors attached to the key of a field.

use vstd::prelude::*;
use std::rc::Rc;
use vstd::std_specs::cmp::PartialEqSpec;
use crate::text::push_str;

verus! {

/// The message of a [ValidationError].
#[derive(Debug, Clone, PartialEq, Eq)]
pub enum ValidationMessage {
    /// The default message, `Validation error`.
    Default,
    /// A message of its own.
    Text(String),
}

/// An error in the value of the field with key `key`.
#[derive(Debug)]
pub struct ValidationError<Key> {
    /// The key of the field whose value is in error.
    pub key: Key,
    /// The message of the error.
    pub message: ValidationMessage,
}

impl<Key: Clone> Clone for ValidationError<Key> {
    fn clone(&self) -> (r: Self)
        ensures
            cloned(self.key, r.key),
            r.message == self.message,
    {
        let message = match &self.message {
            ValidationMessage::Default => ValidationMessage::Default,
            ValidationMessage::Text(s) => ValidationMessage::Text(s.clone()),
        };
        ValidationError { key: self.key.clone(), message }
    }
}

impl<Key> ValidationError<Key> {
    /// An error for the field `key`, with the default message.
    pub fn new(key: Key) -> (e: Self)
        ensures
            e.key == key,
            e.message == ValidationMessage::Default,
    {
        ValidationError { key, message: ValidationMessage::Default }
    }

    /// This error with the given message.
    pub fn message(self, message: &str) -> (e: Self)
        ensures
            e.key == self.key,
            e.message matches ValidationMessage::Text(s) && s@ == message@,
    {
        ValidationError { key: self.key, message: ValidationMessage::Text(message.to_owned()) }
    }

    /// This error with the message that `message` gives for its key.
    pub fn with_message<F: Fn(&Key) -> String>(self, message: F) -> (e: Self)
        requires
            message.requires((&self.key,)),
        ensures
            e.key == self.key,
            e.message matches ValidationMessage::Text(s) && message.ensures((&self.key,), s),
    {
        let text = message(&self.key);
        ValidationError { key: self.key, message: ValidationMessage::Text(text) }
    }

    /// The message of this error (what the error displays).
    pub fn get_message(&self) -> (s: String)
        ensures
            self.message == ValidationMessage::Default ==> s@ == "Validation error"@,
            self.message matches ValidationMessage::Text(t) ==> s@ == t@,
    {
        match &self.message {
            ValidationMessage::Default => "Validation error".to_owned(),
            ValidationMessage::Text(t) => t.clone(),
        }
    }
}

/// The message that the error displays.
pub open spec fn message_text<Key>(e: ValidationError<Key>) -> Seq<char> {
    match e.message {
        ValidationMessage::Default => "Validation error"@,
        ValidationMessage::Text(t) => t@,
    }
}

/// The messages of the errors, in order, separated by `", "`.
pub open spec fn joined_messages<Key>(errors: Seq<ValidationError<Key>>) -> Seq<char>
    decreases errors.len(),
{
    if errors.len() == 0 {
        Seq::empty()
    } else if errors.len() == 1 {
        message_text(errors[0])
    } else {
        joined_messages(errors.drop_last()) + ", "@ + message_text(errors.last())
    }
}

/// A list of validation errors.
#[derive(Debug)]
pub struct ValidationErrors<Key> {
    /// The errors.
    pub errors: Vec<ValidationError<Key>>,
}

/// The errors whose key equals `key` (by the keys' `==`).
pub open spec fn errors_with_key<Key: PartialEq>(errors: Seq<ValidationError<Key>>, key: Key) -> Seq<ValidationError<Key>> {
    errors.filter(|e: ValidationError<Key>| e.key.eq_spec(&key))
}

impl<Key: Clone> Clone for ValidationErrors<Key> {
    fn clone(&self) -> (r: Self)
        ensures
            r.errors.len() == self.errors.len(),
            forall|i: int| 0 <= i < r.errors.len() ==> cloned(self.errors@[i].key, (#[trigger] r.errors@[i]).key)
                && r.errors@[i].message == self.errors@[i].message,
    {
        let mut errors: Vec<ValidationError<Key>> = Vec::new();
        let mut i: usize = 0;
        while i < self.errors.len()
            invariant
                i <= self.errors.len(),
                errors.len() == i,
                forall|j: int| 0 <= j < i ==> cloned(self.errors@[j].key, (#[trigger] errors@[j]).key)
                    && errors@[j].message == self.errors@[j].message,
            decreases self.errors.len() - i,
        {
            errors.push(self.errors[i].clone());
            i = i + 1;
        }
        ValidationErrors { errors }
    }
}

impl<Key> ValidationErrors<Key> {
    /// A list of these errors.
    pub fn new(errors: Vec<ValidationError<Key>>) -> (r: Self)
        ensures
            r.errors == errors,
    {
        ValidationErrors { errors }
    }

    /// The empty list.
    pub fn empty() -> (r: Self)
        ensures
            r.errors@ == Seq::<ValidationError<Key>>::empty(),
    {
        ValidationErrors { errors: Vec::new() }
    }

    /// There are no errors.
    pub fn is_empty(&self) -> (b: bool)
        ensures
            b == (self.errors.len() == 0),
    {
        self.errors.len() == 0
    }

    /// Appends the other errors, in order.
    pub fn extend(&mut self, errors: ValidationErrors<Key>)
        ensures
            final(self).errors@ == old(self).errors@ + errors.errors@,
    {
        let mut other = errors.errors;
        self.errors.append(&mut other);
    }

    /// The number of errors.
    pub fn len(&self) -> (n: usize)
        ensures
            n == self.errors.len(),
    {
        self.errors.len()
    }

    /// The messages of the errors, in order, separated by `", "` (what the
    /// list displays).
    pub fn to_display_string(&self) -> (s: String)
        ensures
            s@ == joined_messages(self.errors@),
    {
        let mut s = String::new();
        let mut i: usize = 0;
        while i < self.errors.len()
            invariant
                i <= self.errors.len(),
                s@ == joined_messages(self.errors@.take(i as int)),
            decreases self.errors.len() - i,
        {
            let message = self.errors[i].get_message();
            if i > 0 {
                push_str(&mut s, ", ");
            }
            push_str(&mut s, message.as_str());
            proof {
                let taken = self.errors@.take(i as int + 1);
                assert(taken.drop_last() =~= self.errors@.take(i as int));
                reveal_strlit(", ");
            }
            i = i + 1;
        }
        proof {
            assert(self.errors@.take(i as int) =~= self.errors@);
        }
        s
    }
}

impl<Key: PartialEq + Clone> ValidationErrors<Key> {
    /// Copies of the errors of the field `key`, in order; `None` when there
    /// are none. (For keys whose `==` Verus knows; for others nothing is
    /// said of which errors are kept.)
    pub fn get(&self, key: &Key) -> (r: Option<ValidationErrors<Key>>)
        ensures
            Key::obeys_eq_spec() ==> ({
                let kept = errors_with_key(self.errors@, *key);
                &&& r is None <==> kept.len() == 0
                &&& r matches Some(found) ==> found.errors.len() == kept.len() && forall|i: int| 0 <= i < kept.len()
                    ==> cloned(kept[i].key, (#[trigger] found.errors@[i]).key) && found.errors@[i].message == kept[i].message
            }),
    {
        let mut errors: Vec<ValidationError<Key>> = Vec::new();
        let mut i: usize = 0;
        while i < self.errors.len()
            invariant
                i <= self.errors.len(),
                Key::obeys_eq_spec() ==> errors.len() == errors_with_key(self.errors@.take(i as int), *key).len(),
                Key::obeys_eq_spec() ==> forall|j: int| 0 <= j < errors.len() ==> cloned(errors_with_key(self.errors@.take(i as int), *key)[j].key, (#[trigger] errors@[j]).key)
                    && errors@[j].message == errors_with_key(self.errors@.take(i as int), *key)[j].message,
            decreases self.errors.len() - i,
        {
            proof {
                let f = |e: ValidationError<Key>| e.key.eq_spec(key);
                assert(self.errors@.take(i + 1) =~= self.errors@.take(i as int).push(self.errors@[i as int]));
                self.errors@.take(i as int).lemma_filter_push(self.errors@[i as int], f);
            }
            if self.errors[i].key == *key {
                errors.push(self.errors[i].clone());
            }
            i = i + 1;
        }
        proof {
            assert(self.errors@.take(i as int) =~= self.errors@);
        }
        if errors.len() > 0 {
            Some(ValidationErrors::new(errors))
        } else {
            None
        }
    }
}

/// A value that can be validated.
pub trait Validatable<Key> {
    /// `r` is an outcome of validating the value; a type that states
    /// nothing of its validation keeps this default.
    open spec fn validates_to(&self, r: Result<(), ValidationErrors<Key>>) -> bool {
        true
    }

    /// The errors of the value, if any.
    fn validate(&self) -> (r: Result<(), ValidationErrors<Key>>)
        ensures
            self.validates_to(r),
    ;

    /// The errors of the value, empty when it is valid: the errors of an
    /// outcome of [Validatable::validate].
    fn validate_or_empty(&self) -> (e: ValidationErrors<Key>)
        ensures
            exists|r: Result<(), ValidationErrors<Key>>| #[trigger] self.validates_to(r) && match r {
                Ok(()) => e.errors@.len() == 0,
                Err(errors) => e == errors,
            },
    {
        let r = self.validate();
        match r {
            Ok(()) => ValidationErrors::empty(),
            Err(errors) => errors,
        }
    }
}

/// A validation of values of the field `key`.
pub trait Validation<Value, Key> {
    /// `r` is an outcome of validating `value` as the value of the field
    /// `key`; a validation that states nothing of its outcomes keeps this
    /// default.
    open spec fn validates_value_to(&self, value: Value, key: Key, r: Result<(), ValidationErrors<Key>>) -> bool {
        true
    }

    /// The errors of `value` as the value of the field `key`, if any.
    fn validate_value(&self, value: &Value, key: &Key) -> (r: Result<(), ValidationErrors<Key>>)
        ensures
            self.validates_value_to(*value, *key, r),
    ;
}

/// A validation made of several validations, each applied in turn.
#[verifier::reject_recursive_types(Value)]
#[verifier::reject_recursive_types(Key)]
pub struct Validator<Value, Key> {
    /// The validations, in order.
    pub validations: Vec<Rc<dyn Validation<Value, Key> + 'static>>,
}

impl<Value, Key> Validator<Value, Key> {
    /// A validator without validations.
    pub fn new() -> (v: Self)
        ensures
            v.validations@.len() == 0,
    {
        Validator { validations: Vec::new() }
    }

    /// This validator with the validations `more` applied after its own,
    /// in order. (The validations come as a vector of shared validations:
    /// a single one would be converted to a trait object on the way in,
    /// which Verus does not take.)
    pub fn validation(self, more: Vec<Rc<dyn Validation<Value, Key> + 'static>>) -> (v: Self)
        ensures
            v.validations@ == self.validations@ + more@,
    {
        let mut validations = self.validations;
        let mut more = more;
        validations.append(&mut more);
        Validator { validations }
    }
}

/// `r` is the outcome of the first `n` validations, in order, whose own
/// outcomes on `value` and `key` are `rs`: `Ok` when none failed, else the
/// errors of those that failed, in order.
pub open spec fn validated_in_turn<Value, Key>(
    validations: Seq<Rc<dyn Validation<Value, Key>>>,
    value: Value,
    key: Key,
    rs: Seq<Result<(), ValidationErrors<Key>>>,
    r: Result<(), ValidationErrors<Key>>,
) -> bool {
    &&& rs.len() == validations.len()
    &&& forall|i: int| 0 <= i < rs.len() ==> #[trigger] validations[i].validates_value_to(value, key, rs[i])
    &&& r is Ok <==> failed_errors(rs).len() == 0
    &&& r matches Err(e) ==> e.errors@ == failed_errors(rs)
}

impl<Value, Key> Validation<Value, Key> for Validator<Value, Key> {
    open spec fn validates_value_to(&self, value: Value, key: Key, r: Result<(), ValidationErrors<Key>>) -> bool {
        exists|rs: Seq<Result<(), ValidationErrors<Key>>>| validated_in_turn(self.validations@, value, key, rs, r)
    }

    /// Applies each validation in turn: the errors of those that fail, in
    /// order, or `Ok` when none does.
    fn validate_value(&self, value: &Value, key: &Key) -> (r: Result<(), ValidationErrors<Key>>) {
        let mut errors = ValidationErrors::empty();
        let ghost mut rs: Seq<Result<(), ValidationErrors<Key>>> = Seq::empty();
        let mut i: usize = 0;
        while i < self.validations.len()
            invariant
                i <= self.validations.len(),
                rs.len() == i,
                forall|j: int| 0 <= j < i ==> #[trigger] self.validations@[j].validates_value_to(*value, *key, rs[j]),
                errors.errors@ == failed_errors(rs),
            decreases self.validations.len() - i,
        {
            let result = self.validations[i].validate_value(value, key);
            let ghost prev = rs;
            proof {
                rs = prev.push(result);
                assert(rs.drop_last() =~= prev);
                assert(rs.last() == result);
            }
            if let Err(new_errors) = result {
                errors.extend(new_errors);
            }
            i = i + 1;
        }
        let r = if errors.errors.len() > 0 {
            Err(errors)
        } else {
            Ok(())
        };
        proof {
            assert(validated_in_turn(self.validations@, *value, *key, rs, r));
        }
        r
    }
}

impl<Value, Key> Default for Validator<Value, Key> {
    /// A validator without validations.
    fn default() -> (v: Self)
        ensures
            v.validations@.len() == 0,
    {
        Validator::new()
    }
}

/// The combined outcome of several validations: the errors of those that
/// failed, in order, or `Ok` when none did.
pub fn combine_validations<Key>(results: Vec<Result<(), ValidationErrors<Key>>>) -> (r: Result<(), ValidationErrors<Key>>)
    ensures
        r is Ok <==> failed_errors(results@).len() == 0,
        r matches Err(e) ==> e.errors@ == failed_errors(results@),
{
    let mut errors = ValidationErrors::empty();
    let n: usize = results.len();
    let mut rest = results;
    let ghost all = rest@;
    let mut k: usize = 0;
    proof {
        assert(all.take(0) =~= Seq::<Result<(), ValidationErrors<Key>>>::empty());
    }
    while rest.len() > 0
        invariant
            k + rest.len() == all.len(),
            all.len() == n,
            rest@ == all.skip(k as int),
            errors.errors@ == failed_errors(all.take(k as int)),
        decreases rest.len(),
    {
        let result = rest.remove(0);
        proof {
            assert(result == all[k as int]);
            assert(rest@ =~= all.skip(k + 1));
            assert(all.take(k + 1).drop_last() =~= all.take(k as int));
        }
        if let Err(new_errors) = result {
            errors.extend(new_errors);
        }
        k = k + 1;
    }
    proof {
        assert(all.take(k as int) =~= all);
    }
    if errors.len() > 0 {
        Err(errors)
    } else {
        Ok(())
    }
}

/// The errors of the failed results, in order.
pub open spec fn failed_errors<Key>(results: Seq<Result<(), ValidationErrors<Key>>>) -> Seq<ValidationError<Key>>
    decreases results.len(),
{
    if results.len() == 0 {
        Seq::empty()
    } else {
        failed_errors(results.drop_last()) + match results.last() {
            Ok(()) => Seq::empty(),
            Err(e) => e.errors@,
        }
    }
}


/// The errors of a field after extending a list are those before, then
/// those of the other list: [ValidationErrors::get] after
/// [ValidationErrors::extend] finds the errors of both lists, in order.
pub proof fn law_errors_of_key_after_extend<Key: PartialEq>(a: Seq<ValidationError<Key>>, b: Seq<ValidationError<Key>>, key: Key)
    ensures
        errors_with_key(a + b, key) == errors_with_key(a, key) + errors_with_key(b, key),
{
    Seq::filter_distributes_over_add(a, b, |e: ValidationError<Key>| e.key.eq_spec(&key));
}

/// Several validations pass together exactly when each passes.
pub proof fn law_combined_validations_pass_when_each_passes<Key>(results: Seq<Result<(), ValidationErrors<Key>>>)
    requires
        forall|i: int| 0 <= i < results.len() ==> (#[trigger] results[i]) is Ok,
    ensures
        failed_errors(results).len() == 0,
    decreases results.len(),
{
    if results.len() > 0 {
        let rest = results.drop_last();
        assert forall|i: int| 0 <= i < rest.len() implies (#[trigger] rest[i]) is Ok by {
            assert(rest[i] == results[i]);
        }
        law_combined_validations_pass_when_each_passes(rest);
        assert(results.last() == results[results.len() - 1]);
    }
}

} // verus!
