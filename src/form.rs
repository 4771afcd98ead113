//! The registration form: current field values, their validation messages, and
//! whether the form may be submitted.
use vstd::prelude::*;
use crate::notifications::{
    contains_key, holds_once, key_pos, keys_unique, lemma_other_key_kept, lemma_remove_entry,
    lemma_set_entry, remove_entry, set_entry, EntryView, KeyedNotifications,
};

verus! {

/// A named input of the form.
#[derive(Clone, Copy, Debug, PartialEq, Eq, Structural)]
pub enum Field {
    Username,
    Password,
}

impl Field {
    /// The notification key under which this field's validation failure is kept.
    pub open spec fn key(self) -> Seq<char> {
        match self {
            Field::Username => "bad-username"@,
            Field::Password => "bad-password"@,
        }
    }

    /// The notification key of this field; it does not depend on the input.
    pub fn validation_key(self) -> (r: &'static str)
        ensures
            r@ == self.key(),
    {
        match self {
            Field::Username => "bad-username",
            Field::Password => "bad-password",
        }
    }
}

/// The outcome of a validator, seen through views.
pub open spec fn verdict_view(v: Result<(), String>) -> Result<(), Seq<char>> {
    match v {
        Ok(_) => Ok(()),
        Err(m) => Err(m@),
    }
}

/// The abstract state of a form.
pub struct FormModel {
    pub username: Seq<char>,
    pub password: Seq<char>,
    pub errors: Seq<EntryView>,
}

impl FormModel {
    /// A form on first display: empty fields, no messages.
    pub open spec fn fresh() -> FormModel {
        FormModel {
            username: Seq::empty(),
            password: Seq::empty(),
            errors: Seq::empty(),
        }
    }

    /// Notification keys are unique.
    pub open spec fn valid(self) -> bool {
        keys_unique(self.errors)
    }

    /// The current raw value of field `f`.
    pub open spec fn value(self, f: Field) -> Seq<char> {
        match f {
            Field::Username => self.username,
            Field::Password => self.password,
        }
    }

    /// No message is pending and every required field is non-empty.
    pub open spec fn submittable(self) -> bool {
        self.errors.len() == 0 && self.username.len() > 0 && self.password.len() > 0
    }

    /// The messages after field `f` received `raw` and was validated with outcome
    /// `verdict`. An empty value is not yet an attempt: it removes the field's
    /// key whatever the verdict. Otherwise a failure sets the key to its
    /// message and a success removes the key.
    pub open spec fn errors_after(self, f: Field, raw: Seq<char>, verdict: Result<(), Seq<char>>) -> Seq<EntryView> {
        if raw.len() == 0 {
            remove_entry(self.errors, f.key())
        } else {
            match verdict {
                Ok(_) => remove_entry(self.errors, f.key()),
                Err(m) => set_entry(self.errors, f.key(), m),
            }
        }
    }

    /// The state after the user typed `raw` into field `f` and the validator
    /// answered `verdict`: the value is stored whatever the verdict, and an empty
    /// value raises no message.
    pub open spec fn with_input(self, f: Field, raw: Seq<char>, verdict: Result<(), Seq<char>>) -> FormModel {
        match f {
            Field::Username => FormModel {
                username: raw,
                password: self.password,
                errors: self.errors_after(f, raw, verdict),
            },
            Field::Password => FormModel {
                username: self.username,
                password: raw,
                errors: self.errors_after(f, raw, verdict),
            },
        }
    }
}

/// The state of the registration page's form.
pub struct PageState {
    username: String,
    password: String,
    form_errors: KeyedNotifications,
}

impl View for PageState {
    type V = FormModel;

    closed spec fn view(&self) -> FormModel {
        FormModel {
            username: self.username@,
            password: self.password@,
            errors: self.form_errors@,
        }
    }
}

impl PageState {
    /// The internal notification collection is well formed.
    pub closed spec fn wf(&self) -> bool {
        self.form_errors.wf()
    }

    /// A fresh form: both fields empty, no notifications.
    pub fn new() -> (r: PageState)
        ensures
            r.wf(),
            r@ == FormModel::fresh(),
    {
        let r = PageState {
            username: String::new(),
            password: String::new(),
            form_errors: KeyedNotifications::new(),
        };
        assert(r@.username =~= Seq::<char>::empty());
        assert(r@.password =~= Seq::<char>::empty());
        r
    }

    /// Whether the form may be submitted: nothing pending and no required field
    /// empty. Computed afresh on every call.
    pub fn can_submit(&self) -> (r: bool)
        ensures
            r == self@.submittable(),
    {
        !(self.form_errors.has_message() || self.username.as_str().is_empty()
            || self.password.as_str().is_empty())
    }

    /// Records a typed value together with the validator's answer for it. An
    /// empty value clears the field's message instead of recording the answer.
    pub fn apply_validation(&mut self, field: Field, raw_value: String, verdict: Result<(), String>)
        requires
            old(self).wf(),
        ensures
            final(self).wf(),
            final(self)@ == old(self)@.with_input(field, raw_value@, verdict_view(verdict)),
    {
        let key = field.validation_key();
        if raw_value.as_str().is_empty() {
            self.form_errors.remove(key);
        } else {
            match verdict {
                Err(message) => self.form_errors.set(key.to_owned(), message),
                Ok(()) => self.form_errors.remove(key),
            }
        }
        match field {
            Field::Username => self.username = raw_value,
            Field::Password => self.password = raw_value,
        }
    }

    /// Stores a typed value and, where it is non-empty, runs the field's
    /// validator on it; the outcome is kept under the field's notification key.
    /// An empty value is not validated and clears the field's message.
    pub fn update_field<F: Fn(&String) -> Result<(), String>>(
        &mut self,
        field: Field,
        raw_value: String,
        validate: F,
    )
        requires
            old(self).wf(),
            raw_value@.len() > 0 ==> validate.requires((&raw_value,)),
        ensures
            final(self).wf(),
            raw_value@.len() == 0 ==> final(self)@ == old(self)@.with_input(field, raw_value@, Ok(())),
            raw_value@.len() == 0 ==> final(self)@.errors == remove_entry(old(self)@.errors, field.key()),
            raw_value@.len() > 0 ==> exists|v: Result<(), String>|
                validate.ensures((&raw_value,), v) && final(self)@ == old(self)@.with_input(
                    field,
                    raw_value@,
                    verdict_view(v),
                ),
    {
        if raw_value.as_str().is_empty() {
            self.apply_validation(field, raw_value, Ok(()));
        } else {
            let verdict = validate(&raw_value);
            self.apply_validation(field, raw_value, verdict);
        }
    }

    /// Clears both fields and all notifications.
    pub fn reset(&mut self)
        ensures
            final(self).wf(),
            final(self)@ == FormModel::fresh(),
    {
        self.username = String::new();
        self.password = String::new();
        self.form_errors.clear();
        assert(self@.username =~= Seq::<char>::empty());
        assert(self@.password =~= Seq::<char>::empty());
    }

    /// The current value of `field`.
    pub fn field_value(&self, field: Field) -> (r: &String)
        ensures
            r@ == self@.value(field),
    {
        match field {
            Field::Username => &self.username,
            Field::Password => &self.password,
        }
    }

    /// The notification collection, for display.
    pub fn form_errors(&self) -> (r: &KeyedNotifications)
        requires
            self.wf(),
        ensures
            r.wf(),
            r@ == self@.errors,
    {
        &self.form_errors
    }
}

/// After a valid input to any field, no message is kept under that field's key,
/// and keys stay unique.
pub proof fn lemma_valid_input_clears_key(m: FormModel, f: Field, v: Seq<char>)
    requires
        m.valid(),
    ensures
        m.with_input(f, v, Ok(())).valid(),
        !contains_key(m.with_input(f, v, Ok(())).errors, f.key()),
{
    lemma_remove_entry(m.errors, f.key());
}

/// After an invalid (so non-empty) input with message `msg`, the messages hold
/// exactly one entry for the field's key, carrying `msg`; a second invalid
/// input to the same field overwrites that entry with its own message and adds
/// none.
pub proof fn lemma_invalid_input_recorded_once(
    m: FormModel,
    f: Field,
    v: Seq<char>,
    msg: Seq<char>,
    v2: Seq<char>,
    msg2: Seq<char>,
)
    requires
        m.valid(),
        v.len() > 0,
        v2.len() > 0,
    ensures
        m.with_input(f, v, Err(msg)).valid(),
        holds_once(m.with_input(f, v, Err(msg)).errors, f.key(), msg),
        holds_once(m.with_input(f, v, Err(msg)).with_input(f, v2, Err(msg2)).errors, f.key(), msg2),
        m.with_input(f, v, Err(msg)).with_input(f, v2, Err(msg2)).errors.len() == m.with_input(
            f,
            v,
            Err(msg),
        ).errors.len(),
{
    let s1 = m.with_input(f, v, Err(msg));
    lemma_set_entry(m.errors, f.key(), msg);
    lemma_set_entry(s1.errors, f.key(), msg2);
    let i = choose|i: int|
        0 <= i < s1.errors.len() && #[trigger] s1.errors[i] == (f.key(), msg) && forall|j: int|
            0 <= j < s1.errors.len() && #[trigger] s1.errors[j].0 == f.key() ==> j == i;
    assert(s1.errors[i].0 == f.key());
    assert(contains_key(s1.errors, f.key()));
}

/// An empty input leaves no message under the field's key, whatever the
/// validator would have said of it.
pub proof fn lemma_empty_input_raises_nothing(m: FormModel, f: Field, verdict: Result<(), Seq<char>>)
    requires
        m.valid(),
    ensures
        m.with_input(f, Seq::empty(), verdict).valid(),
        !contains_key(m.with_input(f, Seq::empty(), verdict).errors, f.key()),
{
    lemma_remove_entry(m.errors, f.key());
}

/// Entering the same valid input twice in a row gives the same state as
/// entering it once.
pub proof fn lemma_valid_input_idempotent(m: FormModel, f: Field, v: Seq<char>)
    requires
        m.valid(),
    ensures
        m.with_input(f, v, Ok(())).with_input(f, v, Ok(())) == m.with_input(f, v, Ok(())),
{
    lemma_valid_input_clears_key(m, f, v);
}

/// Input to field `f` never adds, clears or changes the message kept under any
/// key other than `f`'s own.
pub proof fn lemma_other_keys_untouched(
    m: FormModel,
    f: Field,
    v: Seq<char>,
    verdict: Result<(), Seq<char>>,
    k: Seq<char>,
)
    requires
        m.valid(),
        k != f.key(),
    ensures
        contains_key(m.with_input(f, v, verdict).errors, k) == contains_key(m.errors, k),
        contains_key(m.errors, k) ==> m.with_input(f, v, verdict).errors[key_pos(
            m.with_input(f, v, verdict).errors,
            k,
        )] == m.errors[key_pos(m.errors, k)],
{
    let msg = match verdict {
        Ok(_) => Seq::<char>::empty(),
        Err(e) => e,
    };
    lemma_other_key_kept(m.errors, f.key(), msg, k);
}

} // verus!
