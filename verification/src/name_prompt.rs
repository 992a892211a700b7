//! The shared single-line name prompt: the rules every consumer relies on,
//! and the field's state. The value is handed on untrimmed: a consumer trims
//! if it means to, and a pasted token is not the prompt's to rewrite.

use vstd::prelude::*;
use crate::i18n::Catalog;
use crate::text::{any_control, chars_of, has_control, trim, trim_bounds};

verus! {

/// Why a value was refused.
#[derive(Clone, Copy, PartialEq, Eq, Debug, Structural)]
pub enum NameError {
    /// Nothing but white space.
    Empty,
    /// A control character, almost always a newline from a paste.
    Control,
}

impl NameError {
    /// The catalog key of the message shown under the field.
    pub open spec fn key(self) -> Seq<char> {
        match self {
            NameError::Empty => "prompt.error.empty"@,
            NameError::Control => "prompt.error.control"@,
        }
    }

    /// The message shown under the field.
    pub fn message(self, cat: &Catalog) -> (r: String)
        ensures
            r@ == cat.text(self.key()),
    {
        match self {
            NameError::Empty => cat.t("prompt.error.empty"),
            NameError::Control => cat.t("prompt.error.control"),
        }
    }
}

/// What a value is refused for: nothing but white space, else a control
/// character anywhere in it (surrounding space included).
pub open spec fn value_error(value: Seq<char>) -> Option<NameError> {
    if trim(value).len() == 0 {
        Some(NameError::Empty)
    } else if has_control(value) {
        Some(NameError::Control)
    } else {
        None
    }
}

/// Check a prompt value against the rules every consumer relies on.
pub fn validate(value: &str) -> (r: Result<(), NameError>)
    ensures
        r is Ok <==> value_error(value@) is None,
        r matches Err(e) ==> value_error(value@) == Some(e),
{
    let v = chars_of(value);
    let (a, b) = trim_bounds(&v);
    if a == b {
        return Err(NameError::Empty);
    }
    if any_control(&v) {
        return Err(NameError::Control);
    }
    Ok(())
}

/// The prompt's field: what is typed, and whether anything has been, since a
/// save flow opens empty by design and greeting it with an error is noise.
pub struct Prompt {
    pub value: String,
    pub touched: bool,
}

impl Prompt {
    /// A prompt seeded with `initial`, nothing typed yet.
    pub fn new(initial: &str) -> (p: Self)
        ensures
            p.value@ == initial@,
            !p.touched,
    {
        Prompt { value: initial.to_string(), touched: false }
    }

    /// The user typed: the field holds `value`.
    pub fn input(&mut self, value: String)
        ensures
            final(self).value == value,
            final(self).touched,
    {
        self.value = value;
        self.touched = true;
    }

    /// The error under the field: none until something was typed.
    pub fn showing(&self) -> (r: Option<NameError>)
        ensures
            r == (if self.touched { value_error(self.value@) } else { None }),
    {
        if !self.touched {
            return None;
        }
        match validate(self.value.as_str()) {
            Ok(()) => None,
            Err(e) => Some(e),
        }
    }

    /// Whether Confirm is enabled.
    pub fn can_confirm(&self) -> (r: bool)
        ensures
            r == (value_error(self.value@) is None),
    {
        validate(self.value.as_str()).is_ok()
    }

    /// Confirm (the button, or Enter in the field): the value exactly as
    /// typed when it passes; on a refused one nothing is emitted and the
    /// error shows.
    pub fn confirm(&mut self) -> (r: Option<String>)
        ensures
            r is Some <==> value_error(old(self).value@) is None,
            r matches Some(v) ==> v@ == old(self).value@,
            final(self).value == old(self).value,
            r is None ==> final(self).touched,
            r is Some ==> final(self).touched == old(self).touched,
    {
        if validate(self.value.as_str()).is_err() {
            self.touched = true;
            return None;
        }
        Some(self.value.clone())
    }
}

} // verus!
