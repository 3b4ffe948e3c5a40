//! JSON text that is known to be a whole value.
use vstd::prelude::*;
use vstd::string::StringSliceAdditionalSpecFns;
use crate::state::deserializer::spec_parse_till_eof;
use crate::state::StateView;

verus! {

/// The text is a whole JSON value with no whitespace.
pub open spec fn is_json_value(bytes: Seq<u8>) -> bool {
    spec_parse_till_eof(bytes, StateView::Init) matches Some(Ok(v)) && v is Eof
}

/// A whole JSON value as text.
#[derive(Debug, Clone, Copy)]
pub struct Value<'a> {
    text: &'a str,
}

impl<'a> View for Value<'a> {
    type V = Seq<u8>;

    closed spec fn view(&self) -> Seq<u8> {
        self.text.spec_bytes()
    }
}

impl<'a> Value<'a> {
    /// The text is a whole JSON value.
    pub closed spec fn wf(self) -> bool {
        is_json_value(self@)
    }

    /// Wraps text that the caller knows to be a whole JSON value.
    pub fn new_without_validation(text: &'a str) -> (r: Self)
        requires
            is_json_value(text.spec_bytes()),
        ensures
            r@ == text.spec_bytes(),
            r.wf(),
    {
        Value { text }
    }

    /// The text.
    pub fn inner(&self) -> (r: &'a str)
        ensures
            r.spec_bytes() == self@,
    {
        self.text
    }
}

} // verus!
