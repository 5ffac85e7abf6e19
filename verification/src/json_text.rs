//! The boundary to the structured-value (JSON) codec.
//!
//! The protocol engine never looks inside a payload: it only needs to know
//! whether a stretch of text is the text of a single JSON value, and to carry
//! that text through encoding and decoding unchanged. `JsonText` holds such a
//! validated stretch of text; `json_ok` names validity.

use vstd::prelude::*;

verus! {

/// Whether `s` is the text of a single JSON value, as the structured-value
/// parser accepts it (leading and trailing whitespace allowed).
pub uninterp spec fn json_ok(s: Seq<char>) -> bool;

/// Relies on serde_json::from_str::<serde_json::Value>: returns whether `s`
/// parses as a single JSON value. Such a text is never empty and never
/// begins with '/' or ',' (no JSON value starts with either character).
#[verifier::external_body]
fn parse_checks(s: &str) -> (r: bool)
    ensures
        r == json_ok(s@),
        r ==> s@.len() > 0 && s@[0] != '/' && s@[0] != ',',
{
    serde_json::from_str::<serde_json::Value>(s).is_ok()
}

/// The text of one JSON value, validated at construction.
#[derive(Debug)]
pub struct JsonText {
    text: String,
}

impl View for JsonText {
    type V = Seq<char>;

    closed spec fn view(&self) -> Seq<char> {
        self.text@
    }
}

impl JsonText {
    /// Holds of every `JsonText` value; exec code holding one may recover
    /// these facts with `use_type_invariant`.
    #[verifier::type_invariant]
    pub open spec fn wf(self) -> bool {
        &&& json_ok(self@)
        &&& self@.len() > 0
        &&& self@[0] != '/'
        &&& self@[0] != ','
    }

    /// Validates `s` as JSON text; `Some` exactly when the structured-value
    /// parser accepts it.
    pub fn parse(s: &str) -> (r: Option<JsonText>)
        ensures
            (r is Some) == json_ok(s@),
            r matches Some(j) ==> j@ == s@,
    {
        if parse_checks(s) {
            Some(JsonText { text: s.to_owned() })
        } else {
            None
        }
    }

    pub fn as_str(&self) -> (r: &str)
        ensures
            r@ == self@,
    {
        self.text.as_str()
    }

}

impl PartialEq for JsonText {
    fn eq(&self, other: &JsonText) -> (r: bool) {
        self.text == other.text
    }
}

impl vstd::std_specs::cmp::PartialEqSpecImpl for JsonText {
    open spec fn obeys_eq_spec() -> bool {
        true
    }

    open spec fn eq_spec(&self, other: &JsonText) -> bool {
        self@ == other@
    }
}

} // verus!
