//! JSON documents that the library stores and hands back without reading.
use vstd::prelude::*;

verus! {

/// A JSON document carried through unchanged, held as its serialized text
/// (for example `{"unit":"V","value":12.8}`).
///
/// Equality compares the text, so two spellings of one document (other
/// spacing or key order) are different values; the library never compares
/// documents, it only stores and returns them.
#[derive(Debug, Eq)]
pub struct JsonValue {
    /// The serialized document.
    pub text: String,
}

impl JsonValue {
    /// A document from its serialized text.
    pub fn from_text(text: &str) -> (r: Self)
        ensures
            r.text@ == text@,
    {
        JsonValue { text: String::from_str(text) }
    }
}

impl Clone for JsonValue {
    fn clone(&self) -> (r: Self)
        ensures
            r == *self,
    {
        JsonValue { text: self.text.clone() }
    }
}

impl PartialEq for JsonValue {
    fn eq(&self, other: &Self) -> (r: bool) {
        self.text == other.text
    }
}

impl vstd::std_specs::cmp::PartialEqSpecImpl for JsonValue {
    open spec fn obeys_eq_spec() -> bool {
        true
    }

    open spec fn eq_spec(&self, other: &Self) -> bool {
        self.text@ == other.text@
    }
}

/// A copy of an optional document.
pub fn clone_opt_json(o: &Option<JsonValue>) -> (r: Option<JsonValue>)
    ensures
        r == *o,
{
    match o {
        Some(v) => Some(v.clone()),
        None => None,
    }
}

/// A copy of an optional string.
pub fn clone_opt_string(o: &Option<String>) -> (r: Option<String>)
    ensures
        r == *o,
{
    match o {
        Some(v) => Some(v.clone()),
        None => None,
    }
}

/// A copy of a list of strings.
pub fn clone_strings(v: &Vec<String>) -> (r: Vec<String>)
    ensures
        r@ == v@,
{
    let mut r: Vec<String> = Vec::new();
    let mut i: usize = 0;
    while i < v.len()
        invariant
            i <= v@.len(),
            r@ == v@.take(i as int),
        decreases v@.len() - i,
    {
        r.push(v[i].clone());
        proof {
            assert(r@ =~= v@.take(i + 1));
        }
        i = i + 1;
    }
    proof {
        assert(v@.take(v@.len() as int) =~= v@);
    }
    r
}

/// The contents of an optional list of strings.
pub open spec fn opt_strings_view(o: Option<Vec<String>>) -> Option<Seq<String>> {
    match o {
        Some(v) => Some(v@),
        None => None,
    }
}

/// A copy of an optional list of strings.
pub fn clone_opt_strings(o: &Option<Vec<String>>) -> (r: Option<Vec<String>>)
    ensures
        opt_strings_view(r) == opt_strings_view(*o),
{
    match o {
        Some(v) => Some(clone_strings(v)),
        None => None,
    }
}

} // verus!
