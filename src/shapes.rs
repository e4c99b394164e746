//! Small values that accept more than one shape, and helpers that copy
//! strings and lists of strings.

use vstd::prelude::*;
use vstd::std_specs::iter::IteratorSpec;

use crate::value::{shape_error, ConfigValue, DecodeError};

verus! {

/// A string or a boolean, as written.
#[derive(Debug, Clone, PartialEq, Eq)]
pub enum StringOrBool {
    String(String),
    Bool(bool),
}

/// A string or a list of strings, always stored as a list.
#[derive(Debug, Clone, PartialEq, Eq)]
pub struct StringOrVec(pub Vec<String>);

/// A boolean or a list of strings, as written.
#[derive(Debug, Clone, PartialEq)]
pub enum VecStringOrBool {
    VecString(Vec<String>),
    Bool(bool),
}

/// An exact copy of an optional string.
pub fn copy_opt_string(s: &Option<String>) -> (r: Option<String>)
    ensures
        r == *s,
{
    match s {
        Some(v) => Some(v.clone()),
        None => None,
    }
}

/// A copy of a list of strings, element for element.
pub fn copy_strings(v: &Vec<String>) -> (r: Vec<String>)
    ensures
        r@ == v@,
{
    let mut r: Vec<String> = Vec::new();
    let mut i: usize = 0;
    while i < v.len()
        invariant
            0 <= i <= v@.len(),
            r@ == v@.subrange(0, i as int),
        decreases v@.len() - i,
    {
        r.push(v[i].clone());
        assert(v@.subrange(0, i + 1) == v@.subrange(0, i as int).push(v@[i as int]));
        i = i + 1;
    }
    assert(v@.subrange(0, v@.len() as int) == v@);
    r
}

/// A copy of an optional list of strings, element for element.
pub fn copy_opt_strings(v: &Option<Vec<String>>) -> (r: Option<Vec<String>>)
    ensures
        r is Some <==> v is Some,
        r is Some ==> r->0@ == v->0@,
{
    match v {
        Some(x) => Some(copy_strings(x)),
        None => None,
    }
}

impl StringOrBool {
    /// An exact copy.
    pub fn copy(&self) -> (r: StringOrBool)
        ensures
            r == *self,
    {
        match self {
            StringOrBool::String(s) => StringOrBool::String(s.clone()),
            StringOrBool::Bool(b) => StringOrBool::Bool(*b),
        }
    }
}

/// An exact copy of an optional string-or-boolean.
pub fn copy_opt_string_or_bool(v: &Option<StringOrBool>) -> (r: Option<StringOrBool>)
    ensures
        r == *v,
{
    match v {
        Some(x) => Some(x.copy()),
        None => None,
    }
}

/// Every element is a string.
pub open spec fn all_strings(items: Seq<ConfigValue>) -> bool {
    forall|i: int| 0 <= i < items.len() ==> #[trigger] items[i] is Str
}

/// The strings of a list of string nodes.
pub open spec fn strings_of(items: Seq<ConfigValue>) -> Seq<String> {
    Seq::new(items.len(), |i: int| items[i]->Str_0)
}

/// The message for a list element that is not a string.
pub const STRING_EXPECTING: &'static str = "a string";

/// Reads a list of strings from the elements of an array.
pub fn decode_strings(items: &Vec<ConfigValue>) -> (r: Result<Vec<String>, DecodeError>)
    ensures
        r is Ok <==> all_strings(items@),
        r is Ok ==> r->Ok_0@ == strings_of(items@),
        r is Err ==> (r->Err_0 matches DecodeError::ShapeMismatch(m) && m@ == STRING_EXPECTING@),
{
    let mut out: Vec<String> = Vec::new();
    let mut i: usize = 0;
    while i < items.len()
        invariant
            0 <= i <= items@.len(),
            out@.len() == i,
            forall|j: int| 0 <= j < i ==> (#[trigger] items@[j] matches ConfigValue::Str(s) && out@[j] == s),
        decreases items@.len() - i,
    {
        match &items[i] {
            ConfigValue::Str(s) => out.push(s.clone()),
            _ => {
                assert(!all_strings(items@));
                return Err(shape_error(STRING_EXPECTING));
            },
        }
        i = i + 1;
    }
    assert(out@ =~= strings_of(items@));
    Ok(out)
}

/// Reads a list of strings from an array node.
pub fn decode_string_list(v: &ConfigValue) -> (r: Result<Vec<String>, DecodeError>)
    ensures
        r is Ok <==> (v matches ConfigValue::Array(a) && all_strings(a@)),
        r is Ok ==> r->Ok_0@ == strings_of(v->Array_0@),
        r is Err ==> r->Err_0 is ShapeMismatch,
{
    match v {
        ConfigValue::Array(a) => decode_strings(a),
        _ => Err(shape_error("a vector of strings")),
    }
}

/// The string-or-boolean that a node denotes, if any.
pub open spec fn string_or_bool_of(v: ConfigValue) -> Option<StringOrBool> {
    match v {
        ConfigValue::Bool(b) => Some(StringOrBool::Bool(b)),
        ConfigValue::Str(s) => Some(StringOrBool::String(s)),
        _ => None,
    }
}

impl StringOrBool {
    /// Decodes a boolean or a string.
    pub fn decode(v: &ConfigValue) -> (r: Result<StringOrBool, DecodeError>)
        ensures
            r is Ok <==> string_or_bool_of(*v) is Some,
            r is Ok ==> r->Ok_0 == string_or_bool_of(*v)->0,
            r is Err ==> r->Err_0 is ShapeMismatch,
    {
        match v {
            ConfigValue::Bool(b) => Ok(StringOrBool::Bool(*b)),
            ConfigValue::Str(s) => Ok(StringOrBool::String(s.clone())),
            _ => Err(shape_error("a string or a boolean")),
        }
    }
}

impl StringOrVec {
    /// Decodes a string, kept as a list of one, or a list of strings.
    pub fn decode(v: &ConfigValue) -> (r: Result<StringOrVec, DecodeError>)
        ensures
            r is Ok <==> (v is Str || (v matches ConfigValue::Array(a) && all_strings(a@))),
            r is Ok ==> r->Ok_0.0@ == (match *v {
                ConfigValue::Str(s) => seq![s],
                _ => strings_of(v->Array_0@),
            }),
            r is Err ==> r->Err_0 is ShapeMismatch,
    {
        match v {
            ConfigValue::Str(s) => {
                let mut out: Vec<String> = Vec::new();
                out.push(s.clone());
                assert(out@ =~= seq![*s]);
                Ok(StringOrVec(out))
            },
            ConfigValue::Array(a) => match decode_strings(a) {
                Ok(out) => Ok(StringOrVec(out)),
                Err(e) => Err(e),
            },
            _ => Err(shape_error("string or list of strings")),
        }
    }

    /// The strings, in order.
    pub fn iter<'a>(&'a self) -> (r: std::slice::Iter<'a, String>)
        ensures
            r.remaining() == self.0@.map_values(|s: String| &s),
    {
        broadcast use vstd::std_specs::slice::axiom_spec_slice_iter;
        self.0.as_slice().iter()
    }
}

impl VecStringOrBool {
    /// Decodes a boolean or a list of strings.
    pub fn decode(v: &ConfigValue) -> (r: Result<VecStringOrBool, DecodeError>)
        ensures
            r is Ok <==> (v is Bool || (v matches ConfigValue::Array(a) && all_strings(a@))),
            *v matches ConfigValue::Bool(b) ==> r == Ok::<VecStringOrBool, DecodeError>(VecStringOrBool::Bool(b)),
            v is Array && r is Ok ==> (r->Ok_0 matches VecStringOrBool::VecString(x) && x@ == strings_of(v->Array_0@)),
            r is Err ==> (r->Err_0 matches DecodeError::ShapeMismatch(m) && m@ == (if v is Array {
                STRING_EXPECTING@
            } else {
                "a boolean or vector of strings"@
            })),
    {
        match v {
            ConfigValue::Bool(b) => Ok(VecStringOrBool::Bool(*b)),
            ConfigValue::Array(a) => match decode_strings(a) {
                Ok(out) => Ok(VecStringOrBool::VecString(out)),
                Err(e) => Err(e),
            },
            _ => Err(shape_error("a boolean or vector of strings")),
        }
    }
}

/// A list of string nodes holding the given strings.
pub fn strings_to_values(v: &Vec<String>) -> (r: Vec<ConfigValue>)
    ensures
        all_strings(r@),
        strings_of(r@) == v@,
{
    let mut r: Vec<ConfigValue> = Vec::new();
    let mut i: usize = 0;
    while i < v.len()
        invariant
            0 <= i <= v@.len(),
            r@.len() == i,
            forall|j: int| 0 <= j < i ==> #[trigger] r@[j] == ConfigValue::Str(v@[j]),
        decreases v@.len() - i,
    {
        r.push(ConfigValue::Str(v[i].clone()));
        i = i + 1;
    }
    assert(strings_of(r@) =~= v@);
    r
}

} // verus!
