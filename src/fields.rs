//! Readers of single optional fields of a table: what each accepts, and
//! what it reads.

use vstd::prelude::*;

use crate::shapes::{all_strings, decode_strings, strings_of, StringOrVec};
use crate::value::{lookup, shape_error, table_get, ConfigValue, DecodeError};

verus! {

/// An optional string field: absent, a string, or refused (`None`).
pub open spec fn str_field(t: Seq<(String, ConfigValue)>, k: Seq<char>) -> Option<Option<String>> {
    match lookup(t, k) {
        None => Some(None),
        Some(ConfigValue::Str(s)) => Some(Some(s)),
        Some(_) => None,
    }
}

/// An optional boolean field: absent, a boolean, or refused (`None`).
pub open spec fn bool_field(t: Seq<(String, ConfigValue)>, k: Seq<char>) -> Option<Option<bool>> {
    match lookup(t, k) {
        None => Some(None),
        Some(ConfigValue::Bool(b)) => Some(Some(b)),
        Some(_) => None,
    }
}

/// An optional field holding a list of strings: absent, the list, or refused (`None`).
pub open spec fn strings_field(t: Seq<(String, ConfigValue)>, k: Seq<char>) -> Option<Option<Seq<String>>> {
    match lookup(t, k) {
        None => Some(None),
        Some(ConfigValue::Array(a)) => if all_strings(a@) {
            Some(Some(strings_of(a@)))
        } else {
            None
        },
        Some(_) => None,
    }
}

/// An optional field holding a string or a list of strings, read as a list.
pub open spec fn string_or_vec_field(t: Seq<(String, ConfigValue)>, k: Seq<char>) -> Option<Option<Seq<String>>> {
    match lookup(t, k) {
        Some(ConfigValue::Str(s)) => Some(Some(seq![s])),
        _ => strings_field(t, k),
    }
}

/// The list an optional list holds.
pub open spec fn opt_seq(o: Option<Vec<String>>) -> Option<Seq<String>> {
    match o {
        Some(v) => Some(v@),
        None => None,
    }
}

/// The list an optional string-or-list holds.
pub open spec fn opt_string_or_vec(o: Option<StringOrVec>) -> Option<Seq<String>> {
    match o {
        Some(v) => Some(v.0@),
        None => None,
    }
}

/// Reads an optional string field.
pub fn read_str(t: &Vec<(String, ConfigValue)>, k: &str) -> (r: Result<Option<String>, DecodeError>)
    ensures
        r is Ok <==> str_field(t@, k@) is Some,
        r is Ok ==> r->Ok_0 == str_field(t@, k@)->0,
        r is Err ==> r->Err_0 is ShapeMismatch,
{
    match table_get(t, k) {
        None => Ok(None),
        Some(ConfigValue::Str(s)) => Ok(Some(s.clone())),
        Some(_) => Err(shape_error("a string")),
    }
}

/// Reads an optional boolean field.
pub fn read_bool(t: &Vec<(String, ConfigValue)>, k: &str) -> (r: Result<Option<bool>, DecodeError>)
    ensures
        r is Ok <==> bool_field(t@, k@) is Some,
        r is Ok ==> r->Ok_0 == bool_field(t@, k@)->0,
        r is Err ==> r->Err_0 is ShapeMismatch,
{
    match table_get(t, k) {
        None => Ok(None),
        Some(ConfigValue::Bool(b)) => Ok(Some(*b)),
        Some(_) => Err(shape_error("a boolean")),
    }
}

/// Reads an optional field holding a list of strings.
pub fn read_strings(t: &Vec<(String, ConfigValue)>, k: &str) -> (r: Result<Option<Vec<String>>, DecodeError>)
    ensures
        r is Ok <==> strings_field(t@, k@) is Some,
        r is Ok ==> opt_seq(r->Ok_0) == strings_field(t@, k@)->0,
        r is Err ==> r->Err_0 is ShapeMismatch,
{
    match table_get(t, k) {
        None => Ok(None),
        Some(ConfigValue::Array(a)) => match decode_strings(a) {
            Ok(x) => Ok(Some(x)),
            Err(e) => Err(e),
        },
        Some(_) => Err(shape_error("a vector of strings")),
    }
}

/// Reads an optional field holding a string or a list of strings.
pub fn read_string_or_vec(t: &Vec<(String, ConfigValue)>, k: &str) -> (r: Result<Option<StringOrVec>, DecodeError>)
    ensures
        r is Ok <==> string_or_vec_field(t@, k@) is Some,
        r is Ok ==> opt_string_or_vec(r->Ok_0) == string_or_vec_field(t@, k@)->0,
        r is Err ==> r->Err_0 is ShapeMismatch,
{
    match table_get(t, k) {
        None => Ok(None),
        Some(v) => match StringOrVec::decode(v) {
            Ok(x) => Ok(Some(x)),
            Err(e) => Err(e),
        },
    }
}

} // verus!
