//! Fields that either hold a value or inherit it from the workspace.

use vstd::prelude::*;

use crate::shapes::{
    all_strings, decode_strings, string_or_bool_of, strings_of, StringOrBool, VecStringOrBool,
    STRING_EXPECTING,
};
use crate::value::{lookup, shape_error, str_eq, table_get, ConfigValue, DecodeError};

verus! {

/// The marker `{ workspace = true }`: the field takes the workspace's value.
#[derive(Debug, Clone, Copy, PartialEq, Eq)]
pub struct TomlInheritedField {
    workspace: bool,
}

impl TomlInheritedField {
    /// The marker holds `workspace = true`.
    pub closed spec fn is_set(&self) -> bool {
        self.workspace
    }

    /// A marker.
    pub fn new() -> (r: TomlInheritedField)
        ensures
            r.is_set(),
    {
        TomlInheritedField { workspace: true }
    }
}

impl Default for TomlInheritedField {
    fn default() -> (r: TomlInheritedField)
        ensures
            r.is_set(),
    {
        TomlInheritedField::new()
    }
}

/// A field that holds its value, or inherits it from the workspace.
#[derive(Debug, Clone, Copy, PartialEq, Eq)]
pub enum InheritableField<T> {
    Value(T),
    Inherit(TomlInheritedField),
}

pub type InheritableString = InheritableField<String>;

pub type InheritableVecString = InheritableField<Vec<String>>;

pub type InheritableStringOrBool = InheritableField<StringOrBool>;

pub type InheritableVecStringOrBool = InheritableField<VecStringOrBool>;

/// A workspace-inheritable table of tables of strings, entries in document order.
pub type InheritableBtreeMap = InheritableField<Vec<(String, Vec<(String, String)>)>>;

impl<T> InheritableField<T> {
    /// The value, where the field holds one.
    pub fn as_value(&self) -> (r: Option<&T>)
        ensures
            match *self {
                InheritableField::Value(x) => (r matches Some(y) && *y == x),
                InheritableField::Inherit(_) => r is None,
            },
    {
        match self {
            InheritableField::Inherit(_) => None,
            InheritableField::Value(defined) => Some(defined),
        }
    }

    /// The field's value: its own, or else the workspace's, which must exist.
    pub fn resolve(self, name: &str, workspace_value: Option<T>) -> (r: Result<T, DecodeError>)
        ensures
            match self {
                InheritableField::Value(x) => r == Ok::<T, DecodeError>(x),
                InheritableField::Inherit(_) => match workspace_value {
                    Some(w) => r == Ok::<T, DecodeError>(w),
                    None => (r matches Err(DecodeError::MissingWorkspaceDefault(n)) && n@ == name@),
                },
            },
    {
        match self {
            InheritableField::Value(x) => Ok(x),
            InheritableField::Inherit(_) => match workspace_value {
                Some(w) => Ok(w),
                None => Err(DecodeError::MissingWorkspaceDefault(name.to_string())),
            },
        }
    }
}

/// How a node stands to the inheritance marker.
pub enum MarkerState {
    /// A table with the key `workspace` alone, set to `true`.
    Inherit,
    /// A table with `workspace = false`, or with `workspace` beside other keys.
    Conflict,
    /// A table with the key `workspace` alone, not set to a boolean.
    BadShape,
    /// Any other node.
    NotMarker,
}

/// The message for `workspace = false`.
pub const WORKSPACE_FALSE: &'static str = "`workspace` cannot be false";

/// The message for `workspace` beside other keys.
pub const WORKSPACE_WITH_OTHERS: &'static str = "`workspace` cannot be combined with other keys";

/// The message for a `workspace` key that is not a boolean.
pub const WORKSPACE_EXPECTING: &'static str = "a boolean";

/// The message of the conflict that a marker table gives.
pub open spec fn conflict_message(v: ConfigValue) -> Seq<char> {
    if v->Table_0@.len() != 1 {
        WORKSPACE_WITH_OTHERS@
    } else {
        WORKSPACE_FALSE@
    }
}

/// How a node stands to the inheritance marker.
pub open spec fn marker_state(v: ConfigValue) -> MarkerState {
    match v {
        ConfigValue::Table(t) => if lookup(t@, "workspace"@) is Some {
            if t@.len() != 1 {
                MarkerState::Conflict
            } else {
                match lookup(t@, "workspace"@)->0 {
                    ConfigValue::Bool(b) => if b {
                        MarkerState::Inherit
                    } else {
                        MarkerState::Conflict
                    },
                    _ => MarkerState::BadShape,
                }
            }
        } else {
            MarkerState::NotMarker
        },
        _ => MarkerState::NotMarker,
    }
}

/// The result of decoding an inheritable field agrees with the marker.
pub open spec fn marker_result<T>(v: ConfigValue, r: Result<InheritableField<T>, DecodeError>) -> bool {
    match marker_state(v) {
        MarkerState::Inherit => (r matches Ok(InheritableField::Inherit(f)) && f.is_set()),
        MarkerState::Conflict => (r matches Err(DecodeError::InheritanceConflict(m)) && m@
            == conflict_message(v)),
        MarkerState::BadShape => (r matches Err(DecodeError::ShapeMismatch(m)) && m@
            == WORKSPACE_EXPECTING@),
        MarkerState::NotMarker => true,
    }
}

/// Reads the value of `workspace`, which must be `true`.
pub fn bool_no_false(v: &ConfigValue) -> (r: Result<bool, DecodeError>)
    ensures
        *v == ConfigValue::Bool(true) <==> r == Ok::<bool, DecodeError>(true),
        *v == ConfigValue::Bool(false) ==> (r matches Err(DecodeError::InheritanceConflict(m)) && m@
            == WORKSPACE_FALSE@),
        !(v is Bool) ==> (r matches Err(DecodeError::ShapeMismatch(m)) && m@ == WORKSPACE_EXPECTING@),
{
    match v {
        ConfigValue::Bool(b) => {
            if *b {
                Ok(true)
            } else {
                Err(DecodeError::InheritanceConflict(WORKSPACE_FALSE.to_string()))
            }
        },
        _ => Err(shape_error(WORKSPACE_EXPECTING)),
    }
}

/// Reads the inheritance marker, where the node is one.
pub fn decode_marker(v: &ConfigValue) -> (r: Option<Result<TomlInheritedField, DecodeError>>)
    ensures
        r is None <==> marker_state(*v) is NotMarker,
        marker_state(*v) is Inherit ==> (r matches Some(Ok(f)) && f.is_set()),
        marker_state(*v) is Conflict ==> (r matches Some(Err(DecodeError::InheritanceConflict(m)))
            && m@ == conflict_message(*v)),
        marker_state(*v) is BadShape ==> (r matches Some(Err(DecodeError::ShapeMismatch(m))) && m@
            == WORKSPACE_EXPECTING@),
{
    proof {
        reveal_strlit("workspace");
    }
    match v {
        ConfigValue::Table(t) => match table_get(t, "workspace") {
            None => None,
            Some(w) => {
                if t.len() != 1 {
                    Some(
                        Err(
                            DecodeError::InheritanceConflict(WORKSPACE_WITH_OTHERS.to_string()),
                        ),
                    )
                } else {
                    match bool_no_false(w) {
                        Ok(_) => Some(Ok(TomlInheritedField::new())),
                        Err(e) => Some(Err(e)),
                    }
                }
            },
        },
        _ => None,
    }
}

impl InheritableField<String> {
    /// Decodes a string, or the inheritance marker.
    pub fn decode(v: &ConfigValue) -> (r: Result<InheritableString, DecodeError>)
        ensures
            marker_result(*v, r),
            marker_state(*v) is NotMarker ==> match *v {
                ConfigValue::Str(s) => r == Ok::<InheritableString, DecodeError>(InheritableField::Value(s)),
                _ => (r matches Err(DecodeError::ShapeMismatch(m)) && m@ == STRING_OR_WORKSPACE@),
            },
    {
        match decode_marker(v) {
            Some(Ok(f)) => Ok(InheritableField::Inherit(f)),
            Some(Err(e)) => Err(e),
            None => match v {
                ConfigValue::Str(s) => Ok(InheritableField::Value(s.clone())),
                _ => Err(shape_error(STRING_OR_WORKSPACE)),
            },
        }
    }
}

impl InheritableField<Vec<String>> {
    /// Decodes a list of strings, or the inheritance marker.
    pub fn decode(v: &ConfigValue) -> (r: Result<InheritableVecString, DecodeError>)
        ensures
            marker_result(*v, r),
            marker_state(*v) is NotMarker ==> (r is Ok <==> (*v matches ConfigValue::Array(a) && all_strings(a@))),
            marker_state(*v) is NotMarker && r is Ok ==> (r->Ok_0 matches InheritableField::Value(x) && x@ == strings_of(v->Array_0@)),
            marker_state(*v) is NotMarker && r is Err ==> (r->Err_0 matches DecodeError::ShapeMismatch(m)
                && m@ == (if v is Array { STRING_EXPECTING@ } else { VEC_STRING_OR_WORKSPACE@ })),
    {
        match decode_marker(v) {
            Some(Ok(f)) => Ok(InheritableField::Inherit(f)),
            Some(Err(e)) => Err(e),
            None => match v {
                ConfigValue::Array(a) => match decode_strings(a) {
                    Ok(x) => Ok(InheritableField::Value(x)),
                    Err(e) => Err(e),
                },
                _ => Err(shape_error(VEC_STRING_OR_WORKSPACE)),
            },
        }
    }
}

impl InheritableField<StringOrBool> {
    /// Decodes a string, a boolean, or the inheritance marker.
    pub fn decode(v: &ConfigValue) -> (r: Result<InheritableStringOrBool, DecodeError>)
        ensures
            marker_result(*v, r),
            marker_state(*v) is NotMarker ==> match string_or_bool_of(*v) {
                Some(x) => r == Ok::<InheritableStringOrBool, DecodeError>(InheritableField::Value(x)),
                None => (r matches Err(DecodeError::ShapeMismatch(m)) && m@ == STRING_BOOL_OR_WORKSPACE@),
            },
    {
        match decode_marker(v) {
            Some(Ok(f)) => Ok(InheritableField::Inherit(f)),
            Some(Err(e)) => Err(e),
            None => match v {
                ConfigValue::Bool(_) | ConfigValue::Str(_) => match StringOrBool::decode(v) {
                    Ok(x) => Ok(InheritableField::Value(x)),
                    Err(e) => Err(e),
                },
                _ => Err(shape_error(STRING_BOOL_OR_WORKSPACE)),
            },
        }
    }
}

impl InheritableField<VecStringOrBool> {
    /// Decodes a boolean, a list of strings, or the inheritance marker.
    pub fn decode(v: &ConfigValue) -> (r: Result<InheritableVecStringOrBool, DecodeError>)
        ensures
            marker_result(*v, r),
            marker_state(*v) is NotMarker ==> (r is Ok <==> (v is Bool || (*v matches ConfigValue::Array(a) && all_strings(a@)))),
            marker_state(*v) is NotMarker ==> (*v matches ConfigValue::Bool(b) ==> r == Ok::<InheritableVecStringOrBool, DecodeError>(InheritableField::Value(VecStringOrBool::Bool(b)))),
            marker_state(*v) is NotMarker && v is Array && r is Ok ==> (r->Ok_0 matches InheritableField::Value(VecStringOrBool::VecString(x)) && x@ == strings_of(v->Array_0@)),
            marker_state(*v) is NotMarker && r is Err ==> (r->Err_0 matches DecodeError::ShapeMismatch(m)
                && m@ == (if v is Array { STRING_EXPECTING@ } else { BOOL_VEC_OR_WORKSPACE@ })),
    {
        match decode_marker(v) {
            Some(Ok(f)) => Ok(InheritableField::Inherit(f)),
            Some(Err(e)) => Err(e),
            None => match v {
                ConfigValue::Bool(_) | ConfigValue::Array(_) => match VecStringOrBool::decode(v) {
                    Ok(x) => Ok(InheritableField::Value(x)),
                    Err(e) => Err(e),
                },
                _ => Err(shape_error(BOOL_VEC_OR_WORKSPACE)),
            },
        }
    }
}

/// The message for a badges entry that is not a table.
pub const STRING_TABLE_EXPECTING: &'static str = "a table of strings";

/// The message for a table field given another shape.
pub const TABLE_OR_WORKSPACE: &'static str = "a table or workspace";

/// The message for a string field given another shape.
pub const STRING_OR_WORKSPACE: &'static str = "a string or workspace";

/// The message for a list-of-strings field given another shape.
pub const VEC_STRING_OR_WORKSPACE: &'static str = "a vector of strings or workspace";

/// The message for a string-or-boolean field given another shape.
pub const STRING_BOOL_OR_WORKSPACE: &'static str = "a string, a bool, or workspace";

/// The message for a boolean-or-list field given another shape.
pub const BOOL_VEC_OR_WORKSPACE: &'static str = "a boolean, a vector of strings, or workspace";

/// Every value of a table is a string.
pub open spec fn all_string_values(t: Seq<(String, ConfigValue)>) -> bool {
    forall|i: int| 0 <= i < t.len() ==> #[trigger] t[i].1 is Str
}

/// Every value of a table is a table of strings.
pub open spec fn all_string_tables(t: Seq<(String, ConfigValue)>) -> bool {
    forall|i: int|
        0 <= i < t.len() ==> (#[trigger] t[i].1 matches ConfigValue::Table(inner) && all_string_values(inner@))
}

/// Reads a table of strings.
fn decode_string_table(t: &Vec<(String, ConfigValue)>) -> (r: Result<Vec<(String, String)>, DecodeError>)
    ensures
        r is Ok <==> all_string_values(t@),
        r is Ok ==> r->Ok_0@.len() == t@.len() && forall|i: int|
            0 <= i < t@.len() ==> #[trigger] r->Ok_0@[i] == (t@[i].0, t@[i].1->Str_0),
        r is Err ==> (r->Err_0 matches DecodeError::ShapeMismatch(m) && m@ == STRING_EXPECTING@),
{
    let mut out: Vec<(String, String)> = Vec::new();
    let mut i: usize = 0;
    while i < t.len()
        invariant
            0 <= i <= t@.len(),
            out@.len() == i,
            forall|j: int| 0 <= j < i ==> (#[trigger] t@[j].1 matches ConfigValue::Str(s) && out@[j] == (t@[j].0, s)),
        decreases t@.len() - i,
    {
        match &t[i].1 {
            ConfigValue::Str(s) => out.push((t[i].0.clone(), s.clone())),
            _ => {
                assert(!all_string_values(t@));
                return Err(shape_error(STRING_EXPECTING));
            },
        }
        i = i + 1;
    }
    Ok(out)
}

impl InheritableField<Vec<(String, Vec<(String, String)>)>> {
    /// Decodes a table of tables of strings, or the inheritance marker.
    pub fn decode(v: &ConfigValue) -> (r: Result<InheritableBtreeMap, DecodeError>)
        ensures
            marker_result(*v, r),
            marker_state(*v) is NotMarker ==> (r is Ok <==> (*v matches ConfigValue::Table(t) && all_string_tables(t@))),
            marker_state(*v) is NotMarker && r is Ok ==> (r->Ok_0 matches InheritableField::Value(x)
                && x@.len() == v->Table_0@.len()
                && forall|i: int| 0 <= i < x@.len() ==> (#[trigger] x@[i]).0 == v->Table_0@[i].0
                    && x@[i].1@.len() == v->Table_0@[i].1->Table_0@.len()
                    && forall|j: int| 0 <= j < x@[i].1@.len() ==> #[trigger] x@[i].1@[j] == (v->Table_0@[i].1->Table_0@[j].0, v->Table_0@[i].1->Table_0@[j].1->Str_0)),
            marker_state(*v) is NotMarker && r is Err ==> (r->Err_0 matches DecodeError::ShapeMismatch(m)
                && (if v is Table {
                    m@ == STRING_EXPECTING@ || m@ == STRING_TABLE_EXPECTING@
                } else {
                    m@ == TABLE_OR_WORKSPACE@
                })),
    {
        match decode_marker(v) {
            Some(Ok(f)) => Ok(InheritableField::Inherit(f)),
            Some(Err(e)) => Err(e),
            None => match v {
                ConfigValue::Table(t) => {
                    let mut out: Vec<(String, Vec<(String, String)>)> = Vec::new();
                    let mut i: usize = 0;
                    while i < t.len()
                        invariant
                            *v == ConfigValue::Table(*t),
                            marker_state(*v) is NotMarker,
                            0 <= i <= t@.len(),
                            out@.len() == i,
                            forall|k: int| 0 <= k < i ==> (#[trigger] t@[k].1 matches ConfigValue::Table(inner)
                                && all_string_values(inner@)
                                && out@[k].0 == t@[k].0
                                && out@[k].1@.len() == inner@.len()
                                && forall|j: int| 0 <= j < inner@.len() ==> #[trigger] out@[k].1@[j] == (inner@[j].0, inner@[j].1->Str_0)),
                        decreases t@.len() - i,
                    {
                        match &t[i].1 {
                            ConfigValue::Table(inner) => match decode_string_table(inner) {
                                Ok(x) => out.push((t[i].0.clone(), x)),
                                Err(e) => {
                                    assert(!all_string_tables(t@));
                                    return Err(e);
                                },
                            },
                            _ => {
                                assert(!all_string_tables(t@));
                                return Err(shape_error(STRING_TABLE_EXPECTING));
                            },
                        }
                        i = i + 1;
                    }
                    Ok(InheritableField::Value(out))
                },
                _ => Err(shape_error(TABLE_OR_WORKSPACE)),
            },
        }
    }
}

/// Whatever the field's type, a table holding only `workspace = true`
/// decodes to the inheritance marker, and one holding only
/// `workspace = false` fails with an inheritance conflict.
pub proof fn lemma_workspace_marker<T>(v: ConfigValue, b: bool, r: Result<InheritableField<T>, DecodeError>)
    requires
        v matches ConfigValue::Table(t) && t@.len() == 1 && t@[0].0@ == "workspace"@ && t@[0].1
            == ConfigValue::Bool(b),
        marker_result(v, r),
    ensures
        b ==> (r matches Ok(InheritableField::Inherit(f)) && f.is_set()),
        !b ==> r matches Err(DecodeError::InheritanceConflict(_)),
{
}

/// The node of the inheritance marker: a table holding `workspace = true`.
pub open spec fn is_marker_node(v: ConfigValue) -> bool {
    v matches ConfigValue::Table(t) && t@.len() == 1 && t@[0].0@ == "workspace"@ && t@[0].1
        == ConfigValue::Bool(true)
}

impl TomlInheritedField {
    /// Encodes the marker as `{ workspace = true }`.
    pub fn encode(&self) -> (r: ConfigValue)
        ensures
            is_marker_node(r),
            marker_state(r) is Inherit,
    {
        let mut t: Vec<(String, ConfigValue)> = Vec::new();
        t.push(("workspace".to_string(), ConfigValue::Bool(true)));
        proof {
            reveal_strlit("workspace");
            assert(t@[0].0@ == "workspace"@);
            assert(t@.drop_first().len() == 0);
        }
        ConfigValue::Table(t)
    }
}

impl InheritableField<String> {
    /// Encodes the string, or the marker.
    pub fn encode(&self) -> (r: ConfigValue)
        ensures
            match self {
                InheritableField::Value(s) => r == ConfigValue::Str(*s),
                InheritableField::Inherit(_) => is_marker_node(r),
            },
    {
        match self {
            InheritableField::Value(s) => ConfigValue::Str(s.clone()),
            InheritableField::Inherit(f) => f.encode(),
        }
    }
}

impl InheritableField<Vec<String>> {
    /// Encodes the list of strings, or the marker.
    pub fn encode(&self) -> (r: ConfigValue)
        ensures
            match self {
                InheritableField::Value(x) => (r matches ConfigValue::Array(a) && all_strings(a@)
                    && strings_of(a@) == x@),
                InheritableField::Inherit(_) => is_marker_node(r),
            },
    {
        match self {
            InheritableField::Value(x) => ConfigValue::Array(crate::shapes::strings_to_values(x)),
            InheritableField::Inherit(f) => f.encode(),
        }
    }
}

impl StringOrBool {
    /// Encodes the string or the boolean.
    pub fn encode(&self) -> (r: ConfigValue)
        ensures
            string_or_bool_of(r) == Some(*self),
    {
        match self {
            StringOrBool::String(s) => ConfigValue::Str(s.clone()),
            StringOrBool::Bool(b) => ConfigValue::Bool(*b),
        }
    }
}

impl InheritableField<StringOrBool> {
    /// Encodes the string or boolean, or the marker.
    pub fn encode(&self) -> (r: ConfigValue)
        ensures
            match self {
                InheritableField::Value(x) => string_or_bool_of(r) == Some(*x),
                InheritableField::Inherit(_) => is_marker_node(r),
            },
    {
        match self {
            InheritableField::Value(x) => x.encode(),
            InheritableField::Inherit(f) => f.encode(),
        }
    }
}

} // verus!
