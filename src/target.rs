//! Build targets (library, binaries, examples, tests, benchmarks).

use vstd::prelude::*;

use crate::fields::{bool_field, opt_seq, read_bool, read_str, read_strings, str_field, strings_field};
use crate::value::{lookup, shape_error, str_eq, table_get, ConfigValue, DecodeError};

verus! {

/// A path, as written.
#[derive(Debug, Clone, PartialEq, Eq)]
pub struct PathValue(pub String);

impl PathValue {
    /// Decodes a path from a string.
    pub fn decode(v: &ConfigValue) -> (r: Result<PathValue, DecodeError>)
        ensures
            *v matches ConfigValue::Str(s) ==> r == Ok::<PathValue, DecodeError>(PathValue(s)),
            !(v is Str) ==> (r matches Err(DecodeError::ShapeMismatch(m)) && m@ == "a path"@),
    {
        match v {
            ConfigValue::Str(s) => Ok(PathValue(s.clone())),
            _ => Err(crate::value::shape_error("a path")),
        }
    }
}

/// One build target.
#[derive(Debug, Clone, PartialEq, Default)]
pub struct TomlTarget {
    pub name: Option<String>,
    pub crate_type: Option<Vec<String>>,
    /// The legacy spelling `crate_type`.
    pub crate_type2: Option<Vec<String>>,
    pub path: Option<PathValue>,
    pub filename: Option<String>,
    pub test: Option<bool>,
    pub doctest: Option<bool>,
    pub bench: Option<bool>,
    pub doc: Option<bool>,
    pub plugin: Option<bool>,
    pub doc_scrape_examples: Option<bool>,
    pub proc_macro: Option<bool>,
    /// The legacy spelling `proc_macro`.
    pub proc_macro2: Option<bool>,
    pub harness: Option<bool>,
    pub required_features: Option<Vec<String>>,
    pub edition: Option<String>,
}

/// A list of strings holds the given text.
pub open spec fn holds_text(v: Seq<String>, t: Seq<char>) -> bool {
    exists|i: int| 0 <= i < v.len() && v[i]@ == t
}

/// The crate types: `crate-type`, else the legacy `crate_type`.
pub open spec fn crate_types_of(t: TomlTarget) -> Option<Vec<String>> {
    if t.crate_type is Some {
        t.crate_type
    } else {
        t.crate_type2
    }
}

impl TomlTarget {
    /// A target with nothing set.
    pub fn new() -> (r: TomlTarget)
        ensures
            r.name is None && r.crate_type is None && r.crate_type2 is None && r.path is None,
            r.filename is None && r.test is None && r.doctest is None && r.bench is None,
            r.doc is None && r.plugin is None && r.doc_scrape_examples is None,
            r.proc_macro is None && r.proc_macro2 is None && r.harness is None,
            r.required_features is None && r.edition is None,
    {
        TomlTarget {
            name: None,
            crate_type: None,
            crate_type2: None,
            path: None,
            filename: None,
            test: None,
            doctest: None,
            bench: None,
            doc: None,
            plugin: None,
            doc_scrape_examples: None,
            proc_macro: None,
            proc_macro2: None,
            harness: None,
            required_features: None,
            edition: None,
        }
    }

    /// Whether the target is a procedural macro: `proc-macro`, else the
    /// legacy `proc_macro`, else `true` where the crate types name
    /// `proc-macro`.
    pub fn proc_macro(&self) -> (r: Option<bool>)
        ensures
            r == (if self.proc_macro is Some {
                self.proc_macro
            } else if self.proc_macro2 is Some {
                self.proc_macro2
            } else if crate_types_of(*self) matches Some(v) && holds_text(v@, "proc-macro"@) {
                Some(true)
            } else {
                None
            }),
    {
        if let Some(b) = self.proc_macro {
            return Some(b);
        }
        if let Some(b) = self.proc_macro2 {
            return Some(b);
        }
        if let Some(types) = self.crate_types() {
            let mut i: usize = 0;
            while i < types.len()
                invariant
                    self.proc_macro is None && self.proc_macro2 is None,
                    crate_types_of(*self) matches Some(v) && *types == v,
                    0 <= i <= types@.len(),
                    forall|j: int| 0 <= j < i ==> types@[j]@ != "proc-macro"@,
                decreases types@.len() - i,
            {
                if str_eq(types[i].as_str(), "proc-macro") {
                    return Some(true);
                }
                i = i + 1;
            }
        }
        None
    }

    /// The crate types: `crate-type`, else the legacy `crate_type`.
    pub fn crate_types(&self) -> (r: Option<&Vec<String>>)
        ensures
            match crate_types_of(*self) {
                Some(v) => (r matches Some(x) && *x == v),
                None => r is None,
            },
    {
        match &self.crate_type {
            Some(v) => Some(v),
            None => match &self.crate_type2 {
                Some(v) => Some(v),
                None => None,
            },
        }
    }
}

/// The message for `cargo-features` inside the package table.
pub const CARGO_FEATURES_MISPLACED: &'static str =
    "the field `cargo-features` should be set at the top of Cargo.toml before any tables";

/// Stands where `cargo-features` appears inside the package table: decoding
/// it always fails, since the key belongs at the top of the manifest.
#[derive(Debug, Clone, Copy, PartialEq, Eq)]
pub struct InvalidCargoFeatures {}

impl InvalidCargoFeatures {
    /// Always refuses the key, whatever it holds.
    pub fn decode(v: &ConfigValue) -> (r: Result<InvalidCargoFeatures, DecodeError>)
        ensures
            r matches Err(DecodeError::ReservedFieldMisuse(m)) && m@ == CARGO_FEATURES_MISPLACED@,
    {
        Err(
            DecodeError::ReservedFieldMisuse(CARGO_FEATURES_MISPLACED.to_string()),
        )
    }
}

/// Every field of a target table has an accepted shape.
pub open spec fn target_ok(t: Seq<(String, ConfigValue)>) -> bool {
    str_field(t, "name"@) is Some && strings_field(t, "crate-type"@) is Some && strings_field(
        t,
        "crate_type"@,
    ) is Some && (lookup(t, "path"@) is None || lookup(t, "path"@)->0 is Str) && str_field(
        t,
        "filename"@,
    ) is Some && bool_field(t, "test"@) is Some && bool_field(t, "doctest"@) is Some && bool_field(
        t,
        "bench"@,
    ) is Some && bool_field(t, "doc"@) is Some && bool_field(t, "plugin"@) is Some && bool_field(
        t,
        "doc-scrape-examples"@,
    ) is Some && bool_field(t, "proc-macro"@) is Some && bool_field(t, "proc_macro"@) is Some
        && bool_field(t, "harness"@) is Some && strings_field(t, "required-features"@) is Some
        && str_field(t, "edition"@) is Some
}

/// The fields of `g` are those that the target table `t` holds.
pub open spec fn target_of(g: TomlTarget, t: Seq<(String, ConfigValue)>) -> bool {
    Some(g.name) == str_field(t, "name"@) && Some(opt_seq(g.crate_type)) == strings_field(
        t,
        "crate-type"@,
    ) && Some(opt_seq(g.crate_type2)) == strings_field(t, "crate_type"@) && (match g.path {
        Some(p) => lookup(t, "path"@) == Some(ConfigValue::Str(p.0)),
        None => lookup(t, "path"@) is None,
    }) && Some(g.filename) == str_field(t, "filename"@) && Some(g.test) == bool_field(t, "test"@)
        && Some(g.doctest) == bool_field(t, "doctest"@) && Some(g.bench) == bool_field(t, "bench"@)
        && Some(g.doc) == bool_field(t, "doc"@) && Some(g.plugin) == bool_field(t, "plugin"@) && Some(
        g.doc_scrape_examples,
    ) == bool_field(t, "doc-scrape-examples"@) && Some(g.proc_macro) == bool_field(
        t,
        "proc-macro"@,
    ) && Some(g.proc_macro2) == bool_field(t, "proc_macro"@) && Some(g.harness) == bool_field(
        t,
        "harness"@,
    ) && Some(opt_seq(g.required_features)) == strings_field(t, "required-features"@) && Some(
        g.edition,
    ) == str_field(t, "edition"@)
}

impl TomlTarget {
    /// Decodes a target table; keys that no field takes are not read.
    pub fn decode(v: &ConfigValue) -> (r: Result<TomlTarget, DecodeError>)
        ensures
            !(v is Table) ==> (r matches Err(DecodeError::ShapeMismatch(m)) && m@ == "a target table"@),
            v matches ConfigValue::Table(t) ==> (r is Ok <==> target_ok(t@)),
            r is Ok ==> target_of(r->Ok_0, v->Table_0@),
    {
        let t = match v {
            ConfigValue::Table(t) => t,
            _ => return Err(shape_error("a target table")),
        };
        let name = read_str(t, "name")?;
        let crate_type = read_strings(t, "crate-type")?;
        let crate_type2 = read_strings(t, "crate_type")?;
        let path = match table_get(t, "path") {
            None => None,
            Some(p) => Some(PathValue::decode(p)?),
        };
        let filename = read_str(t, "filename")?;
        let test = read_bool(t, "test")?;
        let doctest = read_bool(t, "doctest")?;
        let bench = read_bool(t, "bench")?;
        let doc = read_bool(t, "doc")?;
        let plugin = read_bool(t, "plugin")?;
        let doc_scrape_examples = read_bool(t, "doc-scrape-examples")?;
        let proc_macro = read_bool(t, "proc-macro")?;
        let proc_macro2 = read_bool(t, "proc_macro")?;
        let harness = read_bool(t, "harness")?;
        let required_features = read_strings(t, "required-features")?;
        let edition = read_str(t, "edition")?;
        Ok(TomlTarget {
            name,
            crate_type,
            crate_type2,
            path,
            filename,
            test,
            doctest,
            bench,
            doc,
            plugin,
            doc_scrape_examples,
            proc_macro,
            proc_macro2,
            harness,
            required_features,
            edition,
        })
    }
}

impl PathValue {
    /// Encodes the path as a string.
    pub fn encode(&self) -> (r: ConfigValue)
        ensures
            r == ConfigValue::Str(self.0),
    {
        ConfigValue::Str(self.0.clone())
    }
}

} // verus!
