//! Dependency entries: a bare version string or a detailed table, and the
//! form that inherits a dependency from the workspace.

use vstd::prelude::*;

use crate::fields::{
    bool_field, opt_seq, opt_string_or_vec, read_bool, read_str, read_string_or_vec, read_strings,
    str_field, string_or_vec_field, strings_field,
};
use crate::inherit::{bool_no_false, WORKSPACE_EXPECTING, WORKSPACE_FALSE};
use crate::shapes::{strings_to_values, StringOrVec};
use crate::value::{lemma_text_lt_total, text_less, text_lt, lookup, put_entry, shape_error, str_eq, table_get, ConfigValue, DecodeError};

verus! {

/// A dependency given as a table.
#[derive(Debug, PartialEq)]
pub struct TomlDetailedDependency {
    pub version: Option<String>,
    pub registry: Option<String>,
    /// The index URL that stands in for `registry` in a published manifest.
    pub registry_index: Option<String>,
    pub path: Option<String>,
    pub git: Option<String>,
    pub branch: Option<String>,
    pub tag: Option<String>,
    pub rev: Option<String>,
    pub features: Option<Vec<String>>,
    pub optional: Option<bool>,
    pub default_features: Option<bool>,
    /// The legacy spelling `default_features`.
    pub default_features2: Option<bool>,
    pub package: Option<String>,
    pub public: Option<bool>,
    /// One or more of `bin`, `cdylib`, `staticlib`, `bin:<name>`.
    pub artifact: Option<StringOrVec>,
    /// Whether the artifact is also a library dependency.
    pub lib: Option<bool>,
    /// A platform name, like `x86_64-apple-darwin`.
    pub target: Option<String>,
    /// Entries of the table that no field takes, in document order.
    pub _unused_keys: Vec<(String, ConfigValue)>,
}

impl Default for TomlDetailedDependency {
    /// A dependency table with nothing set.
    fn default() -> (r: TomlDetailedDependency)
        ensures
            r.version is None && r.registry is None && r.registry_index is None && r.path is None,
            r.git is None && r.branch is None && r.tag is None && r.rev is None,
            r.features is None && r.optional is None && r.default_features is None,
            r.default_features2 is None && r.package is None && r.public is None,
            r.artifact is None && r.lib is None && r.target is None,
            r._unused_keys@.len() == 0,
    {
        TomlDetailedDependency {
            version: None,
            registry: None,
            registry_index: None,
            path: None,
            git: None,
            branch: None,
            tag: None,
            rev: None,
            features: None,
            optional: None,
            default_features: None,
            default_features2: None,
            package: None,
            public: None,
            artifact: None,
            lib: None,
            target: None,
            _unused_keys: Vec::new(),
        }
    }
}

/// A dependency: a bare version requirement, or a table.
#[derive(Debug, PartialEq)]
pub enum TomlDependency {
    Simple(String),
    Detailed(TomlDetailedDependency),
}

/// The keys that a detailed dependency takes.
pub open spec fn is_dependency_key(k: Seq<char>) -> bool {
    k == "version"@ || k == "registry"@ || k == "registry-index"@ || k == "path"@ || k == "git"@
        || k == "branch"@ || k == "tag"@ || k == "rev"@ || k == "features"@ || k == "optional"@
        || k == "default-features"@ || k == "default_features"@ || k == "package"@ || k
        == "public"@ || k == "artifact"@ || k == "lib"@ || k == "target"@
}

/// An entry that no field of a detailed dependency takes.
pub open spec fn unrecognized(e: (String, ConfigValue)) -> bool {
    !is_dependency_key(e.0@)
}

/// Every field of a dependency table has an accepted shape.
pub open spec fn detailed_ok(t: Seq<(String, ConfigValue)>) -> bool {
    str_field(t, "version"@) is Some && str_field(t, "registry"@) is Some && str_field(
        t,
        "registry-index"@,
    ) is Some && str_field(t, "path"@) is Some && str_field(t, "git"@) is Some && str_field(
        t,
        "branch"@,
    ) is Some && str_field(t, "tag"@) is Some && str_field(t, "rev"@) is Some && strings_field(
        t,
        "features"@,
    ) is Some && bool_field(t, "optional"@) is Some && bool_field(t, "default-features"@) is Some
        && bool_field(t, "default_features"@) is Some && str_field(t, "package"@) is Some
        && bool_field(t, "public"@) is Some && string_or_vec_field(t, "artifact"@) is Some
        && bool_field(t, "lib"@) is Some && str_field(t, "target"@) is Some
}

/// The recognised fields of `d` are those that the table `t` holds.
pub open spec fn same_fields(d: TomlDetailedDependency, t: Seq<(String, ConfigValue)>) -> bool {
    Some(d.version) == str_field(t, "version"@) && Some(d.registry) == str_field(t, "registry"@)
        && Some(d.registry_index) == str_field(t, "registry-index"@) && Some(d.path) == str_field(
        t,
        "path"@,
    ) && Some(d.git) == str_field(t, "git"@) && Some(d.branch) == str_field(t, "branch"@) && Some(
        d.tag,
    ) == str_field(t, "tag"@) && Some(d.rev) == str_field(t, "rev"@) && Some(opt_seq(d.features))
        == strings_field(t, "features"@) && Some(d.optional) == bool_field(t, "optional"@) && Some(
        d.default_features,
    ) == bool_field(t, "default-features"@) && Some(d.default_features2) == bool_field(
        t,
        "default_features"@,
    ) && Some(d.package) == str_field(t, "package"@) && Some(d.public) == bool_field(t, "public"@)
        && Some(opt_string_or_vec(d.artifact)) == string_or_vec_field(t, "artifact"@) && Some(d.lib)
        == bool_field(t, "lib"@) && Some(d.target) == str_field(t, "target"@)
}

/// `d` is what the table `t` decodes to.
pub open spec fn detailed_of(d: TomlDetailedDependency, t: Seq<(String, ConfigValue)>) -> bool {
    same_fields(d, t) && d._unused_keys@ == t.filter(|e: (String, ConfigValue)| unrecognized(e))
}

/// Whether a key is one that a detailed dependency takes.
pub fn is_dependency_key_exec(k: &str) -> (r: bool)
    ensures
        r == is_dependency_key(k@),
{
    str_eq(k, "version") || str_eq(k, "registry") || str_eq(k, "registry-index") || str_eq(k, "path")
        || str_eq(k, "git") || str_eq(k, "branch") || str_eq(k, "tag") || str_eq(k, "rev") || str_eq(
        k,
        "features",
    ) || str_eq(k, "optional") || str_eq(k, "default-features") || str_eq(k, "default_features")
        || str_eq(k, "package") || str_eq(k, "public") || str_eq(k, "artifact") || str_eq(k, "lib")
        || str_eq(k, "target")
}

/// Moves the entries whose key `keep` refuses out of a table, in order.
fn split_unrecognized(t: Vec<(String, ConfigValue)>) -> (r: Vec<(String, ConfigValue)>)
    ensures
        r@ == t@.filter(|e: (String, ConfigValue)| unrecognized(e)),
{
    let ghost t0 = t@;
    let ghost pred = |e: (String, ConfigValue)| unrecognized(e);
    let mut rest = t;
    let mut out: Vec<(String, ConfigValue)> = Vec::new();
    let ghost mut k: int = 0;
    assert(t0.subrange(0, 0).filter(pred) =~= Seq::<(String, ConfigValue)>::empty()) by {
        reveal(Seq::filter);
    }
    assert(t0.subrange(0, t0.len() as int) =~= t0);
    while rest.len() > 0
        invariant
            0 <= k <= t0.len(),
            rest@ == t0.subrange(k, t0.len() as int),
            out@ == t0.subrange(0, k).filter(pred),
            pred == (|e: (String, ConfigValue)| unrecognized(e)),
        decreases rest@.len(),
    {
        let e = rest.remove(0);
        proof {
            assert(t0.subrange(0, k + 1) =~= t0.subrange(0, k).push(e));
            t0.subrange(0, k).lemma_filter_push(e, pred);
            assert(rest@ =~= t0.subrange(k + 1, t0.len() as int));
            k = k + 1;
        }
        if !is_dependency_key_exec(e.0.as_str()) {
            out.push(e);
        }
    }
    assert(t0.subrange(0, k) =~= t0);
    out
}

impl TomlDetailedDependency {
    /// Decodes a dependency table; entries that no field takes are kept aside.
    pub fn decode(t: Vec<(String, ConfigValue)>) -> (r: Result<TomlDetailedDependency, DecodeError>)
        ensures
            r is Ok <==> detailed_ok(t@),
            r is Ok ==> detailed_of(r->Ok_0, t@),
            r is Ok && distinct_names(t@) ==> distinct_names(r->Ok_0._unused_keys@),
            r is Err ==> r->Err_0 is ShapeMismatch,
    {
        let version = read_str(&t, "version")?;
        let registry = read_str(&t, "registry")?;
        let registry_index = read_str(&t, "registry-index")?;
        let path = read_str(&t, "path")?;
        let git = read_str(&t, "git")?;
        let branch = read_str(&t, "branch")?;
        let tag = read_str(&t, "tag")?;
        let rev = read_str(&t, "rev")?;
        let features = read_strings(&t, "features")?;
        let optional = read_bool(&t, "optional")?;
        let default_features = read_bool(&t, "default-features")?;
        let default_features2 = read_bool(&t, "default_features")?;
        let package = read_str(&t, "package")?;
        let public = read_bool(&t, "public")?;
        let artifact = read_string_or_vec(&t, "artifact")?;
        let lib = read_bool(&t, "lib")?;
        let target = read_str(&t, "target")?;
        let ghost t0 = t@;
        let _unused_keys = split_unrecognized(t);
        proof {
            if distinct_names(t0) {
                lemma_filter_distinct(t0, |e: (String, ConfigValue)| unrecognized(e));
            }
        }
        Ok(TomlDetailedDependency {
            version,
            registry,
            registry_index,
            path,
            git,
            branch,
            tag,
            rev,
            features,
            optional,
            default_features,
            default_features2,
            package,
            public,
            artifact,
            lib,
            target,
            _unused_keys,
        })
    }

    /// Whether default features are on: `default-features`, else the legacy
    /// `default_features`; a conflict between the two is not reported.
    pub fn default_features(&self) -> (r: Option<bool>)
        ensures
            r == (if self.default_features is Some {
                self.default_features
            } else {
                self.default_features2
            }),
    {
        match self.default_features {
            Some(b) => Some(b),
            None => self.default_features2,
        }
    }
}

/// No two entries of a table share a key.
pub open spec fn distinct_names(t: Seq<(String, ConfigValue)>) -> bool {
    forall|i: int, j: int| 0 <= i < j < t.len() ==> #[trigger] t[i].0@ != #[trigger] t[j].0@
}

/// Keeping some entries of a table whose keys are distinct keeps them distinct.
pub proof fn lemma_filter_distinct(t: Seq<(String, ConfigValue)>, pred: spec_fn((String, ConfigValue)) -> bool)
    requires
        distinct_names(t),
    ensures
        distinct_names(t.filter(pred)),
    decreases t.len(),
{
    reveal(Seq::filter);
    if t.len() > 0 {
        let init = t.drop_last();
        assert forall|i: int, j: int| 0 <= i < j < init.len() implies #[trigger] init[i].0@ != #[trigger] init[j].0@ by {
            assert(init[i] == t[i] && init[j] == t[j]);
        }
        lemma_filter_distinct(init, pred);
        let f = init.filter(pred);
        if pred(t.last()) {
            let g = f.push(t.last());
            assert forall|i: int, j: int| 0 <= i < j < g.len() implies #[trigger] g[i].0@ != #[trigger] g[j].0@ by {
                if j == f.len() {
                    assert(f.contains(f[i]));
                    init.lemma_filter_contains_rev(pred, f[i]);
                    assert(init.contains(f[i]));
                    let k = choose|k: int| 0 <= k < init.len() && init[k] == f[i];
                    assert(t[k] == init[k]);
                    assert(t[k].0@ != t[t.len() - 1].0@);
                } else {
                    assert(g[i] == f[i] && g[j] == f[j]);
                }
            }
        }
    }
}

/// `r` lists the keys of the table `t` once each, in ascending order.
pub open spec fn sorted_keys_of(r: Seq<String>, t: Seq<(String, ConfigValue)>) -> bool {
    (forall|i: int| 0 <= i < r.len() - 1 ==> text_lt(#[trigger] r[i]@, r[i + 1]@)) && (forall|
        i: int,
        j: int,
    | 0 <= i < j < r.len() ==> #[trigger] r[i]@ != #[trigger] r[j]@) && (forall|k: Seq<char>|
        #![trigger lists_text(r, k)]
        #![trigger names_key(t, k)]
        lists_text(r, k) <==> names_key(t, k))
}

/// Some string of `r` has the text `k`.
pub open spec fn lists_text(r: Seq<String>, k: Seq<char>) -> bool {
    exists|i: int| 0 <= i < r.len() && #[trigger] r[i]@ == k
}

/// Some entry of `t` has the key `k`.
pub open spec fn names_key(t: Seq<(String, ConfigValue)>, k: Seq<char>) -> bool {
    exists|j: int| 0 <= j < t.len() && #[trigger] t[j].0@ == k
}

/// The keys of a table's entries, once each, in ascending order.
#[verifier::rlimit(100)]
fn sorted_keys(t: &Vec<(String, ConfigValue)>) -> (r: Vec<String>)
    ensures
        sorted_keys_of(r@, t@),
{
    let mut r: Vec<String> = Vec::new();
    let mut j: usize = 0;
    while j < t.len()
        invariant
            0 <= j <= t@.len(),
            sorted_keys_of(r@, t@.subrange(0, j as int)),
        decreases t@.len() - j,
    {
        let key = t[j].0.as_str();
        let ghost pre = t@.subrange(0, j as int);
        let ghost cur = t@.subrange(0, j + 1);
        assert(cur == pre.push(t@[j as int]));
        let ghost r0 = r@;
        let mut found = false;
        let mut i: usize = 0;
        while i < r.len()
            invariant
                r@ == r0,
                0 <= i <= r@.len(),
                found <==> exists|x: int| 0 <= x < i && #[trigger] r@[x]@ == key@,
            decreases r@.len() - i,
        {
            if str_eq(r[i].as_str(), key) {
                found = true;
            }
            i = i + 1;
        }
        if found {
            proof {
                assert forall|k: Seq<char>| #[trigger] lists_text(r@, k) <==> names_key(cur, k) by {
                    if names_key(cur, k) {
                        let y = choose|y: int| 0 <= y < cur.len() && #[trigger] cur[y].0@ == k;
                        if y < pre.len() {
                            assert(pre[y].0@ == k);
                            assert(names_key(pre, k));
                        } else {
                            assert(k == key@);
                            let x = choose|x: int| 0 <= x < r@.len() && #[trigger] r@[x]@ == key@;
                            assert(lists_text(r@, k));
                        }
                    }
                    if lists_text(r@, k) {
                        assert(names_key(pre, k));
                        let y = choose|y: int| 0 <= y < pre.len() && #[trigger] pre[y].0@ == k;
                        assert(cur[y].0@ == k);
                    }
                }
            }
        } else {
            let mut p: usize = 0;
            while p < r.len() && text_less(r[p].as_str(), key)
                invariant
                    r@ == r0,
                    0 <= p <= r@.len(),
                    p > 0 ==> text_lt(r@[p - 1]@, key@),
                decreases r@.len() - p,
            {
                p = p + 1;
            }
            if p < r.len() {
                proof {
                    assert(r@[p as int]@ != key@);
                    lemma_text_lt_total(r@[p as int]@, key@);
                }
            }
            r.insert(p, t[j].0.clone());
            proof {
                let nr = r@;
                assert(nr == r0.insert(p as int, t@[j as int].0));
                assert forall|x: int| 0 <= x < nr.len() - 1 implies text_lt(#[trigger] nr[x]@, nr[x + 1]@) by {
                    if x < p as int - 1 {
                        assert(nr[x] == r0[x] && nr[x + 1] == r0[x + 1]);
                    } else if x == p as int - 1 {
                    } else if x == p as int {
                    } else {
                        assert(nr[x] == r0[x - 1] && nr[x + 1] == r0[x]);
                    }
                }
                assert forall|x: int, y: int| 0 <= x < y < nr.len() implies #[trigger] nr[x]@ != #[trigger] nr[y]@ by {
                    if x == p {
                        assert(nr[y] == r0[y - 1]);
                    } else if y == p {
                        assert(nr[x] == r0[x]);
                    } else {
                        let x0 = if x < p { x } else { x - 1 };
                        let y0 = if y < p { y } else { y - 1 };
                        assert(nr[x] == r0[x0] && nr[y] == r0[y0]);
                    }
                }
                assert forall|k: Seq<char>| #[trigger] lists_text(nr, k) <==> names_key(cur, k) by {
                    if names_key(cur, k) {
                        let y = choose|y: int| 0 <= y < cur.len() && #[trigger] cur[y].0@ == k;
                        if y < pre.len() {
                            assert(pre[y].0@ == k);
                            assert(names_key(pre, k));
                            let x = choose|x: int| 0 <= x < r0.len() && #[trigger] r0[x]@ == k;
                            if x < p {
                                assert(nr[x] == r0[x]);
                            } else {
                                assert(nr[x + 1] == r0[x]);
                            }
                        } else {
                            assert(nr[p as int]@ == k);
                        }
                    }
                    if lists_text(nr, k) {
                        let x = choose|x: int| 0 <= x < nr.len() && #[trigger] nr[x]@ == k;
                        if x == p {
                            assert(cur[j as int].0@ == k);
                        } else {
                            let x0 = if x < p { x } else { x - 1 };
                            assert(nr[x] == r0[x0]);
                            assert(r0[x0]@ == k);
                            assert(lists_text(r0, k));
                            let y = choose|y: int| 0 <= y < pre.len() && #[trigger] pre[y].0@ == k;
                            assert(cur[y].0@ == k);
                        }
                    }
                }
            }
        }
        j = j + 1;
    }
    assert(t@.subrange(0, t@.len() as int) =~= t@);
    r
}

/// The error for a node that is neither a version string nor a table.
pub const DEPENDENCY_EXPECTING: &'static str =
    "a version string like \"0.9.8\" or a detailed dependency like { version = \"0.9.8\" }";

impl TomlDependency {
    /// Decodes a dependency: a string is its version requirement, a table
    /// is decoded field by field.
    pub fn decode(v: ConfigValue) -> (r: Result<TomlDependency, DecodeError>)
        ensures
            v matches ConfigValue::Str(s) ==> r == Ok::<TomlDependency, DecodeError>(TomlDependency::Simple(s)),
            v matches ConfigValue::Table(t) ==> (r is Ok <==> detailed_ok(t@)),
            v matches ConfigValue::Table(t) ==> (r is Ok ==> (r->Ok_0 matches TomlDependency::Detailed(d) && detailed_of(d, t@))),
            r is Err ==> r->Err_0 is ShapeMismatch,
            !(v is Str || v is Table) ==> (r matches Err(DecodeError::ShapeMismatch(m)) && m@
                == DEPENDENCY_EXPECTING@),
            v is Table && distinct_names(v->Table_0@) ==> match r {
                Ok(TomlDependency::Detailed(d)) => distinct_names(d._unused_keys@),
                _ => true,
            },
    {
        match v {
            ConfigValue::Str(s) => Ok(TomlDependency::Simple(s)),
            ConfigValue::Table(t) => match TomlDetailedDependency::decode(t) {
                Ok(d) => Ok(TomlDependency::Detailed(d)),
                Err(e) => Err(e),
            },
            _ => Err(shape_error(DEPENDENCY_EXPECTING)),
        }
    }

    /// Whether a version requirement is given.
    pub fn is_version_specified(&self) -> (r: bool)
        ensures
            r == match self {
                TomlDependency::Simple(_) => true,
                TomlDependency::Detailed(d) => d.version is Some,
            },
    {
        match self {
            TomlDependency::Detailed(d) => d.version.is_some(),
            TomlDependency::Simple(..) => true,
        }
    }

    /// Whether the dependency is optional; a bare version is not.
    pub fn is_optional(&self) -> (r: bool)
        ensures
            r == match self {
                TomlDependency::Simple(_) => false,
                TomlDependency::Detailed(d) => d.optional == Some(true),
            },
    {
        match self {
            TomlDependency::Detailed(d) => match d.optional {
                Some(b) => b,
                None => false,
            },
            TomlDependency::Simple(..) => false,
        }
    }

    /// Whether the dependency is public; a bare version is not.
    pub fn is_public(&self) -> (r: bool)
        ensures
            r == match self {
                TomlDependency::Simple(_) => false,
                TomlDependency::Detailed(d) => d.public == Some(true),
            },
    {
        match self {
            TomlDependency::Detailed(d) => match d.public {
                Some(b) => b,
                None => false,
            },
            TomlDependency::Simple(..) => false,
        }
    }

    /// The keys of the table that no field took, in document order.
    pub fn unused_keys(&self) -> (r: Vec<String>)
        ensures
            match self {
                TomlDependency::Simple(_) => r@.len() == 0,
                TomlDependency::Detailed(d) => sorted_keys_of(r@, d._unused_keys@),
            },
    {
        match self {
            TomlDependency::Simple(_) => Vec::new(),
            TomlDependency::Detailed(detailed) => sorted_keys(&detailed._unused_keys),
        }
    }
}

/// A dependency inherited from the workspace, with local additions.
#[derive(Debug, PartialEq)]
pub struct TomlInheritedDependency {
    pub workspace: bool,
    pub features: Option<Vec<String>>,
    pub default_features: Option<bool>,
    /// The legacy spelling `default_features`.
    pub default_features2: Option<bool>,
    pub optional: Option<bool>,
    pub public: Option<bool>,
    /// Entries of the table that no field takes, in document order.
    pub _unused_keys: Vec<(String, ConfigValue)>,
}

/// The keys that an inherited dependency takes.
pub open spec fn is_inherited_key(k: Seq<char>) -> bool {
    k == "workspace"@ || k == "features"@ || k == "default-features"@ || k == "default_features"@
        || k == "optional"@ || k == "public"@
}

/// The local fields of an inheriting table have accepted shapes.
pub open spec fn inherited_ok(t: Seq<(String, ConfigValue)>) -> bool {
    strings_field(t, "features"@) is Some && bool_field(t, "default-features"@) is Some
        && bool_field(t, "default_features"@) is Some && bool_field(t, "optional"@) is Some
        && bool_field(t, "public"@) is Some
}

/// `d` holds the local fields of the inheriting table `t`.
pub open spec fn inherited_of(d: TomlInheritedDependency, t: Seq<(String, ConfigValue)>) -> bool {
    d.workspace && Some(opt_seq(d.features)) == strings_field(t, "features"@) && Some(
        d.default_features,
    ) == bool_field(t, "default-features"@) && Some(d.default_features2) == bool_field(
        t,
        "default_features"@,
    ) && Some(d.optional) == bool_field(t, "optional"@) && Some(d.public) == bool_field(
        t,
        "public"@,
    ) && d._unused_keys@ == t.filter(|e: (String, ConfigValue)| !is_inherited_key(e.0@))
}

impl TomlInheritedDependency {
    /// Whether default features are on: `default-features`, else the legacy
    /// `default_features`.
    pub fn default_features(&self) -> (r: Option<bool>)
        ensures
            r == (if self.default_features is Some {
                self.default_features
            } else {
                self.default_features2
            }),
    {
        match self.default_features {
            Some(b) => Some(b),
            None => self.default_features2,
        }
    }
}

/// Whether a key is one that an inherited dependency takes.
fn is_inherited_key_exec(k: &str) -> (r: bool)
    ensures
        r == is_inherited_key(k@),
{
    str_eq(k, "workspace") || str_eq(k, "features") || str_eq(k, "default-features") || str_eq(
        k,
        "default_features",
    ) || str_eq(k, "optional") || str_eq(k, "public")
}

/// Moves the entries that an inherited dependency does not take out of a table.
fn split_not_inherited(t: Vec<(String, ConfigValue)>) -> (r: Vec<(String, ConfigValue)>)
    ensures
        r@ == t@.filter(|e: (String, ConfigValue)| !is_inherited_key(e.0@)),
{
    let ghost t0 = t@;
    let ghost pred = |e: (String, ConfigValue)| !is_inherited_key(e.0@);
    let mut rest = t;
    let mut out: Vec<(String, ConfigValue)> = Vec::new();
    let ghost mut k: int = 0;
    assert(t0.subrange(0, 0).filter(pred) =~= Seq::<(String, ConfigValue)>::empty()) by {
        reveal(Seq::filter);
    }
    assert(t0.subrange(0, t0.len() as int) =~= t0);
    while rest.len() > 0
        invariant
            0 <= k <= t0.len(),
            rest@ == t0.subrange(k, t0.len() as int),
            out@ == t0.subrange(0, k).filter(pred),
            pred == (|e: (String, ConfigValue)| !is_inherited_key(e.0@)),
        decreases rest@.len(),
    {
        let e = rest.remove(0);
        proof {
            assert(t0.subrange(0, k + 1) =~= t0.subrange(0, k).push(e));
            t0.subrange(0, k).lemma_filter_push(e, pred);
            assert(rest@ =~= t0.subrange(k + 1, t0.len() as int));
            k = k + 1;
        }
        if !is_inherited_key_exec(e.0.as_str()) {
            out.push(e);
        }
    }
    assert(t0.subrange(0, k) =~= t0);
    out
}

/// A dependency entry of a member: its own, or the workspace's with local additions.
#[derive(Debug, PartialEq)]
pub enum InheritableDependency {
    Value(TomlDependency),
    Inherit(TomlInheritedDependency),
}

/// The workspace flag of a table, where it has one.
pub open spec fn workspace_flag(v: ConfigValue) -> Option<ConfigValue> {
    match v {
        ConfigValue::Table(t) => lookup(t@, "workspace"@),
        _ => None,
    }
}

impl InheritableDependency {
    /// Decodes a dependency entry. A table with the key `workspace` inherits
    /// (the key must be `true`); anything else is a dependency of its own.
    pub fn decode(v: ConfigValue) -> (r: Result<InheritableDependency, DecodeError>)
        ensures
            workspace_flag(v) == Some(ConfigValue::Bool(true)) ==> (r is Ok <==> inherited_ok(v->Table_0@)),
            workspace_flag(v) == Some(ConfigValue::Bool(true)) && r is Ok ==> (r->Ok_0 matches InheritableDependency::Inherit(d) && inherited_of(d, v->Table_0@)),
            workspace_flag(v) == Some(ConfigValue::Bool(false)) ==> (r matches Err(DecodeError::InheritanceConflict(m)) && m@ == WORKSPACE_FALSE@),
            v is Table && distinct_names(v->Table_0@) ==> match r {
                Ok(InheritableDependency::Inherit(d)) => distinct_names(d._unused_keys@),
                Ok(InheritableDependency::Value(TomlDependency::Detailed(d))) => distinct_names(d._unused_keys@),
                _ => true,
            },
            workspace_flag(v) matches Some(w) && !(w is Bool) ==> (r matches Err(DecodeError::ShapeMismatch(m)) && m@ == WORKSPACE_EXPECTING@),
            workspace_flag(v) is None ==> match v {
                ConfigValue::Str(s) => r == Ok::<InheritableDependency, DecodeError>(InheritableDependency::Value(TomlDependency::Simple(s))),
                ConfigValue::Table(t) => (r is Ok <==> detailed_ok(t@)) && (r is Ok ==> (r->Ok_0 matches InheritableDependency::Value(TomlDependency::Detailed(d)) && detailed_of(d, t@))),
                _ => (r matches Err(DecodeError::ShapeMismatch(m)) && m@ == DEPENDENCY_EXPECTING@),
            },
    {
        proof {
            reveal_strlit("workspace");
        }
        let flag = match &v {
            ConfigValue::Table(t) => match table_get(t, "workspace") {
                Some(w) => Some(bool_no_false(w)),
                None => None,
            },
            _ => None,
        };
        match flag {
            Some(Err(e)) => Err(e),
            Some(Ok(_)) => match v {
                ConfigValue::Table(t) => {
                    let features = read_strings(&t, "features")?;
                    let default_features = read_bool(&t, "default-features")?;
                    let default_features2 = read_bool(&t, "default_features")?;
                    let optional = read_bool(&t, "optional")?;
                    let public = read_bool(&t, "public")?;
                    let ghost t0 = t@;
                    let _unused_keys = split_not_inherited(t);
                    proof {
                        if distinct_names(t0) {
                            lemma_filter_distinct(t0, |e: (String, ConfigValue)| !is_inherited_key(e.0@));
                        }
                    }
                    Ok(
                        InheritableDependency::Inherit(
                            TomlInheritedDependency {
                                workspace: true,
                                features,
                                default_features,
                                default_features2,
                                optional,
                                public,
                                _unused_keys,
                            },
                        ),
                    )
                },
                _ => Err(shape_error(DEPENDENCY_EXPECTING)),
            },
            None => match TomlDependency::decode(v) {
                Ok(d) => Ok(InheritableDependency::Value(d)),
                Err(e) => Err(e),
            },
        }
    }

    /// The keys of the table that no field took, in document order.
    pub fn unused_keys(&self) -> (r: Vec<String>)
        ensures
            match self {
                InheritableDependency::Value(d) => match d {
                    TomlDependency::Simple(_) => r@.len() == 0,
                    TomlDependency::Detailed(x) => sorted_keys_of(r@, x._unused_keys@),
                },
                InheritableDependency::Inherit(w) => sorted_keys_of(r@, w._unused_keys@),
            },
    {
        match self {
            InheritableDependency::Value(d) => d.unused_keys(),
            InheritableDependency::Inherit(w) => sorted_keys(&w._unused_keys),
        }
    }
}

/// Every key of a table is one that a detailed dependency takes.
pub open spec fn only_dependency_keys(t: Seq<(String, ConfigValue)>) -> bool {
    forall|i: int| 0 <= i < t.len() ==> is_dependency_key(#[trigger] t[i].0@)
}

/// Appends a string entry where the value is set.
fn put_str(t: &mut Vec<(String, ConfigValue)>, key: &str, val: &Option<String>)
    requires
        is_dependency_key(key@),
        only_dependency_keys(old(t)@),
    ensures
        only_dependency_keys(final(t)@),
        forall|k: Seq<char>|
            #[trigger] lookup(final(t)@, k) == (if lookup(old(t)@, k) is Some {
                lookup(old(t)@, k)
            } else if k == key@ && val is Some {
                Some(ConfigValue::Str(val->0))
            } else {
                None
            }),
{
    if let Some(v) = val {
        let ghost t0 = t@;
        put_entry(t, key, ConfigValue::Str(v.clone()));
        assert forall|i: int| 0 <= i < t@.len() implies is_dependency_key(#[trigger] t@[i].0@) by {
            if i < t0.len() {
                assert(t@[i] == t@.subrange(0, t0.len() as int)[i]);
            }
        }
    }
}

/// Appends a boolean entry where the value is set.
fn put_bool(t: &mut Vec<(String, ConfigValue)>, key: &str, val: Option<bool>)
    requires
        is_dependency_key(key@),
        only_dependency_keys(old(t)@),
    ensures
        only_dependency_keys(final(t)@),
        forall|k: Seq<char>|
            #[trigger] lookup(final(t)@, k) == (if lookup(old(t)@, k) is Some {
                lookup(old(t)@, k)
            } else if k == key@ && val is Some {
                Some(ConfigValue::Bool(val->0))
            } else {
                None
            }),
{
    if let Some(v) = val {
        let ghost t0 = t@;
        put_entry(t, key, ConfigValue::Bool(v));
        assert forall|i: int| 0 <= i < t@.len() implies is_dependency_key(#[trigger] t@[i].0@) by {
            if i < t0.len() {
                assert(t@[i] == t@.subrange(0, t0.len() as int)[i]);
            }
        }
    }
}

/// Appends a list-of-strings entry where the value is set.
fn put_strings(t: &mut Vec<(String, ConfigValue)>, key: &str, val: Option<&Vec<String>>)
    requires
        is_dependency_key(key@),
        only_dependency_keys(old(t)@),
    ensures
        only_dependency_keys(final(t)@),
        forall|k: Seq<char>|
            #[trigger] lookup(final(t)@, k) == (if lookup(old(t)@, k) is Some {
                lookup(old(t)@, k)
            } else if k == key@ && val is Some {
                lookup(final(t)@, k)
            } else {
                None
            }),
        val is Some && lookup(old(t)@, key@) is None ==> (lookup(final(t)@, key@) matches Some(
            ConfigValue::Array(a),
        ) && crate::shapes::all_strings(a@) && crate::shapes::strings_of(a@) == val->0@),
{
    if let Some(v) = val {
        let ghost t0 = t@;
        put_entry(t, key, ConfigValue::Array(strings_to_values(v)));
        assert forall|i: int| 0 <= i < t@.len() implies is_dependency_key(#[trigger] t@[i].0@) by {
            if i < t0.len() {
                assert(t@[i] == t@.subrange(0, t0.len() as int)[i]);
            }
        }
    }
}

/// The keys of a detailed dependency are distinct texts.
proof fn lemma_dependency_keys_distinct()
    ensures
        "version"@.len() == 7 && "registry"@.len() == 8 && "registry-index"@.len() == 14,
        "path"@.len() == 4 && "git"@.len() == 3 && "branch"@.len() == 6 && "tag"@.len() == 3,
        "rev"@.len() == 3 && "features"@.len() == 8 && "optional"@.len() == 8,
        "default-features"@.len() == 16 && "default_features"@.len() == 16,
        "package"@.len() == 7 && "public"@.len() == 6 && "artifact"@.len() == 8,
        "lib"@.len() == 3 && "target"@.len() == 6,
        "git"@[0] == 'g' && "tag"@[0] == 't' && "rev"@[0] == 'r' && "lib"@[0] == 'l',
        "version"@[0] == 'v' && "package"@[0] == 'p',
        "registry"@[0] == 'r' && "features"@[0] == 'f' && "optional"@[0] == 'o' && "artifact"@[0] == 'a',
        "default-features"@[7] == '-' && "default_features"@[7] == '_',
        "branch"@[0] == 'b' && "public"@[0] == 'p' && "target"@[0] == 't',
{
    reveal_strlit("version");
    reveal_strlit("registry");
    reveal_strlit("registry-index");
    reveal_strlit("path");
    reveal_strlit("git");
    reveal_strlit("branch");
    reveal_strlit("tag");
    reveal_strlit("rev");
    reveal_strlit("features");
    reveal_strlit("optional");
    reveal_strlit("default-features");
    reveal_strlit("default_features");
    reveal_strlit("package");
    reveal_strlit("public");
    reveal_strlit("artifact");
    reveal_strlit("lib");
    reveal_strlit("target");
}

impl TomlDetailedDependency {
    /// Encodes the recognised fields that are set, in declaration order;
    /// the entries kept aside are not written.
    pub fn encode(&self) -> (r: ConfigValue)
        ensures
            r matches ConfigValue::Table(t) && same_fields(*self, t@) && t@.filter(
                |e: (String, ConfigValue)| unrecognized(e),
            ).len() == 0,
    {
        let mut t: Vec<(String, ConfigValue)> = Vec::new();
        proof {
            lemma_dependency_keys_distinct();
        }
        put_str(&mut t, "version", &self.version);
        put_str(&mut t, "registry", &self.registry);
        put_str(&mut t, "registry-index", &self.registry_index);
        put_str(&mut t, "path", &self.path);
        put_str(&mut t, "git", &self.git);
        put_str(&mut t, "branch", &self.branch);
        put_str(&mut t, "tag", &self.tag);
        put_str(&mut t, "rev", &self.rev);
        put_strings(&mut t, "features", self.features.as_ref());
        put_bool(&mut t, "optional", self.optional);
        put_bool(&mut t, "default-features", self.default_features);
        put_bool(&mut t, "default_features", self.default_features2);
        put_str(&mut t, "package", &self.package);
        put_bool(&mut t, "public", self.public);
        let artifact = match &self.artifact {
            Some(a) => Some(&a.0),
            None => None,
        };
        put_strings(&mut t, "artifact", artifact);
        put_bool(&mut t, "lib", self.lib);
        put_str(&mut t, "target", &self.target);
        proof {
            let pred = |e: (String, ConfigValue)| unrecognized(e);
            t@.lemma_all_neg_filter_empty(pred);
        }
        ConfigValue::Table(t)
    }
}

/// A bare version requirement always specifies a version.
pub open spec fn version_specified(d: TomlDependency) -> bool {
    match d {
        TomlDependency::Simple(_) => true,
        TomlDependency::Detailed(x) => x.version is Some,
    }
}

/// A string decodes to the bare form, which specifies a version.
pub proof fn lemma_string_is_simple(s: String, r: Result<TomlDependency, DecodeError>)
    requires
        r == Ok::<TomlDependency, DecodeError>(TomlDependency::Simple(s)),
    ensures
        r matches Ok(d) && version_specified(d) && d == TomlDependency::Simple(s),
{
}

/// A table holding only `version` decodes to a detailed dependency with that
/// version and every other field unset.
pub proof fn lemma_version_only_table(
    t: Seq<(String, ConfigValue)>,
    v: String,
    d: TomlDetailedDependency,
)
    requires
        t.len() == 1,
        t[0].0@ == "version"@,
        t[0].1 == ConfigValue::Str(v),
        detailed_of(d, t),
    ensures
        detailed_ok(t),
        d.version == Some(v),
        d.registry is None && d.registry_index is None && d.path is None && d.git is None,
        d.branch is None && d.tag is None && d.rev is None && d.features is None,
        d.optional is None && d.default_features is None && d.default_features2 is None,
        d.package is None && d.public is None && d.artifact is None && d.lib is None,
        d.target is None,
        d._unused_keys@.len() == 0,
{
    reveal_strlit("version");
    reveal_strlit("registry");
    reveal_strlit("registry-index");
    reveal_strlit("path");
    reveal_strlit("git");
    reveal_strlit("branch");
    reveal_strlit("tag");
    reveal_strlit("rev");
    reveal_strlit("features");
    reveal_strlit("optional");
    reveal_strlit("default-features");
    reveal_strlit("default_features");
    reveal_strlit("package");
    reveal_strlit("public");
    reveal_strlit("artifact");
    reveal_strlit("lib");
    reveal_strlit("target");
    lemma_dependency_keys_distinct();
    assert(t.drop_first().len() == 0);
    assert forall|k: Seq<char>| k != "version"@ implies lookup(t, k) is None by {
        assert(lookup(t.drop_first(), k) is None);
    }
    reveal(Seq::filter);
    assert(t.drop_last().len() == 0);
    assert(t.drop_last().filter(|e: (String, ConfigValue)| unrecognized(e)) =~= t.drop_last());
    assert(!unrecognized(t.last()));
}

/// Encoding a detailed dependency that has no entries aside, then decoding
/// the table, gives back the same fields.
pub proof fn lemma_detailed_round_trip(
    d: TomlDetailedDependency,
    t: Seq<(String, ConfigValue)>,
    d2: TomlDetailedDependency,
)
    requires
        d._unused_keys@.len() == 0,
        same_fields(d, t),
        t.filter(|e: (String, ConfigValue)| unrecognized(e)).len() == 0,
        detailed_of(d2, t),
    ensures
        detailed_ok(t),
        d2.version == d.version && d2.registry == d.registry && d2.registry_index == d.registry_index,
        d2.path == d.path && d2.git == d.git && d2.branch == d.branch && d2.tag == d.tag,
        d2.rev == d.rev && opt_seq(d2.features) == opt_seq(d.features),
        d2.optional == d.optional && d2.default_features == d.default_features,
        d2.default_features2 == d.default_features2 && d2.package == d.package,
        d2.public == d.public && opt_string_or_vec(d2.artifact) == opt_string_or_vec(d.artifact),
        d2.lib == d.lib && d2.target == d.target,
        d2._unused_keys@ == d._unused_keys@,
{
    assert(d2._unused_keys@ =~= d._unused_keys@);
}

/// Two dependency tables hold the same recognised fields.
pub open spec fn same_recognised(t: Seq<(String, ConfigValue)>, u: Seq<(String, ConfigValue)>) -> bool {
    str_field(t, "version"@) == str_field(u, "version"@) && str_field(t, "registry"@) == str_field(
        u,
        "registry"@,
    ) && str_field(t, "registry-index"@) == str_field(u, "registry-index"@) && str_field(t, "path"@)
        == str_field(u, "path"@) && str_field(t, "git"@) == str_field(u, "git"@) && str_field(
        t,
        "branch"@,
    ) == str_field(u, "branch"@) && str_field(t, "tag"@) == str_field(u, "tag"@) && str_field(
        t,
        "rev"@,
    ) == str_field(u, "rev"@) && strings_field(t, "features"@) == strings_field(u, "features"@)
        && bool_field(t, "optional"@) == bool_field(u, "optional"@) && bool_field(
        t,
        "default-features"@,
    ) == bool_field(u, "default-features"@) && bool_field(t, "default_features"@) == bool_field(
        u,
        "default_features"@,
    ) && str_field(t, "package"@) == str_field(u, "package"@) && bool_field(t, "public"@)
        == bool_field(u, "public"@) && string_or_vec_field(t, "artifact"@) == string_or_vec_field(
        u,
        "artifact"@,
    ) && bool_field(t, "lib"@) == bool_field(u, "lib"@) && str_field(t, "target"@) == str_field(
        u,
        "target"@,
    )
}

/// Decoding a dependency table that holds only recognised keys, then
/// encoding the result, gives a table with the same recognised fields and,
/// like the first, no other key.
pub proof fn lemma_table_round_trip(
    t: Seq<(String, ConfigValue)>,
    d: TomlDetailedDependency,
    u: Seq<(String, ConfigValue)>,
)
    requires
        t.filter(|e: (String, ConfigValue)| unrecognized(e)).len() == 0,
        detailed_of(d, t),
        same_fields(d, u),
        u.filter(|e: (String, ConfigValue)| unrecognized(e)).len() == 0,
    ensures
        d._unused_keys@.len() == 0,
        same_recognised(t, u),
{
}

} // verus!
