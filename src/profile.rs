//! Build profiles: named bundles of compiler settings, with per-package and
//! build-script overrides, and the merge that layers one profile on another.

use vstd::prelude::*;

use crate::fields::{bool_field, opt_seq, read_bool, read_str, read_strings, str_field, strings_field};
use crate::shapes::{
    copy_opt_string, copy_opt_string_or_bool, copy_opt_strings, string_or_bool_of, StringOrBool,
};
use crate::trim_paths::{trim_paths_of, TomlTrimPaths, TrimPathsView};
use crate::value::{
    put_entry,
    int_text, int_to_text, key_index, lemma_key_index, lookup, shape_error, str_eq, table_get, text_to_i64, i64_of_text, value_error, ConfigValue,
    DecodeError,
};

verus! {

/// An optimization level, kept as its text (`"0"` to `"3"`, `"s"`, `"z"`).
#[derive(Debug, Clone, PartialEq, Eq)]
pub struct TomlOptLevel(pub String);

impl TomlOptLevel {
    /// An exact copy.
    pub fn copy(&self) -> (r: TomlOptLevel)
        ensures
            r == *self,
    {
        TomlOptLevel(self.0.clone())
    }
}

/// How much debug information the compiler emits.
#[derive(Debug, Clone, Copy, PartialEq, Eq, Structural, Hash, PartialOrd, Ord)]
pub enum TomlDebugInfo {
    /// No debug information.
    Off,
    LineDirectivesOnly,
    LineTablesOnly,
    Limited,
    Full,
}

/// The key of a per-package override: a package pattern, or every package (`*`).
#[derive(Debug, Clone, PartialEq, Eq, Hash, PartialOrd, Ord)]
pub enum ProfilePackageSpec {
    Spec(String),
    All,
}

/// What a per-package key denotes.
pub enum PackageSpecView {
    Spec(Seq<char>),
    All,
}

impl View for ProfilePackageSpec {
    type V = PackageSpecView;

    open spec fn view(&self) -> PackageSpecView {
        match self {
            ProfilePackageSpec::Spec(s) => PackageSpecView::Spec(s@),
            ProfilePackageSpec::All => PackageSpecView::All,
        }
    }
}

impl ProfilePackageSpec {
    /// An exact copy.
    pub fn copy(&self) -> (r: ProfilePackageSpec)
        ensures
            r == *self,
    {
        match self {
            ProfilePackageSpec::Spec(s) => ProfilePackageSpec::Spec(s.clone()),
            ProfilePackageSpec::All => ProfilePackageSpec::All,
        }
    }

    /// Whether two keys denote the same packages.
    pub fn same_as(&self, o: &ProfilePackageSpec) -> (r: bool)
        ensures
            r == (self@ == o@),
    {
        match (self, o) {
            (ProfilePackageSpec::Spec(a), ProfilePackageSpec::Spec(b)) => str_eq(a.as_str(), b.as_str()),
            (ProfilePackageSpec::All, ProfilePackageSpec::All) => true,
            _ => false,
        }
    }
}

/// One profile. Every field is optional; `package` and `build_override`
/// hold nested profiles that apply on top of this one.
#[derive(Debug, PartialEq, Eq, Default)]
pub struct TomlProfile {
    pub opt_level: Option<TomlOptLevel>,
    pub lto: Option<StringOrBool>,
    pub codegen_backend: Option<String>,
    pub codegen_units: Option<u32>,
    pub debug: Option<TomlDebugInfo>,
    pub split_debuginfo: Option<String>,
    pub debug_assertions: Option<bool>,
    pub rpath: Option<bool>,
    pub panic: Option<String>,
    pub overflow_checks: Option<bool>,
    pub incremental: Option<bool>,
    pub dir_name: Option<String>,
    pub inherits: Option<String>,
    pub strip: Option<StringOrBool>,
    pub rustflags: Option<Vec<String>>,
    /// Overrides per package, in document order, keys distinct.
    pub package: Option<Vec<(ProfilePackageSpec, TomlProfile)>>,
    pub build_override: Option<Box<TomlProfile>>,
    pub trim_paths: Option<TomlTrimPaths>,
}

/// What a profile holds, with its lists as sequences.
pub struct ProfileView {
    pub opt_level: Option<TomlOptLevel>,
    pub lto: Option<StringOrBool>,
    pub codegen_backend: Option<String>,
    pub codegen_units: Option<u32>,
    pub debug: Option<TomlDebugInfo>,
    pub split_debuginfo: Option<String>,
    pub debug_assertions: Option<bool>,
    pub rpath: Option<bool>,
    pub panic: Option<String>,
    pub overflow_checks: Option<bool>,
    pub incremental: Option<bool>,
    pub dir_name: Option<String>,
    pub inherits: Option<String>,
    pub strip: Option<StringOrBool>,
    pub rustflags: Option<Seq<String>>,
    pub package: Option<Seq<(PackageSpecView, ProfileView)>>,
    pub build_override: Option<Box<ProfileView>>,
    pub trim_paths: Option<TrimPathsView>,
}

/// The model of a profile.
pub open spec fn profile_view(p: TomlProfile) -> ProfileView
    decreases p, 0nat,
{
    ProfileView {
        opt_level: p.opt_level,
        lto: p.lto,
        codegen_backend: p.codegen_backend,
        codegen_units: p.codegen_units,
        debug: p.debug,
        split_debuginfo: p.split_debuginfo,
        debug_assertions: p.debug_assertions,
        rpath: p.rpath,
        panic: p.panic,
        overflow_checks: p.overflow_checks,
        incremental: p.incremental,
        dir_name: p.dir_name,
        inherits: p.inherits,
        strip: p.strip,
        rustflags: match p.rustflags {
            Some(v) => Some(v@),
            None => None,
        },
        package: match p.package {
            Some(v) => Some(entries_view(v@, v@.len())),
            None => None,
        },
        build_override: match p.build_override {
            Some(b) => Some(Box::new(profile_view(*b))),
            None => None,
        },
        trim_paths: match p.trim_paths {
            Some(t) => Some(t@),
            None => None,
        },
    }
}

/// The model of the first `n` per-package entries.
pub open spec fn entries_view(s: Seq<(ProfilePackageSpec, TomlProfile)>, n: nat) -> Seq<
    (PackageSpecView, ProfileView),
>
    decreases s, n,
{
    if n == 0 || n > s.len() {
        Seq::empty()
    } else {
        entries_view(s, (n - 1) as nat).push((s[n - 1].0@, profile_view(s[n - 1].1)))
    }
}

/// The model of all per-package entries.
pub open spec fn entries_of(s: Seq<(ProfilePackageSpec, TomlProfile)>) -> Seq<
    (PackageSpecView, ProfileView),
> {
    entries_view(s, s.len())
}

/// `j` is the first position of key `k`.
pub open spec fn is_first_key(s: Seq<(PackageSpecView, ProfileView)>, k: PackageSpecView, j: int) -> bool {
    0 <= j < s.len() && s[j].0 == k && forall|i: int| 0 <= i < j ==> s[i].0 != k
}

/// The value of `b` where it has one, else that of `a`.
pub open spec fn pick<T>(a: Option<T>, b: Option<T>) -> Option<T> {
    if b is Some {
        b
    } else {
        a
    }
}

/// `a` with `b` layered on top: each setting of `b` wins, nested
/// overrides with the same key merge recursively, other ones are added.
pub open spec fn merge_view(a: ProfileView, b: ProfileView) -> ProfileView
    decreases b, 0nat,
{
    ProfileView {
        opt_level: pick(a.opt_level, b.opt_level),
        lto: pick(a.lto, b.lto),
        codegen_backend: pick(a.codegen_backend, b.codegen_backend),
        codegen_units: pick(a.codegen_units, b.codegen_units),
        debug: pick(a.debug, b.debug),
        split_debuginfo: pick(a.split_debuginfo, b.split_debuginfo),
        debug_assertions: pick(a.debug_assertions, b.debug_assertions),
        rpath: pick(a.rpath, b.rpath),
        panic: pick(a.panic, b.panic),
        overflow_checks: pick(a.overflow_checks, b.overflow_checks),
        incremental: pick(a.incremental, b.incremental),
        dir_name: pick(a.dir_name, b.dir_name),
        inherits: pick(a.inherits, b.inherits),
        strip: pick(a.strip, b.strip),
        rustflags: pick(a.rustflags, b.rustflags),
        package: match b.package {
            Some(bp) => match a.package {
                Some(ap) => Some(merge_entries(ap, bp, bp.len())),
                None => Some(bp),
            },
            None => a.package,
        },
        build_override: match b.build_override {
            Some(bb) => match a.build_override {
                Some(ab) => Some(Box::new(merge_view(*ab, *bb))),
                None => Some(bb),
            },
            None => a.build_override,
        },
        trim_paths: pick(a.trim_paths, b.trim_paths),
    }
}

/// The entries `a` with the first `n` entries of `b` layered on in order:
/// an entry whose key `a` has merges into it, another one is appended.
pub open spec fn merge_entries(
    a: Seq<(PackageSpecView, ProfileView)>,
    b: Seq<(PackageSpecView, ProfileView)>,
    n: nat,
) -> Seq<(PackageSpecView, ProfileView)>
    decreases b, n,
{
    if n == 0 || n > b.len() {
        a
    } else {
        let r = merge_entries(a, b, (n - 1) as nat);
        let k = b[n - 1].0;
        if exists|j: int| is_first_key(r, k, j) {
            let j = choose|j: int| is_first_key(r, k, j);
            r.update(j, (k, merge_view(r[j].1, b[n - 1].1)))
        } else {
            r.push(b[n - 1])
        }
    }
}

/// The model of the entries, position by position.
pub proof fn lemma_entries_of(s: Seq<(ProfilePackageSpec, TomlProfile)>)
    ensures
        entries_of(s).len() == s.len(),
        forall|i: int|
            0 <= i < s.len() ==> #[trigger] entries_of(s)[i] == (s[i].0@, profile_view(s[i].1)),
{
    lemma_entries_view(s, s.len());
}

proof fn lemma_entries_view(s: Seq<(ProfilePackageSpec, TomlProfile)>, n: nat)
    requires
        n <= s.len(),
    ensures
        entries_view(s, n).len() == n,
        forall|i: int|
            0 <= i < n ==> #[trigger] entries_view(s, n)[i] == (s[i].0@, profile_view(s[i].1)),
    decreases n,
{
    if n > 0 {
        lemma_entries_view(s, (n - 1) as nat);
    }
}

/// A copy of a profile, nested overrides included.
pub fn copy_profile(p: &TomlProfile) -> (r: TomlProfile)
    ensures
        profile_view(r) == profile_view(*p),
    decreases p, 0nat,
{
    let package = match &p.package {
        Some(v) => Some(copy_entries(v)),
        None => None,
    };
    let build_override = match &p.build_override {
        Some(b) => Some(Box::new(copy_profile(b))),
        None => None,
    };
    let trim_paths = match &p.trim_paths {
        Some(t) => Some(t.copy()),
        None => None,
    };
    let opt_level = match &p.opt_level {
        Some(o) => Some(o.copy()),
        None => None,
    };
    let r = TomlProfile {
        opt_level,
        lto: copy_opt_string_or_bool(&p.lto),
        codegen_backend: copy_opt_string(&p.codegen_backend),
        codegen_units: p.codegen_units,
        debug: p.debug,
        split_debuginfo: copy_opt_string(&p.split_debuginfo),
        debug_assertions: p.debug_assertions,
        rpath: p.rpath,
        panic: copy_opt_string(&p.panic),
        overflow_checks: p.overflow_checks,
        incremental: p.incremental,
        dir_name: copy_opt_string(&p.dir_name),
        inherits: copy_opt_string(&p.inherits),
        strip: copy_opt_string_or_bool(&p.strip),
        rustflags: copy_opt_strings(&p.rustflags),
        package,
        build_override,
        trim_paths,
    };
    r
}

/// A copy of per-package entries.
pub fn copy_entries(v: &Vec<(ProfilePackageSpec, TomlProfile)>) -> (r: Vec<(ProfilePackageSpec, TomlProfile)>)
    ensures
        entries_of(r@) == entries_of(v@),
    decreases v, 1nat,
{
    let mut r: Vec<(ProfilePackageSpec, TomlProfile)> = Vec::new();
    let mut i: usize = 0;
    while i < v.len()
        invariant
            0 <= i <= v@.len(),
            r@.len() == i,
            forall|j: int| 0 <= j < i ==> #[trigger] r@[j].0@ == v@[j].0@ && profile_view(r@[j].1) == profile_view(v@[j].1),
        decreases v@.len() - i,
    {
        proof {
            assert(decreases_to!(v => v@[i as int].1));
        }
        let e = (v[i].0.copy(), copy_profile(&v[i].1));
        r.push(e);
        i = i + 1;
    }
    proof {
        lemma_entries_of(r@);
        lemma_entries_of(v@);
        assert(entries_of(r@) =~= entries_of(v@));
    }
    r
}

/// The first position of a key among entries, if it is there.
fn find_entry(s: &Vec<(ProfilePackageSpec, TomlProfile)>, k: &ProfilePackageSpec) -> (r: Option<usize>)
    ensures
        r is Some ==> is_first_key(entries_of(s@), k@, r->0 as int),
        r is None ==> forall|j: int| 0 <= j < s@.len() ==> s@[j].0@ != k@,
{
    proof {
        lemma_entries_of(s@);
    }
    let mut i: usize = 0;
    while i < s.len()
        invariant
            0 <= i <= s@.len(),
            entries_of(s@).len() == s@.len(),
            forall|j: int| 0 <= j < s@.len() ==> #[trigger] entries_of(s@)[j] == (s@[j].0@, profile_view(s@[j].1)),
            forall|j: int| 0 <= j < i ==> s@[j].0@ != k@,
        decreases s@.len() - i,
    {
        if s[i].0.same_as(k) {
            assert(entries_of(s@)[i as int].0 == k@);
            assert forall|j: int| 0 <= j < i implies entries_of(s@)[j].0 != k@ by {
                assert(entries_of(s@)[j] == (s@[j].0@, profile_view(s@[j].1)));
            }
            return Some(i);
        }
        i = i + 1;
    }
    None
}

/// Layers the entries `op` on `sp`, in order.
fn merge_package_entries(
    sp: &mut Vec<(ProfilePackageSpec, TomlProfile)>,
    op: &Vec<(ProfilePackageSpec, TomlProfile)>,
)
    ensures
        entries_of(final(sp)@) == merge_entries(entries_of(old(sp)@), entries_of(op@), op@.len()),
    decreases op, 1nat,
{
    let ghost a = entries_of(sp@);
    let ghost b = entries_of(op@);
    proof {
        lemma_entries_of(op@);
    }
    let mut i: usize = 0;
    while i < op.len()
        invariant
            0 <= i <= op@.len(),
            b == entries_of(op@),
            b.len() == op@.len(),
            forall|j: int| 0 <= j < op@.len() ==> #[trigger] b[j] == (op@[j].0@, profile_view(op@[j].1)),
            entries_of(sp@) == merge_entries(a, b, i as nat),
        decreases op@.len() - i,
    {
        let ghost r = entries_of(sp@);
        proof {
            lemma_entries_of(sp@);
            assert(decreases_to!(op => op@[i as int].1));
        }
        let found = find_entry(sp, &op[i].0);
        match found {
            Some(j) => {
                let (k, mut p) = sp.remove(j);
                p.merge(&op[i].1);
                sp.insert(j, (k, p));
                proof {
                    let kk = b[i as int].0;
                    assert forall|j2: int| is_first_key(r, kk, j2) implies j2 == j by {
                        if j2 < j {
                            assert(r[j2].0 != kk);
                        }
                        if j2 > j {
                            assert(r[j as int].0 != kk);
                        }
                    }
                    lemma_entries_of(sp@);
                    assert(entries_of(sp@) =~= r.update(j as int, (kk, merge_view(r[j as int].1, b[i as int].1))));
                }
            },
            None => {
                let e = (op[i].0.copy(), copy_profile(&op[i].1));
                sp.push(e);
                proof {
                    let kk = b[i as int].0;
                    assert(!exists|j2: int| is_first_key(r, kk, j2));
                    lemma_entries_of(sp@);
                    assert(entries_of(sp@) =~= r.push(b[i as int]));
                }
            },
        }
        i = i + 1;
    }
}

/// Layers the per-package overrides `op` on `sp`.
fn merge_package_field(
    sp: &mut Option<Vec<(ProfilePackageSpec, TomlProfile)>>,
    op: &Option<Vec<(ProfilePackageSpec, TomlProfile)>>,
)
    ensures
        op is None ==> *final(sp) == *old(sp),
        op is Some ==> (*final(sp)) is Some,
        op is Some && (*old(sp)) is Some ==> entries_of((*final(sp))->0@) == merge_entries(
            entries_of((*old(sp))->0@),
            entries_of(op->0@),
            entries_of(op->0@).len(),
        ),
        op is Some && (*old(sp)) is None ==> entries_of((*final(sp))->0@) == entries_of(op->0@),
    decreases op, 2nat,
{
    if let Some(other_package) = op {
        proof {
            lemma_entries_of(other_package@);
        }
        let taken = sp.take();
        match taken {
            Some(mut self_package) => {
                merge_package_entries(&mut self_package, other_package);
                *sp = Some(self_package);
            },
            None => {
                *sp = Some(copy_entries(other_package));
            },
        }
    }
}

/// Layers the build-script override `ob` on `sb`.
fn merge_build_override(sb: &mut Option<Box<TomlProfile>>, ob: &Option<Box<TomlProfile>>)
    ensures
        ob is None ==> *final(sb) == *old(sb),
        ob is Some ==> (*final(sb)) is Some,
        ob is Some && (*old(sb)) is Some ==> profile_view(*(*final(sb))->0) == merge_view(
            profile_view(*(*old(sb))->0),
            profile_view(*ob->0),
        ),
        ob is Some && (*old(sb)) is None ==> profile_view(*(*final(sb))->0) == profile_view(*ob->0),
    decreases ob, 2nat,
{
    if let Some(other_bo) = ob {
        let taken = sb.take();
        match taken {
            Some(self_bo) => {
                let mut inner = *self_bo;
                inner.merge(other_bo);
                *sb = Some(Box::new(inner));
            },
            None => {
                *sb = Some(Box::new(copy_profile(other_bo)));
            },
        }
    }
}

impl TomlProfile {
    /// Overwrites this profile's settings with those that `profile` sets:
    /// nested overrides merge recursively.
    pub fn merge(&mut self, profile: &Self)
        ensures
            profile_view(*final(self)) == merge_view(profile_view(*old(self)), profile_view(*profile)),
            package_keys_distinct(profile_view(*old(self))) && package_keys_distinct(profile_view(*profile))
                ==> package_keys_distinct(profile_view(*final(self))),
        decreases profile, 0nat,
    {
        let ghost s0 = profile_view(*self);
        let opt_level = match &profile.opt_level {
            Some(v) => Some(v.copy()),
            None => None,
        };
        take_set(&mut self.opt_level, opt_level);
        take_set(&mut self.lto, copy_opt_string_or_bool(&profile.lto));
        take_set(&mut self.codegen_backend, copy_opt_string(&profile.codegen_backend));
        take_set(&mut self.codegen_units, profile.codegen_units);
        take_set(&mut self.debug, profile.debug);
        take_set(&mut self.debug_assertions, profile.debug_assertions);
        take_set(&mut self.split_debuginfo, copy_opt_string(&profile.split_debuginfo));
        take_set(&mut self.rpath, profile.rpath);
        take_set(&mut self.panic, copy_opt_string(&profile.panic));
        take_set(&mut self.overflow_checks, profile.overflow_checks);
        take_set(&mut self.incremental, profile.incremental);
        let rustflags = copy_opt_strings(&profile.rustflags);
        take_set(&mut self.rustflags, rustflags);
        merge_package_field(&mut self.package, &profile.package);
        merge_build_override(&mut self.build_override, &profile.build_override);
        take_set(&mut self.inherits, copy_opt_string(&profile.inherits));
        take_set(&mut self.dir_name, copy_opt_string(&profile.dir_name));
        take_set(&mut self.strip, copy_opt_string_or_bool(&profile.strip));
        let trim_paths = match &profile.trim_paths {
            Some(v) => Some(v.copy()),
            None => None,
        };
        take_set(&mut self.trim_paths, trim_paths);
        proof {
            let m = merge_view(s0, profile_view(*profile));
            let f = profile_view(*self);
            assert(f.rustflags == m.rustflags);
            assert(f.trim_paths == m.trim_paths);
            assert(f.package == m.package);
            assert(f.build_override == m.build_override);
            assert(f =~~= m);
            if s0.package is Some && profile_view(*profile).package is Some {
                let bp = profile_view(*profile).package->0;
                if distinct_keys(s0.package->0) {
                    lemma_merge_entries_distinct(s0.package->0, bp, bp.len());
                }
            }
        }
    }
}

/// Sets `a` to `b` where `b` is set.
fn take_set<T>(a: &mut Option<T>, b: Option<T>)
    ensures
        *final(a) == pick(*old(a), b),
{
    if b.is_some() {
        *a = b;
    }
}

/// The debug-info level that a node denotes, if any.
pub open spec fn debug_info_of(v: ConfigValue) -> Option<TomlDebugInfo> {
    match v {
        ConfigValue::Bool(b) => Some(if b { TomlDebugInfo::Full } else { TomlDebugInfo::Off }),
        ConfigValue::Int(i) => if i == 0 {
            Some(TomlDebugInfo::Off)
        } else if i == 1 {
            Some(TomlDebugInfo::Limited)
        } else if i == 2 {
            Some(TomlDebugInfo::Full)
        } else {
            None
        },
        ConfigValue::Str(s) => if s@ == "none"@ {
            Some(TomlDebugInfo::Off)
        } else if s@ == "limited"@ {
            Some(TomlDebugInfo::Limited)
        } else if s@ == "full"@ {
            Some(TomlDebugInfo::Full)
        } else if s@ == "line-directives-only"@ {
            Some(TomlDebugInfo::LineDirectivesOnly)
        } else if s@ == "line-tables-only"@ {
            Some(TomlDebugInfo::LineTablesOnly)
        } else {
            None
        },
        _ => None,
    }
}

/// The text of a debug-info level: its number, or its name.
pub open spec fn debug_info_text(d: TomlDebugInfo) -> Seq<char> {
    match d {
        TomlDebugInfo::Off => "0"@,
        TomlDebugInfo::Limited => "1"@,
        TomlDebugInfo::Full => "2"@,
        TomlDebugInfo::LineDirectivesOnly => "line-directives-only"@,
        TomlDebugInfo::LineTablesOnly => "line-tables-only"@,
    }
}

/// The accepted shapes of a debug-info level.
pub const DEBUG_INFO_EXPECTING: &'static str =
    "a boolean, 0, 1, 2, \"line-tables-only\", or \"line-directives-only\"";

impl TomlDebugInfo {
    /// Decodes a debug-info level from a boolean, an integer or a name.
    pub fn decode(v: &ConfigValue) -> (r: Result<TomlDebugInfo, DecodeError>)
        ensures
            r is Ok <==> debug_info_of(*v) is Some,
            r is Ok ==> r->Ok_0 == debug_info_of(*v)->0,
            r is Err ==> (match *v {
                ConfigValue::Bool(_) | ConfigValue::Int(_) | ConfigValue::Str(_) => (r->Err_0 matches DecodeError::InvalidValue(m)
                    && m@ == DEBUG_INFO_EXPECTING@),
                _ => (r->Err_0 matches DecodeError::ShapeMismatch(m) && m@ == DEBUG_INFO_EXPECTING@),
            }),
    {
        proof {
            reveal_strlit("none");
            reveal_strlit("limited");
            reveal_strlit("full");
            reveal_strlit("line-directives-only");
            reveal_strlit("line-tables-only");
        }
        match v {
            ConfigValue::Bool(b) => Ok(if *b { TomlDebugInfo::Full } else { TomlDebugInfo::Off }),
            ConfigValue::Int(i) => {
                if *i == 0 {
                    Ok(TomlDebugInfo::Off)
                } else if *i == 1 {
                    Ok(TomlDebugInfo::Limited)
                } else if *i == 2 {
                    Ok(TomlDebugInfo::Full)
                } else {
                    Err(value_error(DEBUG_INFO_EXPECTING))
                }
            },
            ConfigValue::Str(s) => {
                let s = s.as_str();
                if str_eq(s, "none") {
                    Ok(TomlDebugInfo::Off)
                } else if str_eq(s, "limited") {
                    Ok(TomlDebugInfo::Limited)
                } else if str_eq(s, "full") {
                    Ok(TomlDebugInfo::Full)
                } else if str_eq(s, "line-directives-only") {
                    Ok(TomlDebugInfo::LineDirectivesOnly)
                } else if str_eq(s, "line-tables-only") {
                    Ok(TomlDebugInfo::LineTablesOnly)
                } else {
                    Err(value_error(DEBUG_INFO_EXPECTING))
                }
            },
            _ => Err(shape_error(DEBUG_INFO_EXPECTING)),
        }
    }

    /// Encodes the level: an integer for the numbered ones, a string for the named ones.
    pub fn encode(&self) -> (r: ConfigValue)
        ensures
            *self == TomlDebugInfo::Off ==> r == ConfigValue::Int(0),
            *self == TomlDebugInfo::Limited ==> r == ConfigValue::Int(1),
            *self == TomlDebugInfo::Full ==> r == ConfigValue::Int(2),
            *self == TomlDebugInfo::LineDirectivesOnly ==> (r matches ConfigValue::Str(s) && s@ == "line-directives-only"@),
            *self == TomlDebugInfo::LineTablesOnly ==> (r matches ConfigValue::Str(s) && s@ == "line-tables-only"@),
            debug_info_of(r) == Some(*self),
    {
        proof {
            reveal_strlit("none");
            reveal_strlit("limited");
            reveal_strlit("full");
            reveal_strlit("line-directives-only");
            reveal_strlit("line-tables-only");
            assert("none"@.len() == 4 && "limited"@.len() == 7 && "full"@.len() == 4);
            assert("line-directives-only"@.len() == 20 && "line-tables-only"@.len() == 16);
        }
        match self {
            TomlDebugInfo::Off => ConfigValue::Int(0),
            TomlDebugInfo::Limited => ConfigValue::Int(1),
            TomlDebugInfo::Full => ConfigValue::Int(2),
            TomlDebugInfo::LineDirectivesOnly => ConfigValue::Str("line-directives-only".to_string()),
            TomlDebugInfo::LineTablesOnly => ConfigValue::Str("line-tables-only".to_string()),
        }
    }

    /// The level as text: `0`, `1`, `2`, or its name.
    pub fn to_text(&self) -> (r: String)
        ensures
            r@ == debug_info_text(*self),
    {
        match self {
            TomlDebugInfo::Off => "0".to_string(),
            TomlDebugInfo::Limited => "1".to_string(),
            TomlDebugInfo::Full => "2".to_string(),
            TomlDebugInfo::LineDirectivesOnly => "line-directives-only".to_string(),
            TomlDebugInfo::LineTablesOnly => "line-tables-only".to_string(),
        }
    }
}

/// The text of the optimization level that a node denotes, if any: any
/// integer, or the strings `s` and `z`.
pub open spec fn opt_level_of(v: ConfigValue) -> Option<Seq<char>> {
    match v {
        ConfigValue::Int(i) => Some(int_text(i as int)),
        ConfigValue::Str(s) => if s@ == "s"@ || s@ == "z"@ {
            Some(s@)
        } else {
            None
        },
        _ => None,
    }
}

/// The message for an optimization level that is neither an integer nor a string.
pub const OPT_LEVEL_EXPECTING: &'static str = "an optimization level";

/// The start of the message for a string that is no optimization level.
pub const OPT_LEVEL_FOUND: &'static str = "must be `0`, `1`, `2`, `3`, `s` or `z`, but found the string: \"";

/// The message for a string that is no optimization level: the accepted
/// levels, and the string found.
pub open spec fn opt_level_string_message(s: Seq<char>) -> Seq<char> {
    OPT_LEVEL_FOUND@ + s + "\""@
}

impl TomlOptLevel {
    /// Decodes an optimization level from an integer or from `"s"` or `"z"`.
    pub fn decode(v: &ConfigValue) -> (r: Result<TomlOptLevel, DecodeError>)
        ensures
            r is Ok <==> opt_level_of(*v) is Some,
            r is Ok ==> r->Ok_0.0@ == opt_level_of(*v)->0,
            r is Err ==> (r->Err_0 matches DecodeError::ShapeMismatch(m) && m@ == match *v {
                ConfigValue::Str(s) => opt_level_string_message(s@),
                _ => OPT_LEVEL_EXPECTING@,
            }),
    {
        proof {
            reveal_strlit("s");
            reveal_strlit("z");
        }
        match v {
            ConfigValue::Int(i) => Ok(TomlOptLevel(int_to_text(*i))),
            ConfigValue::Str(s) => {
                if str_eq(s.as_str(), "s") || str_eq(s.as_str(), "z") {
                    Ok(TomlOptLevel(s.clone()))
                } else {
                    let m = OPT_LEVEL_FOUND.to_string().concat(s.as_str()).concat("\"");
                    Err(DecodeError::ShapeMismatch(m))
                }
            },
            _ => Err(shape_error(OPT_LEVEL_EXPECTING)),
        }
    }

    /// Encodes the level: an integer where the text reads as one, else the text.
    pub fn encode(&self) -> (r: ConfigValue)
        ensures
            i64_of_text(self.0@) is Some ==> r == ConfigValue::Int(i64_of_text(self.0@)->0),
            i64_of_text(self.0@) is None ==> r == ConfigValue::Str(self.0),
    {
        match text_to_i64(self.0.as_str()) {
            Some(n) => ConfigValue::Int(n),
            None => ConfigValue::Str(self.0.clone()),
        }
    }
}

/// The per-package key that a string denotes: `*` is every package.
pub open spec fn package_spec_of(s: Seq<char>) -> PackageSpecView {
    if s == "*"@ {
        PackageSpecView::All
    } else {
        PackageSpecView::Spec(s)
    }
}

impl ProfilePackageSpec {
    /// Decodes a per-package key from a string.
    pub fn decode(v: &ConfigValue) -> (r: Result<ProfilePackageSpec, DecodeError>)
        ensures
            r is Ok <==> v is Str,
            r is Ok ==> r->Ok_0@ == package_spec_of(v->Str_0@),
            r is Err ==> r->Err_0 is ShapeMismatch,
    {
        proof {
            reveal_strlit("*");
        }
        match v {
            ConfigValue::Str(s) => {
                if str_eq(s.as_str(), "*") {
                    Ok(ProfilePackageSpec::All)
                } else {
                    Ok(ProfilePackageSpec::Spec(s.clone()))
                }
            },
            _ => Err(shape_error("a string")),
        }
    }

    /// The key as text: the pattern, or `*`.
    pub fn to_text(&self) -> (r: String)
        ensures
            r@ == (match self@ {
                PackageSpecView::Spec(s) => s,
                PackageSpecView::All => "*"@,
            }),
    {
        match self {
            ProfilePackageSpec::Spec(s) => s.clone(),
            ProfilePackageSpec::All => "*".to_string(),
        }
    }

    /// Encodes the key as a string.
    pub fn encode(&self) -> (r: ConfigValue)
        ensures
            r matches ConfigValue::Str(s) && s@ == (match self@ {
                PackageSpecView::Spec(s) => s,
                PackageSpecView::All => "*"@,
            }),
    {
        ConfigValue::Str(self.to_text())
    }
}

/// Merging is right-biased on every setting: a setting of `b` wins, and
/// one that `b` leaves unset keeps the value of `a`.
pub proof fn lemma_merge_right_biased(a: ProfileView, b: ProfileView)
    ensures
        merge_view(a, b).opt_level == (if b.opt_level is Some { b.opt_level } else { a.opt_level }),
        merge_view(a, b).lto == (if b.lto is Some { b.lto } else { a.lto }),
        merge_view(a, b).codegen_backend == (if b.codegen_backend is Some { b.codegen_backend } else { a.codegen_backend }),
        merge_view(a, b).codegen_units == (if b.codegen_units is Some { b.codegen_units } else { a.codegen_units }),
        merge_view(a, b).debug == (if b.debug is Some { b.debug } else { a.debug }),
        merge_view(a, b).split_debuginfo == (if b.split_debuginfo is Some { b.split_debuginfo } else { a.split_debuginfo }),
        merge_view(a, b).debug_assertions == (if b.debug_assertions is Some { b.debug_assertions } else { a.debug_assertions }),
        merge_view(a, b).rpath == (if b.rpath is Some { b.rpath } else { a.rpath }),
        merge_view(a, b).panic == (if b.panic is Some { b.panic } else { a.panic }),
        merge_view(a, b).overflow_checks == (if b.overflow_checks is Some { b.overflow_checks } else { a.overflow_checks }),
        merge_view(a, b).incremental == (if b.incremental is Some { b.incremental } else { a.incremental }),
        merge_view(a, b).dir_name == (if b.dir_name is Some { b.dir_name } else { a.dir_name }),
        merge_view(a, b).inherits == (if b.inherits is Some { b.inherits } else { a.inherits }),
        merge_view(a, b).strip == (if b.strip is Some { b.strip } else { a.strip }),
        merge_view(a, b).rustflags == (if b.rustflags is Some { b.rustflags } else { a.rustflags }),
        merge_view(a, b).trim_paths == (if b.trim_paths is Some { b.trim_paths } else { a.trim_paths }),
{
}

/// Overrides of the same package merge recursively: where both profiles
/// override one key, the merged override is the merge of the two.
pub proof fn lemma_merge_same_package(
    a: ProfileView,
    b: ProfileView,
    k: PackageSpecView,
    pa: ProfileView,
    pb: ProfileView,
)
    requires
        a.package == Some(seq![(k, pa)]),
        b.package == Some(seq![(k, pb)]),
    ensures
        merge_view(a, b).package == Some(seq![(k, merge_view(pa, pb))]),
{
    let ap = seq![(k, pa)];
    let bp = seq![(k, pb)];
    assert(is_first_key(ap, k, 0));
    assert(merge_entries(ap, bp, 0) == ap);
    assert forall|j: int| is_first_key(ap, k, j) implies j == 0 by {}
    assert(merge_entries(ap, bp, 1) =~= seq![(k, merge_view(pa, pb))]);
}

/// Some entry has key `k`.
pub open spec fn has_key(s: Seq<(PackageSpecView, ProfileView)>, k: PackageSpecView) -> bool {
    exists|i: int| 0 <= i < s.len() && #[trigger] s[i].0 == k
}

/// Layering per-package overrides keeps every key of both sides and no
/// other: the merged keys are the union. Entries of `a` keep their place
/// and key, and one whose key `b` lacks keeps its value.
pub proof fn lemma_merge_entries_keys(
    a: Seq<(PackageSpecView, ProfileView)>,
    b: Seq<(PackageSpecView, ProfileView)>,
    n: nat,
)
    requires
        n <= b.len(),
    ensures
        forall|k: PackageSpecView|
            has_key(merge_entries(a, b, n), k) <==> (has_key(a, k) || has_key(b.subrange(0, n as int), k)),
        merge_entries(a, b, n).len() >= a.len(),
        forall|i: int| 0 <= i < a.len() ==> (#[trigger] merge_entries(a, b, n)[i]).0 == a[i].0,
        forall|i: int|
            0 <= i < a.len() && !has_key(b.subrange(0, n as int), a[i].0) ==> #[trigger] merge_entries(
                a,
                b,
                n,
            )[i] == a[i],
    decreases n,
{
    if n > 0 {
        lemma_merge_entries_keys(a, b, (n - 1) as nat);
        let r = merge_entries(a, b, (n - 1) as nat);
        let e = b[n - 1];
        let pre = b.subrange(0, n - 1);
        let cur = b.subrange(0, n as int);
        assert(pre == b.subrange(0, ((n - 1) as nat) as int));
        assert(cur == pre.push(e));
        assert forall|k: PackageSpecView| has_key(cur, k) <==> (has_key(pre, k) || e.0 == k) by {
            if has_key(cur, k) {
                let i = choose|i: int| 0 <= i < cur.len() && #[trigger] cur[i].0 == k;
                if i < pre.len() {
                    assert(pre[i].0 == k);
                }
            }
            if has_key(pre, k) {
                let i = choose|i: int| 0 <= i < pre.len() && #[trigger] pre[i].0 == k;
                assert(cur[i].0 == k);
            }
            if e.0 == k {
                assert(cur[n - 1].0 == k);
            }
        }
        let m = merge_entries(a, b, n);
        if exists|j: int| is_first_key(r, e.0, j) {
            let j = choose|j: int| is_first_key(r, e.0, j);
            assert(m == r.update(j, (e.0, merge_view(r[j].1, e.1))));
            assert(r[j].0 == e.0);
            assert(has_key(r, e.0));
            assert forall|k: PackageSpecView| has_key(m, k) <==> has_key(r, k) by {
                if has_key(m, k) {
                    let i = choose|i: int| 0 <= i < m.len() && #[trigger] m[i].0 == k;
                    assert(r[i].0 == k);
                }
                if has_key(r, k) {
                    let i = choose|i: int| 0 <= i < r.len() && #[trigger] r[i].0 == k;
                    assert(m[i].0 == k);
                }
            }
            assert forall|i: int|
                0 <= i < a.len() && !has_key(cur, a[i].0) implies #[trigger] m[i] == a[i] by {
                assert(r[i].0 == a[i].0);
                assert(i != j);
            }
            assert forall|i: int| 0 <= i < a.len() implies (#[trigger] m[i]).0 == a[i].0 by {
                assert(r[i].0 == a[i].0);
            }
            assert forall|k: PackageSpecView|
                has_key(m, k) <==> (has_key(a, k) || has_key(cur, k)) by {
                assert(has_key(m, k) <==> has_key(r, k));
                assert(has_key(r, k) <==> (has_key(a, k) || has_key(pre, k)));
                assert(has_key(cur, k) <==> (has_key(pre, k) || e.0 == k));
            }
        } else {
            assert(m == r.push(e));
            assert forall|k: PackageSpecView| has_key(m, k) <==> (has_key(r, k) || e.0 == k) by {
                if has_key(m, k) {
                    let i = choose|i: int| 0 <= i < m.len() && #[trigger] m[i].0 == k;
                    if i < r.len() {
                        assert(r[i].0 == k);
                    }
                }
                if has_key(r, k) {
                    let i = choose|i: int| 0 <= i < r.len() && #[trigger] r[i].0 == k;
                    assert(m[i].0 == k);
                }
                if e.0 == k {
                    assert(m[r.len() as int].0 == k);
                }
            }
            assert forall|i: int|
                0 <= i < a.len() && !has_key(cur, a[i].0) implies #[trigger] m[i] == a[i] by {
                assert(m[i] == r[i]);
            }
            assert forall|i: int| 0 <= i < a.len() implies (#[trigger] m[i]).0 == a[i].0 by {
                assert(m[i] == r[i]);
                assert(r[i].0 == a[i].0);
            }
            assert forall|k: PackageSpecView|
                has_key(m, k) <==> (has_key(a, k) || has_key(cur, k)) by {
                assert(has_key(m, k) <==> (has_key(r, k) || e.0 == k));
                assert(has_key(r, k) <==> (has_key(a, k) || has_key(pre, k)));
                assert(has_key(cur, k) <==> (has_key(pre, k) || e.0 == k));
            }
        }
    } else {
        assert forall|k: PackageSpecView| !has_key(b.subrange(0, 0), k) by {}
    }
}

/// No two entries share a key.
pub open spec fn distinct_keys(s: Seq<(PackageSpecView, ProfileView)>) -> bool {
    forall|i: int, j: int| 0 <= i < j < s.len() ==> #[trigger] s[i].0 != #[trigger] s[j].0
}

/// Layering per-package overrides on entries with distinct keys leaves the
/// keys distinct: an override merges into the entry of its key, or is
/// appended where the key is new.
pub proof fn lemma_merge_entries_distinct(
    a: Seq<(PackageSpecView, ProfileView)>,
    b: Seq<(PackageSpecView, ProfileView)>,
    n: nat,
)
    requires
        distinct_keys(a),
    ensures
        distinct_keys(merge_entries(a, b, n)),
    decreases n,
{
    if n > 0 && n <= b.len() {
        lemma_merge_entries_distinct(a, b, (n - 1) as nat);
        let r = merge_entries(a, b, (n - 1) as nat);
        let e = b[n - 1];
        let m = merge_entries(a, b, n);
        if exists|j: int| is_first_key(r, e.0, j) {
            let j = choose|j: int| is_first_key(r, e.0, j);
            assert(m == r.update(j, (e.0, merge_view(r[j].1, e.1))));
            assert forall|x: int, y: int| 0 <= x < y < m.len() implies #[trigger] m[x].0 != #[trigger] m[y].0 by {
                assert(m[x].0 == r[x].0);
                assert(m[y].0 == r[y].0);
            }
        } else {
            assert(m == r.push(e));
            assert forall|x: int, y: int| 0 <= x < y < m.len() implies #[trigger] m[x].0 != #[trigger] m[y].0 by {
                if y == r.len() {
                    if m[x].0 == e.0 {
                        assert(is_first_key(r, e.0, x)) by {
                            assert forall|k: int| 0 <= k < x implies r[k].0 != e.0 by {
                                assert(r[k].0 != r[x].0);
                            }
                        }
                    }
                } else {
                    assert(m[x] == r[x] && m[y] == r[y]);
                }
            }
        }
    }
}

/// The per-package keys of a profile are distinct.
pub open spec fn package_keys_distinct(v: ProfileView) -> bool {
    match v.package {
        Some(s) => distinct_keys(s),
        None => true,
    }
}

/// A set of named profiles, in document order.
#[derive(Debug, PartialEq, Default)]
pub struct TomlProfiles(pub Vec<(String, TomlProfile)>);

/// The first profile of a name, if any.
pub open spec fn find_profile(s: Seq<(String, TomlProfile)>, name: Seq<char>) -> Option<int> {
    if exists|i: int| 0 <= i < s.len() && s[i].0@ == name {
        Some(choose|i: int| 0 <= i < s.len() && s[i].0@ == name && forall|j: int| 0 <= j < i ==> s[j].0@ != name)
    } else {
        None
    }
}

impl TomlProfiles {
    /// Every profile, with its name.
    pub fn get_all(&self) -> (r: &Vec<(String, TomlProfile)>)
        ensures
            r == &self.0,
    {
        &self.0
    }

    /// The profile of a name.
    pub fn get(&self, name: &str) -> (r: Option<&TomlProfile>)
        ensures
            r is None <==> forall|i: int| 0 <= i < self.0@.len() ==> self.0@[i].0@ != name@,
            r matches Some(p) ==> exists|i: int|
                0 <= i < self.0@.len() && self.0@[i].0@ == name@ && *p == self.0@[i].1 && forall|j: int|
                    0 <= j < i ==> self.0@[j].0@ != name@,
    {
        let mut i: usize = 0;
        while i < self.0.len()
            invariant
                0 <= i <= self.0@.len(),
                forall|j: int| 0 <= j < i ==> self.0@[j].0@ != name@,
            decreases self.0@.len() - i,
        {
            if str_eq(self.0[i].0.as_str(), name) {
                return Some(&self.0[i].1);
            }
            i = i + 1;
        }
        None
    }
}

/// An optional field decoded by `f`: absent, decoded, or refused (`None`).
pub open spec fn decoded_opt<T>(o: Option<ConfigValue>, f: spec_fn(ConfigValue) -> Option<T>) -> Option<Option<T>> {
    match o {
        None => Some(None),
        Some(x) => match f(x) {
            Some(y) => Some(Some(y)),
            None => None,
        },
    }
}

/// A number of codegen units: an integer that fits in 32 bits.
pub open spec fn units_of(v: ConfigValue) -> Option<u32> {
    match v {
        ConfigValue::Int(i) => if 0 <= i <= u32::MAX {
            Some(i as u32)
        } else {
            None
        },
        _ => None,
    }
}

/// The settings of `p` are those that the table `t` holds, and it has
/// nested overrides exactly where `t` does.
pub open spec fn profile_fields_of(p: TomlProfile, t: Seq<(String, ConfigValue)>) -> bool {
    decoded_opt(lookup(t, "opt-level"@), |x: ConfigValue| opt_level_of(x)) == Some(
        match p.opt_level {
            Some(o) => Some(o.0@),
            None => None,
        },
    ) && decoded_opt(lookup(t, "lto"@), |x: ConfigValue| string_or_bool_of(x)) == Some(p.lto)
        && Some(p.codegen_backend) == str_field(t, "codegen-backend"@) && decoded_opt(
        lookup(t, "codegen-units"@),
        |x: ConfigValue| units_of(x),
    ) == Some(p.codegen_units) && decoded_opt(lookup(t, "debug"@), |x: ConfigValue| debug_info_of(x))
        == Some(p.debug) && Some(p.split_debuginfo) == str_field(t, "split-debuginfo"@) && Some(
        p.debug_assertions,
    ) == bool_field(t, "debug-assertions"@) && Some(p.rpath) == bool_field(t, "rpath"@) && Some(
        p.panic,
    ) == str_field(t, "panic"@) && Some(p.overflow_checks) == bool_field(t, "overflow-checks"@)
        && Some(p.incremental) == bool_field(t, "incremental"@) && Some(p.dir_name) == str_field(
        t,
        "dir-name"@,
    ) && Some(p.inherits) == str_field(t, "inherits"@) && decoded_opt(
        lookup(t, "strip"@),
        |x: ConfigValue| string_or_bool_of(x),
    ) == Some(p.strip) && Some(opt_seq(p.rustflags)) == strings_field(t, "rustflags"@)
        && decoded_opt(lookup(t, "trim-paths"@), |x: ConfigValue| trim_paths_of(x)) == Some(
        match p.trim_paths {
            Some(x) => Some(x@),
            None => None,
        },
    ) && (p.package is Some <==> lookup(t, "package"@) is Some) && (p.build_override is Some
        <==> lookup(t, "build-override"@) is Some)
}

/// Every setting of a profile table has an accepted shape.
pub open spec fn profile_settings_ok(t: Seq<(String, ConfigValue)>) -> bool {
    decoded_opt(lookup(t, "opt-level"@), |x: ConfigValue| opt_level_of(x)) is Some && decoded_opt(
        lookup(t, "lto"@),
        |x: ConfigValue| string_or_bool_of(x),
    ) is Some && str_field(t, "codegen-backend"@) is Some && decoded_opt(
        lookup(t, "codegen-units"@),
        |x: ConfigValue| units_of(x),
    ) is Some && decoded_opt(lookup(t, "debug"@), |x: ConfigValue| debug_info_of(x)) is Some
        && str_field(t, "split-debuginfo"@) is Some && bool_field(t, "debug-assertions"@) is Some
        && bool_field(t, "rpath"@) is Some && str_field(t, "panic"@) is Some && bool_field(
        t,
        "overflow-checks"@,
    ) is Some && bool_field(t, "incremental"@) is Some && str_field(t, "dir-name"@) is Some
        && str_field(t, "inherits"@) is Some && decoded_opt(
        lookup(t, "strip"@),
        |x: ConfigValue| string_or_bool_of(x),
    ) is Some && strings_field(t, "rustflags"@) is Some && decoded_opt(
        lookup(t, "trim-paths"@),
        |x: ConfigValue| trim_paths_of(x),
    ) is Some
}

/// The per-package entries `ps` are those of the table `pt`, in order: each
/// key read as a package key, each value a profile table with the same settings.
pub open spec fn nested_entries_of(ps: Seq<(ProfilePackageSpec, TomlProfile)>, pt: Seq<(String, ConfigValue)>) -> bool {
    ps.len() == pt.len() && forall|i: int|
        0 <= i < ps.len() ==> (#[trigger] ps[i]).0@ == package_spec_of(pt[i].0@) && pt[i].1 is Table
            && profile_fields_of(ps[i].1, pt[i].1->Table_0@)
}

/// A profile table that decodes: its settings have accepted shapes, and
/// its per-package overrides (a table of profile tables) and build override
/// decode too.
pub open spec fn profile_decodable(v: ConfigValue) -> bool
    decreases v,
{
    match v {
        ConfigValue::Table(t) => {
            let pi = key_index(t@, "package"@);
            let bi = key_index(t@, "build-override"@);
            &&& profile_settings_ok(t@)
            &&& (0 <= pi < t@.len() ==> match t@[pi].1 {
                ConfigValue::Table(pt) => forall|i: int|
                    0 <= i < pt@.len() ==> profile_decodable(#[trigger] pt@[i].1),
                _ => false,
            })
            &&& (0 <= bi < t@.len() ==> profile_decodable(t@[bi].1))
        },
        _ => false,
    }
}

/// Decodes an optional field with a decoder of its own.
fn read_opt_level(t: &Vec<(String, ConfigValue)>) -> (r: Result<Option<TomlOptLevel>, DecodeError>)
    ensures
        r is Ok <==> decoded_opt(lookup(t@, "opt-level"@), |x: ConfigValue| opt_level_of(x)) is Some,
        r is Ok ==> decoded_opt(lookup(t@, "opt-level"@), |x: ConfigValue| opt_level_of(x))->0 == match r->Ok_0 {
            Some(o) => Some(o.0@),
            None => None,
        },
{
    match table_get(t, "opt-level") {
        None => Ok(None),
        Some(x) => Ok(Some(TomlOptLevel::decode(x)?)),
    }
}

/// The message for a profile that is not a table.
pub const PROFILE_EXPECTING: &'static str = "a profile table";

impl TomlProfile {
    /// Decodes a profile table. Keys that no setting takes are not read;
    /// nested overrides decode recursively.
    pub fn decode(v: &ConfigValue) -> (r: Result<TomlProfile, DecodeError>)
        ensures
            !(v is Table) ==> (r matches Err(DecodeError::ShapeMismatch(m)) && m@ == PROFILE_EXPECTING@),
            r is Ok ==> v is Table && profile_fields_of(r->Ok_0, v->Table_0@),
            r is Ok ==> profile_settings_ok(v->Table_0@),
            r is Ok ==> match r->Ok_0.package {
                Some(ps) => (lookup(v->Table_0@, "package"@) matches Some(ConfigValue::Table(pt))
                    && nested_entries_of(ps@, pt@)),
                None => true,
            },
            r is Ok ==> match r->Ok_0.package {
                Some(ps) => (lookup(v->Table_0@, "package"@) matches Some(ConfigValue::Table(pt))
                    && crate::dependency::distinct_names(pt@)) ==> forall|i: int, j: int|
                    0 <= i < j < ps@.len() ==> #[trigger] ps@[i].0@ != #[trigger] ps@[j].0@,
                None => true,
            },
            r is Ok ==> match r->Ok_0.build_override {
                Some(b) => (lookup(v->Table_0@, "build-override"@) matches Some(ConfigValue::Table(bt))
                    && profile_fields_of(*b, bt@)),
                None => true,
            },
            r is Ok <==> profile_decodable(*v),
        decreases v,
    {
        let t = match v {
            ConfigValue::Table(t) => t,
            _ => return Err(shape_error(PROFILE_EXPECTING)),
        };
        proof {
            lemma_key_index(t@, "package"@);
            lemma_key_index(t@, "build-override"@);
        }
        let opt_level = read_opt_level(t)?;
        let lto = match table_get(t, "lto") {
            None => None,
            Some(x) => Some(StringOrBool::decode(x)?),
        };
        let codegen_backend = read_str(t, "codegen-backend")?;
        let codegen_units = match table_get(t, "codegen-units") {
            None => None,
            Some(ConfigValue::Int(n)) => {
                if 0 <= *n && *n <= 4294967295 {
                    Some(*n as u32)
                } else {
                    return Err(value_error("a number of codegen units"));
                }
            },
            Some(_) => return Err(shape_error("a number of codegen units")),
        };
        let debug = match table_get(t, "debug") {
            None => None,
            Some(x) => Some(TomlDebugInfo::decode(x)?),
        };
        let split_debuginfo = read_str(t, "split-debuginfo")?;
        let debug_assertions = read_bool(t, "debug-assertions")?;
        let rpath = read_bool(t, "rpath")?;
        let panic = read_str(t, "panic")?;
        let overflow_checks = read_bool(t, "overflow-checks")?;
        let incremental = read_bool(t, "incremental")?;
        let dir_name = read_str(t, "dir-name")?;
        let inherits = read_str(t, "inherits")?;
        let strip = match table_get(t, "strip") {
            None => None,
            Some(x) => Some(StringOrBool::decode(x)?),
        };
        let rustflags = read_strings(t, "rustflags")?;
        let trim_paths = match table_get(t, "trim-paths") {
            None => None,
            Some(x) => Some(TomlTrimPaths::decode(x)?),
        };
        let package = match table_get(t, "package") {
            None => None,
            Some(ConfigValue::Table(pt)) => {
                proof {
                    let i = choose|i: int| 0 <= i < t@.len() && ConfigValue::Table(*pt) == t@[i].1;
                    assert(decreases_to!(*v => t@[i].1));
                    let tv = t@[i].1;
                    assert(decreases_to!(tv => tv->Table_0));
                    assert(tv->Table_0 == *pt);
                }
                let mut out: Vec<(ProfilePackageSpec, TomlProfile)> = Vec::new();
                let mut i: usize = 0;
                while i < pt.len()
                    invariant
                        *v == ConfigValue::Table(*t),
                        lookup(t@, "package"@) == Some(ConfigValue::Table(*pt)),
                        0 <= key_index(t@, "package"@) < t@.len(),
                        t@[key_index(t@, "package"@)].1 == ConfigValue::Table(*pt),
                        profile_settings_ok(t@),
                        forall|k: int| 0 <= k < i ==> profile_decodable(#[trigger] pt@[k].1),
                        out@.len() == i,
                        forall|k: int|
                            0 <= k < i ==> (#[trigger] out@[k]).0@ == package_spec_of(pt@[k].0@)
                                && pt@[k].1 is Table && profile_fields_of(out@[k].1, pt@[k].1->Table_0@),
                        0 <= i <= pt@.len(),
                        decreases_to!(*v => *pt),
                    decreases pt@.len() - i,
                {
                    proof {
                        reveal_strlit("*");
                    }
                    let key = if str_eq(pt[i].0.as_str(), "*") {
                        ProfilePackageSpec::All
                    } else {
                        ProfilePackageSpec::Spec(pt[i].0.clone())
                    };
                    proof {
                        assert(decreases_to!(*pt => pt@[i as int].1));
                    }
                    let p = match TomlProfile::decode(&pt[i].1) {
                        Ok(p) => p,
                        Err(e) => {
                            proof {
                                if profile_decodable(*v) {
                                    let pi = key_index(t@, "package"@);
                                    assert(t@[pi].1 == ConfigValue::Table(*pt));
                                    assert(t@[pi].1->Table_0 == *pt);
                                    assert(profile_decodable(pt@[i as int].1));
                                }
                            }
                            return Err(e);
                        },
                    };
                    out.push((key, p));
                    i = i + 1;
                }
                assert(nested_entries_of(out@, pt@));
                proof {
                    if crate::dependency::distinct_names(pt@) {
                        assert forall|x: int, y: int| 0 <= x < y < out@.len() implies #[trigger] out@[x].0@
                            != #[trigger] out@[y].0@ by {
                            assert(pt@[x].0@ != pt@[y].0@);
                        }
                    }
                }
                Some(out)
            },
            Some(_) => {
                assert(!profile_decodable(*v));
                return Err(shape_error("a table of package overrides"));
            },
        };
        let build_override = match table_get(t, "build-override") {
            None => None,
            Some(x) => {
                proof {
                    let i = choose|i: int| 0 <= i < t@.len() && *x == t@[i].1;
                    assert(decreases_to!(*v => t@[i].1));
                }
                match TomlProfile::decode(x) {
                    Ok(b) => Some(Box::new(b)),
                    Err(e) => {
                        assert(!profile_decodable(*v));
                        return Err(e);
                    },
                }
            },
        };
        Ok(TomlProfile {
            opt_level,
            lto,
            codegen_backend,
            codegen_units,
            debug,
            split_debuginfo,
            debug_assertions,
            rpath,
            panic,
            overflow_checks,
            incremental,
            dir_name,
            inherits,
            strip,
            rustflags,
            package,
            build_override,
            trim_paths,
        })
    }
}

/// Appends an entry where a value is given.
fn put_opt(t: &mut Vec<(String, ConfigValue)>, key: &str, val: Option<ConfigValue>)
    ensures
        forall|k: Seq<char>|
            #[trigger] lookup(final(t)@, k) == (if lookup(old(t)@, k) is Some {
                lookup(old(t)@, k)
            } else if k == key@ {
                val
            } else {
                None
            }),
{
    if let Some(v) = val {
        put_entry(t, key, v);
    }
}

/// The keys of a profile table are distinct texts.
proof fn lemma_profile_keys_distinct()
    ensures
        "opt-level"@.len() == 9 && "rustflags"@.len() == 9 && "opt-level"@[0] == 'o' && "rustflags"@[0] == 'r',
        "lto"@.len() == 3 && "codegen-units"@.len() == 13 && "debug-assertions"@.len() == 16,
        "codegen-backend"@.len() == 15 && "split-debuginfo"@.len() == 15 && "overflow-checks"@.len() == 15,
        "codegen-backend"@[0] == 'c' && "split-debuginfo"@[0] == 's' && "overflow-checks"@[0] == 'o',
        "debug"@.len() == 5 && "rpath"@.len() == 5 && "panic"@.len() == 5 && "strip"@.len() == 5,
        "debug"@[0] == 'd' && "rpath"@[0] == 'r' && "panic"@[0] == 'p' && "strip"@[0] == 's',
        "dir-name"@.len() == 8 && "inherits"@.len() == 8 && "dir-name"@[0] == 'd' && "inherits"@[0] == 'i',
        "incremental"@.len() == 11 && "package"@.len() == 7 && "build-override"@.len() == 14,
        "trim-paths"@.len() == 10,
{
    reveal_strlit("opt-level");
    reveal_strlit("rustflags");
    reveal_strlit("lto");
    reveal_strlit("codegen-units");
    reveal_strlit("debug-assertions");
    reveal_strlit("codegen-backend");
    reveal_strlit("split-debuginfo");
    reveal_strlit("overflow-checks");
    reveal_strlit("debug");
    reveal_strlit("rpath");
    reveal_strlit("panic");
    reveal_strlit("strip");
    reveal_strlit("dir-name");
    reveal_strlit("inherits");
    reveal_strlit("incremental");
    reveal_strlit("package");
    reveal_strlit("build-override");
    reveal_strlit("trim-paths");
}

/// How an optimization level is written: as an integer where its text
/// reads as one, else as its text.
pub open spec fn opt_level_encoding(o: TomlOptLevel) -> ConfigValue {
    match i64_of_text(o.0@) {
        Some(n) => ConfigValue::Int(n),
        None => ConfigValue::Str(o.0),
    }
}

/// The table `t` holds the settings of `p` so that each decodes back to the
/// same value, the optimization level written as `opt_level_encoding` says,
/// and the nested overrides present exactly where `p` has them.
pub open spec fn encoded_profile(p: TomlProfile, t: Seq<(String, ConfigValue)>) -> bool {
    lookup(t, "opt-level"@) == (match p.opt_level {
        Some(o) => Some(opt_level_encoding(o)),
        None => None,
    }) && decoded_opt(
        lookup(t, "lto"@),
        |x: ConfigValue| string_or_bool_of(x),
    ) == Some(p.lto) && Some(p.codegen_backend) == str_field(t, "codegen-backend"@) && decoded_opt(
        lookup(t, "codegen-units"@),
        |x: ConfigValue| units_of(x),
    ) == Some(p.codegen_units) && decoded_opt(lookup(t, "debug"@), |x: ConfigValue| debug_info_of(x))
        == Some(p.debug) && Some(p.split_debuginfo) == str_field(t, "split-debuginfo"@) && Some(
        p.debug_assertions,
    ) == bool_field(t, "debug-assertions"@) && Some(p.rpath) == bool_field(t, "rpath"@) && Some(
        p.panic,
    ) == str_field(t, "panic"@) && Some(p.overflow_checks) == bool_field(t, "overflow-checks"@)
        && Some(p.incremental) == bool_field(t, "incremental"@) && Some(p.dir_name) == str_field(
        t,
        "dir-name"@,
    ) && Some(p.inherits) == str_field(t, "inherits"@) && decoded_opt(
        lookup(t, "strip"@),
        |x: ConfigValue| string_or_bool_of(x),
    ) == Some(p.strip) && Some(opt_seq(p.rustflags)) == strings_field(t, "rustflags"@)
        && decoded_opt(lookup(t, "trim-paths"@), |x: ConfigValue| trim_paths_of(x)) == Some(
        match p.trim_paths {
            Some(x) => Some(x@),
            None => None,
        },
    ) && (p.package is Some <==> lookup(t, "package"@) is Some) && (p.build_override is Some
        <==> lookup(t, "build-override"@) is Some)
}

fn opt_str_value(o: &Option<String>) -> (r: Option<ConfigValue>)
    ensures
        match *o {
            Some(s) => r == Some(ConfigValue::Str(s)),
            None => r is None,
        },
{
    match o {
        Some(s) => Some(ConfigValue::Str(s.clone())),
        None => None,
    }
}

fn opt_bool_value(o: Option<bool>) -> (r: Option<ConfigValue>)
    ensures
        match o {
            Some(b) => r == Some(ConfigValue::Bool(b)),
            None => r is None,
        },
{
    match o {
        Some(b) => Some(ConfigValue::Bool(b)),
        None => None,
    }
}

fn opt_string_or_bool_value(o: &Option<StringOrBool>) -> (r: Option<ConfigValue>)
    ensures
        decoded_opt(r, |x: ConfigValue| string_or_bool_of(x)) == Some(*o),
{
    match o {
        Some(x) => Some(x.encode()),
        None => None,
    }
}

impl TomlProfile {
    /// Encodes the profile as a table of the settings that are set, the
    /// nested overrides last.
    pub fn encode(&self) -> (r: ConfigValue)
        ensures
            r matches ConfigValue::Table(t) && encoded_profile(*self, t@),
        decreases self,
    {
        proof {
            lemma_profile_keys_distinct();
        }
        let mut t: Vec<(String, ConfigValue)> = Vec::new();
        let opt_level = match &self.opt_level {
            Some(o) => Some(o.encode()),
            None => None,
        };
        put_opt(&mut t, "opt-level", opt_level);
        put_opt(&mut t, "lto", opt_string_or_bool_value(&self.lto));
        put_opt(&mut t, "codegen-backend", opt_str_value(&self.codegen_backend));
        let units = match self.codegen_units {
            Some(n) => Some(ConfigValue::Int(n as i64)),
            None => None,
        };
        put_opt(&mut t, "codegen-units", units);
        let debug = match self.debug {
            Some(d) => Some(d.encode()),
            None => None,
        };
        put_opt(&mut t, "debug", debug);
        put_opt(&mut t, "split-debuginfo", opt_str_value(&self.split_debuginfo));
        put_opt(&mut t, "debug-assertions", opt_bool_value(self.debug_assertions));
        put_opt(&mut t, "rpath", opt_bool_value(self.rpath));
        put_opt(&mut t, "panic", opt_str_value(&self.panic));
        put_opt(&mut t, "overflow-checks", opt_bool_value(self.overflow_checks));
        put_opt(&mut t, "incremental", opt_bool_value(self.incremental));
        put_opt(&mut t, "dir-name", opt_str_value(&self.dir_name));
        put_opt(&mut t, "inherits", opt_str_value(&self.inherits));
        put_opt(&mut t, "strip", opt_string_or_bool_value(&self.strip));
        let rustflags = match &self.rustflags {
            Some(v) => Some(ConfigValue::Array(crate::shapes::strings_to_values(v))),
            None => None,
        };
        put_opt(&mut t, "rustflags", rustflags);
        let trim_paths = match &self.trim_paths {
            Some(x) => Some(x.encode()),
            None => None,
        };
        put_opt(&mut t, "trim-paths", trim_paths);
        let package = match &self.package {
            Some(ps) => {
                let mut pt: Vec<(String, ConfigValue)> = Vec::new();
                let mut i: usize = 0;
                while i < ps.len()
                    invariant
                        0 <= i <= ps@.len(),
                        decreases_to!(self => *ps),
                    decreases ps@.len() - i,
                {
                    proof {
                        assert(decreases_to!(*ps => ps@[i as int].1));
                    }
                    let key = ps[i].0.to_text();
                    let val = ps[i].1.encode();
                    pt.push((key, val));
                    i = i + 1;
                }
                Some(ConfigValue::Table(pt))
            },
            None => None,
        };
        put_opt(&mut t, "package", package);
        let build_override = match &self.build_override {
            Some(b) => Some(b.encode()),
            None => None,
        };
        put_opt(&mut t, "build-override", build_override);
        ConfigValue::Table(t)
    }
}

/// Encoding a profile, then decoding the table, gives back every setting
/// (the optimization level as present or not) and the same nested overrides
/// present.
pub proof fn lemma_profile_round_trip(p: TomlProfile, t: Seq<(String, ConfigValue)>, q: TomlProfile)
    requires
        encoded_profile(p, t),
        profile_fields_of(q, t),
    ensures
        q.opt_level is Some <==> p.opt_level is Some,
        q.lto == p.lto && q.codegen_backend == p.codegen_backend && q.codegen_units == p.codegen_units,
        q.debug == p.debug && q.split_debuginfo == p.split_debuginfo,
        q.debug_assertions == p.debug_assertions && q.rpath == p.rpath && q.panic == p.panic,
        q.overflow_checks == p.overflow_checks && q.incremental == p.incremental,
        q.dir_name == p.dir_name && q.inherits == p.inherits && q.strip == p.strip,
        opt_seq(q.rustflags) == opt_seq(p.rustflags),
        profile_view(q).trim_paths == profile_view(p).trim_paths,
        q.package is Some <==> p.package is Some,
        q.build_override is Some <==> p.build_override is Some,
{
}

} // verus!
