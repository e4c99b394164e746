//! The manifest as a whole: package, workspace, targets, dependencies,
//! profiles and lints. Fields with a legacy alias have an accessor under the
//! canonical name that prefers the canonical spelling.

use vstd::prelude::*;

use crate::dependency::{InheritableDependency, TomlDependency};
use crate::inherit::{
    InheritableBtreeMap, InheritableString, InheritableStringOrBool, InheritableVecString,
    InheritableVecStringOrBool,
};
use crate::lints::{InheritableLints, TomlLints};
use crate::profile::TomlProfiles;
use crate::rust_version::RustVersion;
use crate::semver_field::{InheritableRustVersion, InheritableSemverVersion};
use crate::shapes::{StringOrBool, StringOrVec, VecStringOrBool};
use crate::target::{InvalidCargoFeatures, TomlTarget};
use crate::value::ConfigValue;

verus! {

/// Dependencies by name, in document order.
pub type DependencyTable = Vec<(String, InheritableDependency)>;

/// A decoded manifest.
#[derive(Debug, Default)]
pub struct TomlManifest {
    pub cargo_features: Option<Vec<String>>,
    pub package: Option<Box<TomlPackage>>,
    /// The legacy name of `package`.
    pub project: Option<Box<TomlPackage>>,
    pub profile: Option<TomlProfiles>,
    pub lib: Option<TomlTarget>,
    pub bin: Option<Vec<TomlTarget>>,
    pub example: Option<Vec<TomlTarget>>,
    pub test: Option<Vec<TomlTarget>>,
    pub bench: Option<Vec<TomlTarget>>,
    pub dependencies: Option<DependencyTable>,
    pub dev_dependencies: Option<DependencyTable>,
    /// The legacy spelling `dev_dependencies`.
    pub dev_dependencies2: Option<DependencyTable>,
    pub build_dependencies: Option<DependencyTable>,
    /// The legacy spelling `build_dependencies`.
    pub build_dependencies2: Option<DependencyTable>,
    pub features: Option<Vec<(String, Vec<String>)>>,
    pub target: Option<Vec<(String, TomlPlatform)>>,
    pub replace: Option<Vec<(String, TomlDependency)>>,
    pub patch: Option<Vec<(String, Vec<(String, TomlDependency)>)>>,
    pub workspace: Option<TomlWorkspace>,
    pub badges: Option<InheritableBtreeMap>,
    pub lints: Option<InheritableLints>,
}

/// The `workspace` table of a manifest.
#[derive(Debug)]
pub struct TomlWorkspace {
    pub members: Option<Vec<String>>,
    pub exclude: Option<Vec<String>>,
    pub default_members: Option<Vec<String>>,
    pub resolver: Option<String>,
    pub metadata: Option<ConfigValue>,
    /// Values that members can inherit.
    pub package: Option<InheritablePackage>,
    pub dependencies: Option<Vec<(String, TomlDependency)>>,
    pub lints: Option<TomlLints>,
}

/// The package fields that members of a workspace can inherit.
#[derive(Debug, Default)]
pub struct InheritablePackage {
    pub version: Option<semver::Version>,
    pub authors: Option<Vec<String>>,
    pub description: Option<String>,
    pub homepage: Option<String>,
    pub documentation: Option<String>,
    pub readme: Option<StringOrBool>,
    pub keywords: Option<Vec<String>>,
    pub categories: Option<Vec<String>>,
    pub license: Option<String>,
    pub license_file: Option<String>,
    pub repository: Option<String>,
    pub publish: Option<VecStringOrBool>,
    pub edition: Option<String>,
    pub badges: Option<Vec<(String, Vec<(String, String)>)>>,
    pub exclude: Option<Vec<String>>,
    /// The files to package.
    pub include_paths: Option<Vec<String>>,
    pub rust_version: Option<RustVersion>,
}

/// The `package` table of a manifest. Scalar fields come before the
/// table-valued `metadata`, the order in which they are written.
#[derive(Debug)]
pub struct TomlPackage {
    pub edition: Option<InheritableString>,
    pub rust_version: Option<InheritableRustVersion>,
    pub name: String,
    pub version: Option<InheritableSemverVersion>,
    pub authors: Option<InheritableVecString>,
    pub build: Option<StringOrBool>,
    pub metabuild: Option<StringOrVec>,
    pub default_target: Option<String>,
    pub forced_target: Option<String>,
    pub links: Option<String>,
    pub exclude: Option<InheritableVecString>,
    /// The files to package.
    pub include_paths: Option<InheritableVecString>,
    pub publish: Option<InheritableVecStringOrBool>,
    pub workspace: Option<String>,
    pub im_a_teapot: Option<bool>,
    pub autobins: Option<bool>,
    pub autoexamples: Option<bool>,
    pub autotests: Option<bool>,
    pub autobenches: Option<bool>,
    pub default_run: Option<String>,
    pub description: Option<InheritableString>,
    pub homepage: Option<InheritableString>,
    pub documentation: Option<InheritableString>,
    pub readme: Option<InheritableStringOrBool>,
    pub keywords: Option<InheritableVecString>,
    pub categories: Option<InheritableVecString>,
    pub license: Option<InheritableString>,
    pub license_file: Option<InheritableString>,
    pub repository: Option<InheritableString>,
    pub resolver: Option<String>,
    pub metadata: Option<ConfigValue>,
    /// Set where `cargo-features` was found inside the package table.
    pub _invalid_cargo_features: Option<InvalidCargoFeatures>,
}

/// A `target.<cfg>` table: dependencies for one platform.
#[derive(Debug, Default)]
pub struct TomlPlatform {
    pub dependencies: Option<DependencyTable>,
    pub build_dependencies: Option<DependencyTable>,
    /// The legacy spelling `build_dependencies`.
    pub build_dependencies2: Option<DependencyTable>,
    pub dev_dependencies: Option<DependencyTable>,
    /// The legacy spelling `dev_dependencies`.
    pub dev_dependencies2: Option<DependencyTable>,
}

/// The first of two optional slots that is set.
pub open spec fn first_set<T>(a: Option<T>, b: Option<T>) -> Option<T> {
    if a is Some {
        a
    } else {
        b
    }
}

/// A reference to what the first set slot holds.
fn first_set_ref<'a, T>(a: &'a Option<T>, b: &'a Option<T>) -> (r: Option<&'a T>)
    ensures
        match first_set(*a, *b) {
            Some(x) => (r matches Some(y) && *y == x),
            None => r is None,
        },
{
    match a {
        Some(x) => Some(x),
        None => match b {
            Some(y) => Some(y),
            None => None,
        },
    }
}

impl TomlManifest {
    /// Whether a profile table is present.
    pub fn has_profiles(&self) -> (r: bool)
        ensures
            r == self.profile is Some,
    {
        self.profile.is_some()
    }

    /// The package table: `package`, else the legacy `project`.
    pub fn package(&self) -> (r: Option<&Box<TomlPackage>>)
        ensures
            match first_set(self.package, self.project) {
                Some(x) => (r matches Some(y) && *y == x),
                None => r is None,
            },
    {
        first_set_ref(&self.package, &self.project)
    }

    /// The development dependencies: `dev-dependencies`, else the legacy spelling.
    pub fn dev_dependencies(&self) -> (r: Option<&DependencyTable>)
        ensures
            match first_set(self.dev_dependencies, self.dev_dependencies2) {
                Some(x) => (r matches Some(y) && *y == x),
                None => r is None,
            },
    {
        first_set_ref(&self.dev_dependencies, &self.dev_dependencies2)
    }

    /// The build dependencies: `build-dependencies`, else the legacy spelling.
    pub fn build_dependencies(&self) -> (r: Option<&DependencyTable>)
        ensures
            match first_set(self.build_dependencies, self.build_dependencies2) {
                Some(x) => (r matches Some(y) && *y == x),
                None => r is None,
            },
    {
        first_set_ref(&self.build_dependencies, &self.build_dependencies2)
    }

    /// The feature table.
    pub fn features(&self) -> (r: Option<&Vec<(String, Vec<String>)>>)
        ensures
            match self.features {
                Some(x) => (r matches Some(y) && *y == x),
                None => r is None,
            },
    {
        match &self.features {
            Some(f) => Some(f),
            None => None,
        }
    }
}

impl TomlPlatform {
    /// The development dependencies: `dev-dependencies`, else the legacy spelling.
    pub fn dev_dependencies(&self) -> (r: Option<&DependencyTable>)
        ensures
            match first_set(self.dev_dependencies, self.dev_dependencies2) {
                Some(x) => (r matches Some(y) && *y == x),
                None => r is None,
            },
    {
        first_set_ref(&self.dev_dependencies, &self.dev_dependencies2)
    }

    /// The build dependencies: `build-dependencies`, else the legacy spelling.
    pub fn build_dependencies(&self) -> (r: Option<&DependencyTable>)
        ensures
            match first_set(self.build_dependencies, self.build_dependencies2) {
                Some(x) => (r matches Some(y) && *y == x),
                None => r is None,
            },
    {
        first_set_ref(&self.build_dependencies, &self.build_dependencies2)
    }
}

} // verus!
