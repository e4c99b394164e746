//! Typed model of a package build manifest, decoded from a generic
//! configuration tree, with workspace inheritance and profile merging.

pub mod dependency;
pub mod fields;
pub mod inherit;
pub mod lints;
pub mod manifest;
pub mod profile;
pub mod rust_version;
pub mod semver_field;
pub mod shapes;
pub mod target;
pub mod trim_paths;
pub mod value;
