//! The package version field, a full semantic version read by `semver`.

use vstd::prelude::*;

use crate::inherit::{decode_marker, marker_result, marker_state, InheritableField};
use crate::rust_version::{RustVersion, RUST_VERSION_EXPECTING};
use crate::value::{shape_error, ConfigValue, DecodeError};

verus! {

#[verifier::external_type_specification]
#[verifier::external_body]
pub struct ExSemverVersion(semver::Version);

#[verifier::external_type_specification]
#[verifier::external_body]
pub struct ExSemverError(semver::Error);

/// Whether `semver::Version::parse` accepts a text.
pub uninterp spec fn semver_accepts(s: Seq<char>) -> bool;

/// What `str::trim` leaves of a text.
pub uninterp spec fn trimmed(s: Seq<char>) -> Seq<char>;

/// Relies on `semver::Version::parse`: whether it succeeds depends on the
/// text alone, and the empty text is refused.
#[verifier::external_body]
fn parse_semver(s: &str) -> (r: Result<semver::Version, semver::Error>)
    ensures
        r is Ok == semver_accepts(s@),
        s@.len() == 0 ==> r is Err,
{
    semver::Version::parse(s)
}

/// Relies on `Display` for `semver::Error`: the message of a parse error.
#[verifier::external_body]
fn semver_error_text(e: &semver::Error) -> (r: String) {
    e.to_string()
}

/// Relies on `str::trim`: the text without leading and trailing whitespace,
/// which depends on the text alone.
#[verifier::external_body]
fn trim_text(s: &str) -> (r: &str)
    ensures
        r@ == trimmed(s@),
{
    s.trim()
}

/// The message for a version field that is neither a string nor the marker.
pub const SEMVER_EXPECTING: &'static str = "SemVer version";

/// The message for a toolchain version field that is neither a string nor the marker.
pub const RUST_VERSION_OR_WORKSPACE: &'static str = "a semver or workspace";

/// A package version that may be inherited from the workspace.
pub type InheritableSemverVersion = InheritableField<semver::Version>;

/// A minimum toolchain version that may be inherited from the workspace.
pub type InheritableRustVersion = InheritableField<RustVersion>;

impl InheritableField<semver::Version> {
    /// Decodes a version string (surrounding whitespace ignored), or the
    /// inheritance marker.
    pub fn decode(v: &ConfigValue) -> (r: Result<InheritableSemverVersion, DecodeError>)
        ensures
            marker_result(*v, r),
            marker_state(*v) is NotMarker ==> match *v {
                ConfigValue::Str(s) => (r is Ok <==> semver_accepts(trimmed(s@))) && (r is Ok
                    ==> r->Ok_0 is Value) && (r is Err ==> r->Err_0 is InvalidVersionFormat),
                _ => (r matches Err(DecodeError::ShapeMismatch(m)) && m@ == SEMVER_EXPECTING@),
            },
    {
        match decode_marker(v) {
            Some(Ok(f)) => Ok(InheritableField::Inherit(f)),
            Some(Err(e)) => Err(e),
            None => match v {
                ConfigValue::Str(s) => match parse_semver(trim_text(s.as_str())) {
                    Ok(parsed) => Ok(InheritableField::Value(parsed)),
                    Err(e) => Err(DecodeError::InvalidVersionFormat(semver_error_text(&e))),
                },
                _ => Err(shape_error(SEMVER_EXPECTING)),
            },
        }
    }
}

impl InheritableField<RustVersion> {
    /// Decodes a minimum toolchain version, or the inheritance marker.
    pub fn decode(v: &ConfigValue) -> (r: Result<InheritableRustVersion, DecodeError>)
        ensures
            marker_result(*v, r),
            marker_state(*v) is NotMarker ==> match *v {
                ConfigValue::Str(s) => (r is Ok <==> crate::rust_version::rust_version_ok(s@))
                    && (r is Ok ==> r->Ok_0 == InheritableField::Value(crate::rust_version::rust_version_of(s@)))
                    && (r is Err ==> (r->Err_0 matches DecodeError::InvalidVersionFormat(m) && m@
                    == RUST_VERSION_EXPECTING@)),
                _ => (r matches Err(DecodeError::ShapeMismatch(m)) && m@ == RUST_VERSION_OR_WORKSPACE@),
            },
    {
        match decode_marker(v) {
            Some(Ok(f)) => Ok(InheritableField::Inherit(f)),
            Some(Err(e)) => Err(e),
            None => match v {
                ConfigValue::Str(s) => match RustVersion::parse(s.as_str()) {
                    Ok(x) => Ok(InheritableField::Value(x)),
                    Err(e) => Err(e),
                },
                _ => Err(shape_error(RUST_VERSION_OR_WORKSPACE)),
            },
        }
    }
}

} // verus!
