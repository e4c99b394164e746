use manifest_schema::dependency::{InheritableDependency, TomlDependency, TomlDetailedDependency};
use manifest_schema::inherit::{
    InheritableBtreeMap, InheritableField, InheritableString, InheritableStringOrBool,
    InheritableVecString, InheritableVecStringOrBool, TomlInheritedField,
};
use manifest_schema::lints::{InheritableLints, TomlLint, TomlLintLevel};
use manifest_schema::profile::{ProfilePackageSpec, TomlDebugInfo, TomlOptLevel};
use manifest_schema::rust_version::RustVersion;
use manifest_schema::semver_field::{InheritableRustVersion, InheritableSemverVersion};
use manifest_schema::shapes::{StringOrBool, StringOrVec, VecStringOrBool};
use manifest_schema::target::{InvalidCargoFeatures, PathValue};
use manifest_schema::trim_paths::{TomlTrimPaths, TomlTrimPathsValue};
use manifest_schema::value::{ConfigValue, DecodeError};

fn s(x: &str) -> ConfigValue {
    ConfigValue::Str(x.to_string())
}

fn table(entries: Vec<(&str, ConfigValue)>) -> ConfigValue {
    ConfigValue::Table(entries.into_iter().map(|(k, v)| (k.to_string(), v)).collect())
}

fn ws(b: bool) -> ConfigValue {
    table(vec![("workspace", ConfigValue::Bool(b))])
}

#[test]
fn dependency_string_is_simple() {
    for v in ["1.0", "^0.9.8", "*", ""] {
        let d = TomlDependency::decode(s(v)).unwrap();
        assert_eq!(d, TomlDependency::Simple(v.to_string()));
        assert!(d.is_version_specified());
        assert!(!d.is_optional());
        assert!(!d.is_public());
        assert!(d.unused_keys().is_empty());
    }
}

#[test]
fn dependency_version_only_table() {
    let d = TomlDependency::decode(table(vec![("version", s("0.9.8"))])).unwrap();
    let expected = TomlDetailedDependency { version: Some("0.9.8".to_string()), ..Default::default() };
    assert_eq!(d, TomlDependency::Detailed(expected));
    assert!(d.is_version_specified());
}

#[test]
fn dependency_path_only_has_no_version() {
    let d = TomlDependency::decode(table(vec![("path", s("../foo"))])).unwrap();
    assert!(!d.is_version_specified());
}

#[test]
fn dependency_unrecognized_keys_are_kept() {
    let d = TomlDependency::decode(table(vec![
        ("version", s("1")),
        ("frobnicate", ConfigValue::Bool(true)),
        ("optional", ConfigValue::Bool(true)),
        ("zzz", ConfigValue::Int(3)),
    ]))
    .unwrap();
    assert_eq!(d.unused_keys(), vec!["frobnicate".to_string(), "zzz".to_string()]);
    assert!(d.is_optional());
    match d {
        TomlDependency::Detailed(x) => {
            assert_eq!(x._unused_keys[1], ("zzz".to_string(), ConfigValue::Int(3)));
        }
        _ => panic!("expected a detailed dependency"),
    }
}

#[test]
fn dependency_field_of_wrong_shape_fails() {
    let r = TomlDependency::decode(table(vec![("version", ConfigValue::Int(1))]));
    assert!(matches!(r, Err(DecodeError::ShapeMismatch(_))));
    let r = TomlDependency::decode(ConfigValue::Bool(true));
    assert!(matches!(r, Err(DecodeError::ShapeMismatch(_))));
}

#[test]
fn default_features_prefers_the_canonical_spelling() {
    let d = TomlDetailedDependency::decode(vec![
        ("default-features".to_string(), ConfigValue::Bool(false)),
        ("default_features".to_string(), ConfigValue::Bool(true)),
    ])
    .unwrap();
    assert_eq!(d.default_features(), Some(false));
    let d = TomlDetailedDependency::decode(vec![("default_features".to_string(), ConfigValue::Bool(true))]).unwrap();
    assert_eq!(d.default_features(), Some(true));
}

#[test]
fn detailed_dependency_round_trip() {
    let d = TomlDetailedDependency {
        version: Some("1.2".to_string()),
        git: Some("https://example.com/repo".to_string()),
        branch: Some("main".to_string()),
        features: Some(vec!["a".to_string(), "b".to_string()]),
        optional: Some(true),
        default_features: Some(false),
        package: Some("real-name".to_string()),
        artifact: Some(StringOrVec(vec!["bin".to_string()])),
        lib: Some(true),
        target: Some("x86_64-unknown-linux-gnu".to_string()),
        ..Default::default()
    };
    let encoded = d.encode();
    match &encoded {
        ConfigValue::Table(t) => {
            assert_eq!(t[0], ("version".to_string(), s("1.2")));
            assert_eq!(t.len(), 10);
        }
        _ => panic!("expected a table"),
    }
    match encoded {
        ConfigValue::Table(t) => assert_eq!(TomlDetailedDependency::decode(t).unwrap(), d),
        _ => panic!("expected a table"),
    }
}

#[test]
fn inheritable_dependency_forms() {
    let r = InheritableDependency::decode(table(vec![
        ("workspace", ConfigValue::Bool(true)),
        ("features", ConfigValue::Array(vec![s("x")])),
        ("optional", ConfigValue::Bool(true)),
        ("extra", s("y")),
    ]))
    .unwrap();
    match &r {
        InheritableDependency::Inherit(w) => {
            assert!(w.workspace);
            assert_eq!(w.features, Some(vec!["x".to_string()]));
            assert_eq!(w.optional, Some(true));
            assert_eq!(w.default_features(), None);
        }
        _ => panic!("expected an inherited dependency"),
    }
    assert_eq!(r.unused_keys(), vec!["extra".to_string()]);
    let r = InheritableDependency::decode(ws(false));
    assert!(matches!(r, Err(DecodeError::InheritanceConflict(_))));
    let r = InheritableDependency::decode(s("1.0")).unwrap();
    assert_eq!(r, InheritableDependency::Value(TomlDependency::Simple("1.0".to_string())));
}

#[test]
fn workspace_true_inherits_for_every_type() {
    assert!(matches!(InheritableString::decode(&ws(true)), Ok(InheritableField::Inherit(_))));
    assert!(matches!(InheritableVecString::decode(&ws(true)), Ok(InheritableField::Inherit(_))));
    assert!(matches!(InheritableStringOrBool::decode(&ws(true)), Ok(InheritableField::Inherit(_))));
    assert!(matches!(InheritableVecStringOrBool::decode(&ws(true)), Ok(InheritableField::Inherit(_))));
    assert!(matches!(InheritableBtreeMap::decode(&ws(true)), Ok(InheritableField::Inherit(_))));
    assert!(matches!(InheritableRustVersion::decode(&ws(true)), Ok(InheritableField::Inherit(_))));
    assert!(matches!(InheritableSemverVersion::decode(&ws(true)), Ok(InheritableField::Inherit(_))));
}

#[test]
fn workspace_false_fails_for_every_type() {
    fn conflict<T>(r: Result<T, DecodeError>) -> bool {
        matches!(r, Err(DecodeError::InheritanceConflict(_)))
    }
    assert!(conflict(InheritableString::decode(&ws(false))));
    assert!(conflict(InheritableVecString::decode(&ws(false))));
    assert!(conflict(InheritableStringOrBool::decode(&ws(false))));
    assert!(conflict(InheritableVecStringOrBool::decode(&ws(false))));
    assert!(conflict(InheritableBtreeMap::decode(&ws(false))));
    assert!(conflict(InheritableRustVersion::decode(&ws(false))));
    assert!(conflict(InheritableSemverVersion::decode(&ws(false))));
}

#[test]
fn workspace_beside_other_keys_is_a_conflict() {
    let v = table(vec![("workspace", ConfigValue::Bool(true)), ("other", s("x"))]);
    assert!(matches!(InheritableString::decode(&v), Err(DecodeError::InheritanceConflict(_))));
}

#[test]
fn inheritable_values_decode_by_shape() {
    assert_eq!(InheritableString::decode(&s("MIT")).unwrap(), InheritableField::Value("MIT".to_string()));
    assert!(matches!(InheritableString::decode(&ConfigValue::Int(1)), Err(DecodeError::ShapeMismatch(_))));
    assert_eq!(
        InheritableVecString::decode(&ConfigValue::Array(vec![s("a"), s("b")])).unwrap(),
        InheritableField::Value(vec!["a".to_string(), "b".to_string()])
    );
    assert_eq!(
        InheritableStringOrBool::decode(&ConfigValue::Bool(false)).unwrap(),
        InheritableField::Value(StringOrBool::Bool(false))
    );
    assert_eq!(
        InheritableVecStringOrBool::decode(&ConfigValue::Bool(true)).unwrap(),
        InheritableField::Value(VecStringOrBool::Bool(true))
    );
    assert!(matches!(InheritableVecStringOrBool::decode(&s("x")), Err(DecodeError::ShapeMismatch(_))));
    let badges = table(vec![("ci", table(vec![("service", s("github"))]))]);
    assert_eq!(
        InheritableBtreeMap::decode(&badges).unwrap(),
        InheritableField::Value(vec![("ci".to_string(), vec![("service".to_string(), "github".to_string())])])
    );
}

#[test]
fn resolve_uses_the_workspace_value() {
    let own: InheritableString = InheritableField::Value("own".to_string());
    assert_eq!(own.resolve("license", Some("ws".to_string())).unwrap(), "own");
    let inherited: InheritableString = InheritableField::Inherit(TomlInheritedField::new());
    assert_eq!(inherited.as_value(), None);
    assert_eq!(inherited.clone().resolve("license", Some("ws".to_string())).unwrap(), "ws");
    let r = inherited.resolve("license", None);
    assert_eq!(r, Err(DecodeError::MissingWorkspaceDefault("license".to_string())));
}

#[test]
fn opt_level_shapes() {
    for n in 0..4 {
        let o = TomlOptLevel::decode(&ConfigValue::Int(n)).unwrap();
        assert_eq!(o, TomlOptLevel(n.to_string()));
        assert_eq!(o.encode(), ConfigValue::Int(n));
    }
    assert_eq!(TomlOptLevel::decode(&s("s")).unwrap(), TomlOptLevel("s".to_string()));
    assert_eq!(TomlOptLevel::decode(&s("z")).unwrap().encode(), s("z"));
    assert!(matches!(TomlOptLevel::decode(&s("4")), Err(DecodeError::ShapeMismatch(_))));
    assert!(matches!(TomlOptLevel::decode(&s("fast")), Err(DecodeError::ShapeMismatch(_))));
    assert!(matches!(TomlOptLevel::decode(&ConfigValue::Bool(true)), Err(DecodeError::ShapeMismatch(_))));
    assert_eq!(TomlOptLevel::decode(&ConfigValue::Int(-12)).unwrap(), TomlOptLevel("-12".to_string()));
}

#[test]
fn debug_info_shapes() {
    assert_eq!(TomlDebugInfo::decode(&ConfigValue::Bool(true)).unwrap(), TomlDebugInfo::Full);
    assert_eq!(TomlDebugInfo::decode(&ConfigValue::Bool(false)).unwrap(), TomlDebugInfo::Off);
    assert_eq!(TomlDebugInfo::decode(&ConfigValue::Int(0)).unwrap(), TomlDebugInfo::Off);
    assert_eq!(TomlDebugInfo::decode(&ConfigValue::Int(1)).unwrap(), TomlDebugInfo::Limited);
    assert_eq!(TomlDebugInfo::decode(&ConfigValue::Int(2)).unwrap(), TomlDebugInfo::Full);
    assert_eq!(TomlDebugInfo::decode(&s("line-tables-only")).unwrap(), TomlDebugInfo::LineTablesOnly);
    assert_eq!(TomlDebugInfo::decode(&s("line-directives-only")).unwrap(), TomlDebugInfo::LineDirectivesOnly);
    assert_eq!(TomlDebugInfo::decode(&s("limited")).unwrap(), TomlDebugInfo::Limited);
    assert!(matches!(TomlDebugInfo::decode(&ConfigValue::Int(3)), Err(DecodeError::InvalidValue(_))));
    assert!(matches!(TomlDebugInfo::decode(&s("lots")), Err(DecodeError::InvalidValue(_))));
    assert!(matches!(TomlDebugInfo::decode(&ConfigValue::Array(vec![])), Err(DecodeError::ShapeMismatch(_))));
    assert_eq!(TomlDebugInfo::Full.encode(), ConfigValue::Int(2));
    assert_eq!(TomlDebugInfo::Off.encode(), ConfigValue::Int(0));
    assert_eq!(TomlDebugInfo::LineTablesOnly.encode(), s("line-tables-only"));
    assert_eq!(TomlDebugInfo::Full.to_text(), "2");
    assert_eq!(TomlDebugInfo::LineDirectivesOnly.to_text(), "line-directives-only");
}

#[test]
fn trim_paths_shapes() {
    let none = TomlTrimPaths::none();
    assert!(none.is_none());
    assert_eq!(TomlTrimPaths::decode(&ConfigValue::Bool(false)).unwrap(), none);
    assert_eq!(TomlTrimPaths::decode(&s("none")).unwrap(), none);
    assert_eq!(TomlTrimPaths::decode(&ConfigValue::Array(vec![])).unwrap(), none);
    assert_eq!(TomlTrimPaths::decode(&ConfigValue::Bool(true)).unwrap(), TomlTrimPaths::All);
    assert_eq!(TomlTrimPaths::decode(&s("all")).unwrap(), TomlTrimPaths::All);
    assert!(!TomlTrimPaths::All.is_none());
    assert_eq!(
        TomlTrimPaths::decode(&s("diagnostics")).unwrap(),
        TomlTrimPaths::Values(vec![TomlTrimPathsValue::Diagnostics])
    );
    let two = TomlTrimPaths::decode(&ConfigValue::Array(vec![s("macro"), s("object")])).unwrap();
    assert_eq!(two, TomlTrimPaths::Values(vec![TomlTrimPathsValue::Macro, TomlTrimPathsValue::Object]));
    assert_eq!(two, TomlTrimPaths::Values(vec![TomlTrimPathsValue::Object, TomlTrimPathsValue::Macro]));
    assert_ne!(two, TomlTrimPaths::Values(vec![TomlTrimPathsValue::Object]));
    assert_eq!(two.to_text(), "macro,object");
    assert_eq!(TomlTrimPaths::All.to_text(), "all");
    assert_eq!(none.to_text(), "none");
    assert_eq!(TomlTrimPathsValue::Object.as_str(), "object");
    assert!(matches!(TomlTrimPaths::decode(&s("some")), Err(DecodeError::InvalidValue(_))));
    assert!(matches!(
        TomlTrimPaths::decode(&ConfigValue::Array(vec![s("macro"), s("bogus")])),
        Err(DecodeError::InvalidValue(_))
    ));
    assert!(matches!(TomlTrimPaths::decode(&ConfigValue::Int(1)), Err(DecodeError::ShapeMismatch(_))));
}

#[test]
fn rust_version_partial() {
    let v = RustVersion::parse("1.32").unwrap();
    assert_eq!(v, RustVersion { major: 1, minor: Some(32), patch: None });
    assert_eq!(RustVersion::parse("1").unwrap(), RustVersion { major: 1, minor: None, patch: None });
    assert_eq!(RustVersion::parse("1.70.0").unwrap(), RustVersion { major: 1, minor: Some(70), patch: Some(0) });
    for bad in ["1.32-beta", "1.32+build", "", "1.", ".1", "1.2.3.4", "01.2", "a.b", "1.32.0-nightly", "18446744073709551616"] {
        assert!(matches!(RustVersion::parse(bad), Err(DecodeError::InvalidVersionFormat(_))), "{bad}");
    }
    assert_eq!(
        RustVersion::parse("18446744073709551615").unwrap().major,
        18446744073709551615
    );
    assert!(matches!(RustVersion::decode(&ConfigValue::Int(1)), Err(DecodeError::ShapeMismatch(_))));
}

#[test]
fn semver_version_field() {
    match InheritableSemverVersion::decode(&s(" 1.2.3 ")).unwrap() {
        InheritableField::Value(v) => assert_eq!(v, semver::Version::new(1, 2, 3)),
        _ => panic!("expected a version"),
    }
    assert!(matches!(InheritableSemverVersion::decode(&s("1.2")), Err(DecodeError::InvalidVersionFormat(_))));
    assert!(matches!(InheritableSemverVersion::decode(&s("")), Err(DecodeError::InvalidVersionFormat(_))));
}

#[test]
fn lint_forms() {
    let l = TomlLint::decode(&s("deny")).unwrap();
    assert_eq!(l.level(), TomlLintLevel::Deny);
    assert_eq!(l.priority(), 0);
    let l = TomlLint::decode(&table(vec![("level", s("warn")), ("priority", ConfigValue::Int(-1))])).unwrap();
    assert_eq!(l.level(), TomlLintLevel::Warn);
    assert_eq!(l.priority(), -1);
    let l = TomlLint::decode(&table(vec![("level", s("allow"))])).unwrap();
    assert_eq!(l.priority(), 0);
    assert!(TomlLint::decode(&s("loud")).is_err());
    assert!(TomlLint::decode(&table(vec![("level", s("warn")), ("priority", ConfigValue::Int(300))])).is_err());
    let lints = InheritableLints::decode(&table(vec![
        ("workspace", ConfigValue::Bool(true)),
        ("rust", table(vec![("unsafe_code", s("forbid"))])),
    ]))
    .unwrap();
    assert!(lints.workspace);
    assert_eq!(lints.lints.len(), 1);
    assert_eq!(lints.lints[0].1[0].1.level(), TomlLintLevel::Forbid);
    assert!(matches!(InheritableLints::decode(&ws(false)), Err(DecodeError::InheritanceConflict(_))));
}

#[test]
fn small_shapes() {
    assert_eq!(StringOrVec::decode(&s("a")).unwrap(), StringOrVec(vec!["a".to_string()]));
    let v = StringOrVec::decode(&ConfigValue::Array(vec![s("a"), s("b")])).unwrap();
    assert_eq!(v.iter().cloned().collect::<Vec<_>>(), vec!["a".to_string(), "b".to_string()]);
    assert!(StringOrVec::decode(&ConfigValue::Array(vec![ConfigValue::Int(1)])).is_err());
    assert_eq!(StringOrBool::decode(&s("x")).unwrap(), StringOrBool::String("x".to_string()));
    assert!(StringOrBool::decode(&ConfigValue::Int(1)).is_err());
    assert_eq!(PathValue::decode(&s("src/lib.rs")).unwrap(), PathValue("src/lib.rs".to_string()));
    assert!(matches!(InvalidCargoFeatures::decode(&s("x")), Err(DecodeError::ReservedFieldMisuse(_))));
    assert_eq!(ProfilePackageSpec::decode(&s("*")).unwrap(), ProfilePackageSpec::All);
    assert_eq!(ProfilePackageSpec::decode(&s("foo")).unwrap(), ProfilePackageSpec::Spec("foo".to_string()));
    assert_eq!(ProfilePackageSpec::All.to_text(), "*");
}

fn message(e: DecodeError) -> String {
    match e {
        DecodeError::ShapeMismatch(m)
        | DecodeError::InvalidValue(m)
        | DecodeError::InheritanceConflict(m)
        | DecodeError::MissingWorkspaceDefault(m)
        | DecodeError::InvalidVersionFormat(m)
        | DecodeError::ReservedFieldMisuse(m) => m,
    }
}

#[test]
fn error_messages_name_what_is_accepted() {
    let wf = "`workspace` cannot be false";
    assert_eq!(message(InheritableString::decode(&ws(false)).unwrap_err()), wf);
    assert_eq!(message(InheritableRustVersion::decode(&ws(false)).unwrap_err()), wf);
    assert_eq!(message(InheritableBtreeMap::decode(&ws(false)).unwrap_err()), wf);
    assert_eq!(message(InheritableDependency::decode(ws(false)).unwrap_err()), wf);
    assert_eq!(
        message(InheritableStringOrBool::decode(&ConfigValue::Int(1)).unwrap_err()),
        "a string, a bool, or workspace"
    );
    assert_eq!(
        message(TomlOptLevel::decode(&s("4")).unwrap_err()),
        "must be `0`, `1`, `2`, `3`, `s` or `z`, but found the string: \"4\""
    );
    assert_eq!(
        message(TomlOptLevel::decode(&s("fast")).unwrap_err()),
        "must be `0`, `1`, `2`, `3`, `s` or `z`, but found the string: \"fast\""
    );
    assert_eq!(
        message(TomlDependency::decode(ConfigValue::Int(5)).unwrap_err()),
        "a version string like \"0.9.8\" or a detailed dependency like { version = \"0.9.8\" }"
    );
    assert_eq!(
        message(TomlDebugInfo::decode(&ConfigValue::Int(3)).unwrap_err()),
        "a boolean, 0, 1, 2, \"line-tables-only\", or \"line-directives-only\""
    );
    assert_eq!(
        message(InvalidCargoFeatures::decode(&s("x")).unwrap_err()),
        "the field `cargo-features` should be set at the top of Cargo.toml before any tables"
    );
    let other = table(vec![("workspace", ConfigValue::Bool(true)), ("x", s("y"))]);
    assert_eq!(
        message(InheritableString::decode(&other).unwrap_err()),
        "`workspace` cannot be combined with other keys"
    );
}

#[test]
fn negative_opt_level_re_encodes_as_integer() {
    let o = TomlOptLevel::decode(&ConfigValue::Int(-1)).unwrap();
    assert_eq!(o.encode(), ConfigValue::Int(-1));
    assert_eq!(TomlOptLevel("+2".to_string()).encode(), ConfigValue::Int(2));
}

#[test]
fn lints_keep_every_tool_in_order() {
    let lints = InheritableLints::decode(&table(vec![
        ("rust", table(vec![("unsafe_code", s("forbid")), ("dead_code", s("allow"))])),
        ("clippy", table(vec![("all", table(vec![("level", s("warn")), ("priority", ConfigValue::Int(-1))]))])),
    ]))
    .unwrap();
    assert!(!lints.workspace);
    assert_eq!(lints.lints.len(), 2);
    assert_eq!(lints.lints[0].0, "rust");
    assert_eq!(lints.lints[0].1.len(), 2);
    assert_eq!(lints.lints[0].1[1].0, "dead_code");
    assert_eq!(lints.lints[1].0, "clippy");
    assert_eq!(lints.lints[1].1[0].1.priority(), -1);
}

#[test]
fn encoders_decode_back() {
    let l = TomlLint::decode(&table(vec![("level", s("deny")), ("priority", ConfigValue::Int(5))])).unwrap();
    assert_eq!(TomlLint::decode(&l.encode()).unwrap(), l);
    assert_eq!(TomlLint::Level(TomlLintLevel::Warn).encode(), s("warn"));
    assert_eq!(TomlLintLevel::Forbid.as_str(), "forbid");
    let t = TomlTrimPaths::Values(vec![TomlTrimPathsValue::Object, TomlTrimPathsValue::Macro]);
    assert_eq!(t.encode(), ConfigValue::Array(vec![s("object"), s("macro")]));
    assert_eq!(TomlTrimPaths::decode(&t.encode()).unwrap(), t);
    assert_eq!(TomlTrimPaths::decode(&TomlTrimPaths::All.encode()).unwrap(), TomlTrimPaths::All);
    let v: InheritableString = InheritableField::Value("MIT".to_string());
    assert_eq!(v.encode(), s("MIT"));
    let i: InheritableString = InheritableField::Inherit(TomlInheritedField::new());
    assert_eq!(i.encode(), ws(true));
    assert!(matches!(InheritableString::decode(&i.encode()), Ok(InheritableField::Inherit(_))));
    let b: InheritableStringOrBool = InheritableField::Value(StringOrBool::Bool(false));
    assert_eq!(b.encode(), ConfigValue::Bool(false));
    let vs: InheritableVecString = InheritableField::Value(vec!["a".to_string()]);
    assert_eq!(vs.encode(), ConfigValue::Array(vec![s("a")]));
    assert_eq!(RustVersion::parse("1.32").unwrap().encode(), s("1.32"));
}

#[test]
fn unused_keys_are_sorted_without_repeats() {
    let d = TomlDependency::decode(ConfigValue::Table(vec![
        ("b".to_string(), ConfigValue::Int(1)),
        ("version".to_string(), s("1")),
        ("a".to_string(), ConfigValue::Int(2)),
        ("b".to_string(), ConfigValue::Int(3)),
        ("Z".to_string(), ConfigValue::Int(4)),
        ("ab".to_string(), ConfigValue::Int(5)),
    ]))
    .unwrap();
    assert_eq!(
        d.unused_keys(),
        vec!["Z".to_string(), "a".to_string(), "ab".to_string(), "b".to_string()]
    );
    let w = InheritableDependency::decode(table(vec![
        ("workspace", ConfigValue::Bool(true)),
        ("zeta", ConfigValue::Int(1)),
        ("alpha", ConfigValue::Int(1)),
    ]))
    .unwrap();
    assert_eq!(w.unused_keys(), vec!["alpha".to_string(), "zeta".to_string()]);
}
