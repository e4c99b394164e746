use manifest_schema::dependency::{InheritableDependency, TomlDependency};
use manifest_schema::inherit::{InheritableField, TomlInheritedField};
use manifest_schema::manifest::{TomlManifest, TomlPlatform};
use manifest_schema::profile::TomlProfiles;
use manifest_schema::rust_version::RustVersion;
use manifest_schema::target::{PathValue, TomlTarget};
use manifest_schema::trim_paths::{TomlTrimPaths, TomlTrimPathsValue};
use manifest_schema::value::{ConfigValue, DecodeError};

fn s(x: &str) -> ConfigValue {
    ConfigValue::Str(x.to_string())
}

fn dep(v: &str) -> InheritableDependency {
    InheritableDependency::Value(TomlDependency::Simple(v.to_string()))
}

#[test]
fn manifest_alias_accessors() {
    let mut m = TomlManifest::default();
    assert!(!m.has_profiles());
    assert!(m.package().is_none());
    assert!(m.dev_dependencies().is_none());
    m.dev_dependencies2 = Some(vec![("a".to_string(), dep("1"))]);
    assert_eq!(m.dev_dependencies().unwrap()[0].0, "a");
    m.dev_dependencies = Some(vec![("b".to_string(), dep("2"))]);
    assert_eq!(m.dev_dependencies().unwrap()[0].0, "b");
    m.build_dependencies2 = Some(vec![("c".to_string(), dep("3"))]);
    assert_eq!(m.build_dependencies().unwrap()[0].0, "c");
    m.profile = Some(TomlProfiles::default());
    assert!(m.has_profiles());
    m.features = Some(vec![("default".to_string(), vec!["std".to_string()])]);
    assert_eq!(m.features().unwrap()[0].1, vec!["std".to_string()]);
}

#[test]
fn platform_alias_accessors() {
    let mut p = TomlPlatform::default();
    assert!(p.build_dependencies().is_none());
    p.build_dependencies2 = Some(vec![("x".to_string(), dep("1"))]);
    p.dev_dependencies2 = Some(vec![("y".to_string(), dep("1"))]);
    assert_eq!(p.build_dependencies().unwrap()[0].0, "x");
    assert_eq!(p.dev_dependencies().unwrap()[0].0, "y");
}

#[test]
fn target_table_decodes() {
    let t = ConfigValue::Table(vec![
        ("name".to_string(), s("app")),
        ("path".to_string(), s("src/main.rs")),
        ("crate_type".to_string(), ConfigValue::Array(vec![s("proc-macro")])),
        ("test".to_string(), ConfigValue::Bool(false)),
        ("unknown".to_string(), ConfigValue::Int(1)),
    ]);
    let g = TomlTarget::decode(&t).unwrap();
    assert_eq!(g.name, Some("app".to_string()));
    assert_eq!(g.path, Some(PathValue("src/main.rs".to_string())));
    assert_eq!(g.test, Some(false));
    assert_eq!(g.proc_macro(), Some(true));
    assert_eq!(g.path.as_ref().unwrap().encode(), s("src/main.rs"));
    let bad = ConfigValue::Table(vec![("test".to_string(), s("yes"))]);
    assert!(matches!(TomlTarget::decode(&bad), Err(DecodeError::ShapeMismatch(_))));
    assert!(matches!(TomlTarget::decode(&s("x")), Err(DecodeError::ShapeMismatch(_))));
}

#[test]
fn rust_version_text() {
    assert_eq!(RustVersion::parse("1.32").unwrap().to_text(), "1.32");
    assert_eq!(RustVersion::parse("1.70.0").unwrap().to_text(), "1.70.0");
    assert_eq!(RustVersion::parse("2").unwrap().to_text(), "2");
}

#[test]
fn trim_paths_constructors() {
    assert_eq!(
        TomlTrimPaths::of_value(TomlTrimPathsValue::Macro),
        TomlTrimPaths::Values(vec![TomlTrimPathsValue::Macro])
    );
    let v: TomlTrimPaths = vec![TomlTrimPathsValue::Diagnostics].into();
    assert_eq!(v.to_text(), "diagnostics");
}

#[test]
fn inherited_marker_default() {
    let f = TomlInheritedField::default();
    assert_eq!(f, TomlInheritedField::new());
    let field: InheritableField<u32> = InheritableField::Value(7);
    assert_eq!(field.as_value(), Some(&7));
}
