use manifest_schema::profile::{ProfilePackageSpec, TomlDebugInfo, TomlOptLevel, TomlProfile, TomlProfiles};
use manifest_schema::shapes::StringOrBool;
use manifest_schema::target::TomlTarget;
use manifest_schema::trim_paths::TomlTrimPaths;
use manifest_schema::value::{ConfigValue, DecodeError};

fn opt(n: &str) -> Option<TomlOptLevel> {
    Some(TomlOptLevel(n.to_string()))
}

#[test]
fn merge_is_right_biased() {
    let mut a = TomlProfile { opt_level: opt("1"), ..Default::default() };
    let b = TomlProfile { opt_level: opt("3"), ..Default::default() };
    a.merge(&b);
    assert_eq!(a.opt_level, opt("3"));

    let mut a = TomlProfile { opt_level: opt("1"), ..Default::default() };
    a.merge(&TomlProfile::default());
    assert_eq!(a.opt_level, opt("1"));
}

#[test]
fn merge_overwrites_each_scalar() {
    let mut a = TomlProfile {
        lto: Some(StringOrBool::Bool(true)),
        codegen_units: Some(4),
        panic: Some("unwind".to_string()),
        inherits: Some("release".to_string()),
        ..Default::default()
    };
    let b = TomlProfile {
        lto: Some(StringOrBool::String("thin".to_string())),
        dir_name: Some("out".to_string()),
        trim_paths: Some(TomlTrimPaths::All),
        rustflags: Some(vec!["-Cfoo".to_string()]),
        ..Default::default()
    };
    a.merge(&b);
    assert_eq!(a.lto, Some(StringOrBool::String("thin".to_string())));
    assert_eq!(a.codegen_units, Some(4));
    assert_eq!(a.panic, Some("unwind".to_string()));
    assert_eq!(a.inherits, Some("release".to_string()));
    assert_eq!(a.dir_name, Some("out".to_string()));
    assert_eq!(a.trim_paths, Some(TomlTrimPaths::All));
    assert_eq!(a.rustflags, Some(vec!["-Cfoo".to_string()]));
}

#[test]
fn merge_nested_package_overrides() {
    let foo = || ProfilePackageSpec::Spec("foo".to_string());
    let mut a = TomlProfile {
        package: Some(vec![(foo(), TomlProfile { debug: Some(TomlDebugInfo::Full), ..Default::default() })]),
        ..Default::default()
    };
    let b = TomlProfile {
        package: Some(vec![
            (foo(), TomlProfile { opt_level: opt("3"), ..Default::default() }),
            (ProfilePackageSpec::All, TomlProfile { codegen_units: Some(1), ..Default::default() }),
        ]),
        ..Default::default()
    };
    a.merge(&b);
    let pkgs = a.package.as_ref().unwrap();
    assert_eq!(pkgs.len(), 2);
    assert_eq!(pkgs[0].0, foo());
    assert_eq!(pkgs[0].1.debug, Some(TomlDebugInfo::Full));
    assert_eq!(pkgs[0].1.opt_level, opt("3"));
    assert_eq!(pkgs[1].0, ProfilePackageSpec::All);
    assert_eq!(pkgs[1].1.codegen_units, Some(1));
}

#[test]
fn merge_build_override() {
    let mut a = TomlProfile::default();
    let b = TomlProfile {
        build_override: Some(Box::new(TomlProfile { opt_level: opt("0"), ..Default::default() })),
        ..Default::default()
    };
    a.merge(&b);
    assert_eq!(a.build_override.as_ref().unwrap().opt_level, opt("0"));
    let c = TomlProfile {
        build_override: Some(Box::new(TomlProfile { debug: Some(TomlDebugInfo::Limited), ..Default::default() })),
        ..Default::default()
    };
    a.merge(&c);
    let bo = a.build_override.as_ref().unwrap();
    assert_eq!(bo.opt_level, opt("0"));
    assert_eq!(bo.debug, Some(TomlDebugInfo::Limited));
}

#[test]
fn merge_is_not_commutative() {
    let one = TomlProfile { opt_level: opt("1"), ..Default::default() };
    let three = TomlProfile { opt_level: opt("3"), ..Default::default() };
    let mut ab = manifest_schema::profile::copy_profile(&one);
    ab.merge(&three);
    let mut ba = manifest_schema::profile::copy_profile(&three);
    ba.merge(&one);
    assert_ne!(ab, ba);
}

#[test]
fn profiles_lookup() {
    let p = TomlProfiles(vec![
        ("dev".to_string(), TomlProfile { opt_level: opt("0"), ..Default::default() }),
        ("release".to_string(), TomlProfile { opt_level: opt("3"), ..Default::default() }),
    ]);
    assert_eq!(p.get("release").unwrap().opt_level, opt("3"));
    assert!(p.get("bench").is_none());
    assert_eq!(p.get_all().len(), 2);
}

#[test]
fn target_proc_macro() {
    let mut t = TomlTarget::new();
    assert_eq!(t.proc_macro(), None);
    assert_eq!(t.crate_types(), None);
    t.crate_type2 = Some(vec!["lib".to_string(), "proc-macro".to_string()]);
    assert_eq!(t.proc_macro(), Some(true));
    assert_eq!(t.crate_types().unwrap().len(), 2);
    t.crate_type = Some(vec!["lib".to_string()]);
    assert_eq!(t.proc_macro(), None);
    t.proc_macro2 = Some(false);
    assert_eq!(t.proc_macro(), Some(false));
    t.proc_macro = Some(true);
    assert_eq!(t.proc_macro(), Some(true));
}

#[test]
fn profile_table_decodes() {
    let s = |x: &str| ConfigValue::Str(x.to_string());
    let t = |e: Vec<(&str, ConfigValue)>| ConfigValue::Table(e.into_iter().map(|(k, v)| (k.to_string(), v)).collect());
    let p = TomlProfile::decode(&t(vec![
        ("opt-level", ConfigValue::Int(3)),
        ("debug", ConfigValue::Bool(true)),
        ("codegen-units", ConfigValue::Int(16)),
        ("strip", s("symbols")),
        ("unknown-key", ConfigValue::Int(1)),
        ("package", t(vec![("*", t(vec![("opt-level", s("z"))]))])),
        ("build-override", t(vec![("debug", ConfigValue::Int(0))])),
    ]))
    .unwrap();
    assert_eq!(p.opt_level, opt("3"));
    assert_eq!(p.debug, Some(TomlDebugInfo::Full));
    assert_eq!(p.codegen_units, Some(16));
    assert_eq!(p.strip, Some(StringOrBool::String("symbols".to_string())));
    let pkgs = p.package.as_ref().unwrap();
    assert_eq!(pkgs[0].0, ProfilePackageSpec::All);
    assert_eq!(pkgs[0].1.opt_level, opt("z"));
    assert_eq!(p.build_override.as_ref().unwrap().debug, Some(TomlDebugInfo::Off));
    assert!(matches!(TomlProfile::decode(&s("release")), Err(DecodeError::ShapeMismatch(_))));
    assert!(matches!(
        TomlProfile::decode(&t(vec![("codegen-units", ConfigValue::Int(-1))])),
        Err(DecodeError::InvalidValue(_))
    ));
}

#[test]
fn profile_encodes_and_decodes_back() {
    let p = TomlProfile {
        opt_level: opt("2"),
        debug: Some(TomlDebugInfo::LineTablesOnly),
        lto: Some(StringOrBool::Bool(true)),
        panic: Some("abort".to_string()),
        codegen_units: Some(8),
        rustflags: Some(vec!["-Cx".to_string()]),
        trim_paths: Some(TomlTrimPaths::All),
        package: Some(vec![(ProfilePackageSpec::All, TomlProfile { opt_level: opt("s"), ..Default::default() })]),
        build_override: Some(Box::new(TomlProfile { debug: Some(TomlDebugInfo::Off), ..Default::default() })),
        ..Default::default()
    };
    let e = p.encode();
    match &e {
        ConfigValue::Table(t) => assert_eq!(t[0], ("opt-level".to_string(), ConfigValue::Int(2))),
        _ => panic!("expected a table"),
    }
    let q = TomlProfile::decode(&e).unwrap();
    assert_eq!(q, p);
}

#[test]
fn profile_with_bad_nested_override_fails() {
    let s = |x: &str| ConfigValue::Str(x.to_string());
    let t = |e: Vec<(&str, ConfigValue)>| ConfigValue::Table(e.into_iter().map(|(k, v)| (k.to_string(), v)).collect());
    let bad_pkg = t(vec![("package", t(vec![("foo", t(vec![("debug", s("lots"))]))]))]);
    assert!(matches!(TomlProfile::decode(&bad_pkg), Err(DecodeError::InvalidValue(_))));
    let bad_bo = t(vec![("build-override", s("fast"))]);
    assert!(matches!(TomlProfile::decode(&bad_bo), Err(DecodeError::ShapeMismatch(_))));
    let good = t(vec![("package", t(vec![("foo", t(vec![("debug", s("full"))]))]))]);
    assert!(TomlProfile::decode(&good).is_ok());
}
