use pip_gui::models::{DependencyStatus, InstalledPackage};
use pip_gui::reconcile::{
    dependency_status, installed_index, is_version_match, lookup_installed, reconcile,
};
use pip_gui::requirement::parse_requirements_txt;

fn pkg(name: &str, version: &str) -> InstalledPackage {
    InstalledPackage {
        name: name.to_string(),
        version: version.to_string(),
        location: "/site-packages".to_string(),
        summary: String::new(),
    }
}

#[test]
fn pinned_requirement_installed() {
    let deps = parse_requirements_txt("requests==2.28.0\n");
    let r = reconcile(&deps, &vec![pkg("requests", "2.28.0")]);
    assert_eq!(r.len(), 1);
    assert_eq!(r[0].status, DependencyStatus::Installed);
    assert_eq!(r[0].installed_version.as_deref(), Some("2.28.0"));
}

#[test]
fn pinned_requirement_mismatch() {
    let deps = parse_requirements_txt("requests==2.28.0\n");
    let r = reconcile(&deps, &vec![pkg("requests", "2.25.0")]);
    assert_eq!(r[0].status, DependencyStatus::VersionMismatch);
    assert_eq!(r[0].installed_version.as_deref(), Some("2.25.0"));
}

#[test]
fn absent_requirement_missing() {
    let deps = parse_requirements_txt("flask\n");
    let r = reconcile(&deps, &vec![pkg("requests", "2.28.0")]);
    assert_eq!(r[0].status, DependencyStatus::Missing);
    assert!(r[0].installed_version.is_none());
}

#[test]
fn names_match_case_insensitively() {
    let deps = parse_requirements_txt("Django>=4.0\n");
    let r = reconcile(&deps, &vec![pkg("django", "4.2.1")]);
    assert_eq!(r[0].status, DependencyStatus::Installed);
    assert_eq!(r[0].name, "Django");
    let idx = installed_index(&vec![pkg("PyYAML", "6.0")]);
    assert_eq!(idx, vec![("pyyaml".to_string(), "6.0".to_string())]);
}

#[test]
fn reconcile_is_deterministic_and_keeps_fields() {
    let deps = parse_requirements_txt("a>=1.0\nb<2\nc\na==0.5\n");
    let snap = vec![pkg("a", "1.5"), pkg("b", "2.0")];
    let r1 = reconcile(&deps, &snap);
    let r2 = reconcile(&deps, &snap);
    assert_eq!(r1.len(), 4);
    for i in 0..4 {
        assert_eq!(r1[i].name, deps[i].name);
        assert_eq!(r1[i].version_spec, deps[i].version_spec);
        assert_eq!(r1[i].status, r2[i].status);
        assert_eq!(r1[i].installed_version, r2[i].installed_version);
    }
    assert_eq!(r1[0].status, DependencyStatus::Installed);
    assert_eq!(r1[1].status, DependencyStatus::VersionMismatch);
    assert_eq!(r1[2].status, DependencyStatus::Missing);
    assert_eq!(r1[3].status, DependencyStatus::VersionMismatch);
}

#[test]
fn version_match_operators() {
    assert!(is_version_match("1.0", "*"));
    assert!(is_version_match("1.0", ""));
    assert!(is_version_match("2.0", ">=2.0"));
    assert!(!is_version_match("1.9", ">=2.0"));
    assert!(is_version_match("2.0", "<=2.0"));
    assert!(!is_version_match("2.1", "<=2.0"));
    assert!(is_version_match("2.1", ">2.0"));
    assert!(!is_version_match("2.0", ">2.0"));
    assert!(is_version_match("1.9", "<2.0"));
    assert!(!is_version_match("2.0", "<2.0"));
    assert!(is_version_match("1.0", "1.5"));
}

#[test]
fn status_and_lookup() {
    assert_eq!(dependency_status(None, "*"), DependencyStatus::Missing);
    assert_eq!(dependency_status(Some("1.0"), "*"), DependencyStatus::Installed);
    let idx = vec![("a".to_string(), "1".to_string()), ("a".to_string(), "2".to_string())];
    assert_eq!(lookup_installed(&idx, &"a".to_string()), Some("2".to_string()));
    assert_eq!(lookup_installed(&idx, &"b".to_string()), None);
}
