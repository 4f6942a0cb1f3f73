use pip_gui::models::DependencyStatus;
use pip_gui::requirement::{
    collect_dependencies, parse_pyproject_toml, parse_requirement_string, parse_requirements_txt,
};

#[test]
fn requirement_with_operators() {
    assert_eq!(
        parse_requirement_string("foo>=1.2"),
        Some(("foo".to_string(), ">=1.2".to_string()))
    );
    assert_eq!(
        parse_requirement_string("bar==3.0"),
        Some(("bar".to_string(), "==3.0".to_string()))
    );
    assert_eq!(parse_requirement_string("a<=2"), Some(("a".to_string(), "<=2".to_string())));
    assert_eq!(parse_requirement_string("a > 2"), Some(("a".to_string(), ">2".to_string())));
    assert_eq!(parse_requirement_string("a<2"), Some(("a".to_string(), "<2".to_string())));
}

#[test]
fn requirement_without_operator_is_unconstrained() {
    assert_eq!(parse_requirement_string("flask"), Some(("flask".to_string(), "*".to_string())));
    assert_eq!(
        parse_requirement_string("requests[security]"),
        Some(("requests".to_string(), "*".to_string()))
    );
}

#[test]
fn requirement_extras_are_stripped() {
    assert_eq!(
        parse_requirement_string("uvicorn[standard]==0.23.2"),
        Some(("uvicorn".to_string(), "==0.23.2".to_string()))
    );
}

#[test]
fn requirements_file_one_entry_per_line() {
    let text = "# comment\n\nfoo>=1.2\n-r other.txt\n  bar==3.0  \r\nbaz\n";
    let deps = parse_requirements_txt(text);
    assert_eq!(deps.len(), 3);
    assert_eq!(deps[0].name, "foo");
    assert_eq!(deps[0].version_spec, ">=1.2");
    assert_eq!(deps[1].name, "bar");
    assert_eq!(deps[1].version_spec, "==3.0");
    assert_eq!(deps[2].name, "baz");
    assert_eq!(deps[2].version_spec, "*");
    for d in &deps {
        assert_eq!(d.status, DependencyStatus::Missing);
        assert!(d.installed_version.is_none());
    }
}

#[test]
fn requirements_file_empty() {
    assert!(parse_requirements_txt("").is_empty());
    assert!(parse_requirements_txt("\n   \n# only comments\n").is_empty());
}

#[test]
fn pyproject_dependencies_line() {
    let text = "[build-system]\ndependencies = [\"setuptools\"]\n[project]\nname = \"demo\"\ndependencies = [\"requests>=2.0\"]\n[tool.x]\ndependencies = [\"ignored\"]\n";
    let deps = parse_pyproject_toml(text);
    assert_eq!(deps.len(), 1);
    assert_eq!(deps[0].name, "requests");
    assert_eq!(deps[0].version_spec, ">=2.0");
}

#[test]
fn pyproject_several_on_one_line() {
    let text = "[project]\ndependencies = [\"a==1\", \"b\"]\n";
    let deps = parse_pyproject_toml(text);
    assert_eq!(deps.len(), 2);
    assert_eq!(deps[0].name, "a");
    assert_eq!(deps[0].version_spec, "==1\"");
    assert_eq!(deps[1].name, "\"b");
    assert_eq!(deps[1].version_spec, "*");
}

#[test]
fn manifests_are_concatenated() {
    let deps = collect_dependencies(
        Some("[project]\ndependencies = [\"requests\"]\n"),
        Some("requests==2.28.0\n"),
        Some("pytest\n"),
    );
    let names: Vec<&str> = deps.iter().map(|d| d.name.as_str()).collect();
    assert_eq!(names, vec!["requests", "requests", "pytest"]);
    assert!(collect_dependencies(None, None, None).is_empty());
}
