use pip_gui::discovery::{
    candidate_paths, collect_installations, validate_probe, version_from_output, InterpreterProbe,
    ValidationError,
};
use pip_gui::models::{PythonInstallation, VenvInfo};
use pip_gui::platform::Platform;
use pip_gui::venv::{
    add_venv_unique, examine_venv, is_recognized_venv, nearest_marker_level, parse_pyvenv_cfg,
    venv_base_from_cfg,
};

fn probe() -> InterpreterProbe {
    InterpreterProbe {
        exists: true,
        mode: Some(0o755),
        version_output: Some("Python 3.11.4\n".to_string()),
        marker_adjacent: false,
        venv_base: None,
        pip_runs: true,
    }
}

fn inst(path: &str) -> PythonInstallation {
    PythonInstallation {
        path: path.to_string(),
        version: "3.11".to_string(),
        is_venv: false,
        venv_base: None,
        pip_version: String::new(),
    }
}

#[test]
fn venv_without_interpreter_rejected() {
    let cfg = "home = /usr/lib/python3.11\n";
    assert!(examine_venv("/p/.venv", "/p/.venv/bin/python", true, Some(cfg), false).is_none());
}

#[test]
fn venv_recognition_needs_both() {
    assert!(is_recognized_venv(true, true));
    assert!(!is_recognized_venv(false, true));
    assert!(!is_recognized_venv(true, false));
    assert!(examine_venv("/p/env", "/p/env/bin/python", false, None, true).is_none());
    let v = examine_venv(
        "/p/env",
        "/p/env/bin/python",
        true,
        Some("home = /usr/bin\nprompt = demo\r\n"),
        true,
    )
    .unwrap();
    assert_eq!(v.path, "/p/env");
    assert_eq!(v.python_path, "/p/env/bin/python");
    assert_eq!(v.home, "/usr/bin");
    assert_eq!(v.prompt.as_deref(), Some("demo"));
}

#[test]
fn pyvenv_cfg_last_entry_wins() {
    let (home, prompt) = parse_pyvenv_cfg("home = /a\nversion = 3.11\nhome = /b\n");
    assert_eq!(home, "/b");
    assert!(prompt.is_none());
    let (home, _) = parse_pyvenv_cfg("");
    assert_eq!(home, "");
}

#[test]
fn venv_base_first_home_or_dir() {
    assert_eq!(venv_base_from_cfg("/v", Some("home = /x\nhome = /y\n")), "/x");
    assert_eq!(venv_base_from_cfg("/v", Some("prompt = p\n")), "/v");
    assert_eq!(venv_base_from_cfg("/v", None), "/v");
}

#[test]
fn venvs_deduplicated_by_path() {
    let mk = |p: &str| VenvInfo {
        path: p.to_string(),
        python_path: format!("{}/bin/python", p),
        home: String::new(),
        prompt: None,
    };
    let mut vs = Vec::new();
    add_venv_unique(&mut vs, mk("/p/.venv"));
    add_venv_unique(&mut vs, mk("/p/other"));
    add_venv_unique(&mut vs, mk("/p/.venv"));
    assert_eq!(vs.len(), 2);
}

#[test]
fn version_output_last_word() {
    assert_eq!(version_from_output("Python 3.11.4\n"), "3.11.4");
    assert_eq!(version_from_output(""), "unknown");
    assert_eq!(version_from_output("   "), "unknown");
}

#[test]
fn validation_errors_in_order() {
    let mut p = probe();
    p.exists = false;
    assert_eq!(validate_probe("/x", &p).unwrap_err(), ValidationError::NotFound);
    let mut p = probe();
    p.mode = Some(0o644);
    assert_eq!(validate_probe("/x", &p).unwrap_err(), ValidationError::NotExecutable);
    let mut p = probe();
    p.version_output = None;
    assert_eq!(validate_probe("/x", &p).unwrap_err(), ValidationError::InvocationFailed);
    let mut p = probe();
    p.pip_runs = false;
    assert_eq!(validate_probe("/x", &p).unwrap_err(), ValidationError::PackageManagerUnavailable);
}

#[test]
fn validation_success() {
    let mut p = probe();
    p.marker_adjacent = true;
    p.venv_base = Some("/usr".to_string());
    let i = validate_probe("/v/bin/python", &p).unwrap();
    assert_eq!(i.path, "/v/bin/python");
    assert_eq!(i.version, "3.11.4");
    assert!(i.is_venv);
    assert_eq!(i.venv_base.as_deref(), Some("/usr"));
    assert_eq!(i.pip_version, "");
}

#[test]
fn discovery_dedups_and_fails_when_empty() {
    let r = collect_installations(vec![Some(inst("/a")), None, Some(inst("/b")), Some(inst("/a"))]).unwrap();
    let paths: Vec<&str> = r.iter().map(|i| i.path.as_str()).collect();
    assert_eq!(paths, vec!["/a", "/b"]);
    assert!(collect_installations(vec![None, None]).is_err());
    assert!(collect_installations(vec![]).is_err());
}

#[test]
fn candidate_tables() {
    assert_eq!(
        candidate_paths(Platform::Linux),
        vec!["/usr/bin/python3", "/usr/local/bin/python3", "/usr/bin/python"]
    );
    assert_eq!(candidate_paths(Platform::MacOs).len(), 4);
    assert_eq!(candidate_paths(Platform::Windows)[0], "C:\\Python312\\python.exe");
    assert!(candidate_paths(Platform::Other).is_empty());
}

#[test]
fn marker_search_stops_after_five_levels() {
    assert_eq!(nearest_marker_level(&vec![false, true, true]), Some(1));
    assert_eq!(nearest_marker_level(&vec![true]), Some(0));
    assert_eq!(nearest_marker_level(&vec![false, false, false, false, false, true]), None);
    assert_eq!(nearest_marker_level(&vec![false, false, false, false, true]), Some(4));
    assert_eq!(nearest_marker_level(&vec![]), None);
}
