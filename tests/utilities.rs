use pip_gui::cache::{Cache, CacheEntry};
use pip_gui::platform::{
    get_executable_extension, get_path_separator, normalize_path_separators, Platform,
};
use pip_gui::project::{present_project_files, project_file_candidates};
use pip_gui::state::{installation_of, selection_of, AppState};
use pip_gui::models::PythonInstallation;
use pip_gui::validation::{
    is_safe_path, is_valid_package_name, is_valid_version, normalize_package_name, sanitize_path,
};

#[test]
fn cache_entry_validity() {
    let e = CacheEntry { data: 1u8, created_at: 1000, ttl: 500 };
    assert!(e.is_valid(1000));
    assert!(e.is_valid(1499));
    assert!(!e.is_valid(1500));
    assert!(!e.is_valid(999));
}

#[test]
fn cache_set_get_clear() {
    let mut c: Cache<u32> = Cache::new();
    assert_eq!(c.get("k", 0), None);
    c.set("k".to_string(), 7, 100, 10);
    assert_eq!(c.get("k", 50), Some(&7));
    assert_eq!(c.get("k", 110), None);
    c.set("k".to_string(), 8, 100, 200);
    assert_eq!(c.get("k", 250), Some(&8));
    assert_eq!(c.entries.len(), 1);
    c.clear();
    assert_eq!(c.get("k", 250), None);
}

#[test]
fn platform_helpers() {
    assert_eq!(get_executable_extension(Platform::Windows), ".exe");
    assert_eq!(get_executable_extension(Platform::Linux), "");
    assert_eq!(get_path_separator(Platform::Windows), ";");
    assert_eq!(get_path_separator(Platform::MacOs), ":");
    assert_eq!(normalize_path_separators("a/b\\c", Platform::Windows), "a\\b\\c");
    assert_eq!(normalize_path_separators("a/b\\c", Platform::Linux), "a/b/c");
}

#[test]
fn package_name_rules() {
    assert!(is_valid_package_name("my_pkg-2"));
    assert!(!is_valid_package_name("bad name"));
    assert!(!is_valid_package_name(""));
    assert!(is_valid_version("1.2.3"));
    assert!(is_valid_version("1.0rc1"));
    assert!(!is_valid_version("v1"));
    assert_eq!(normalize_package_name("My_Package"), "my-package");
}

#[test]
fn path_rules() {
    assert!(is_safe_path("a/b/c"));
    assert!(!is_safe_path("a/../b"));
    assert!(!is_safe_path(".."));
    assert!(is_safe_path("a/.../b"));
    assert_eq!(sanitize_path("/tmp/x"), "/tmp/x");
}

#[test]
fn project_files_reported_in_order() {
    assert_eq!(project_file_candidates().len(), 6);
    let found = present_project_files(&vec![false, true, false, true, false, false]);
    assert_eq!(found, vec!["requirements.txt", "setup.py"]);
}

#[test]
fn selection_round_trip() {
    let i = PythonInstallation {
        path: "/usr/bin/python3".into(),
        version: "3.11.4".into(),
        is_venv: false,
        venv_base: None,
        pip_version: String::new(),
    };
    let s = selection_of(&i);
    let mut st = AppState::with_config_dir("/cfg".into(), None);
    st.select(s.clone());
    assert_eq!(st.selected_python.as_ref().unwrap().path, "/usr/bin/python3");
    let back = installation_of(&s, "pip 23.0".into());
    assert_eq!(back.version, "3.11.4");
    assert_eq!(back.pip_version, "pip 23.0");
}
