use pip_gui::listing::{compare_names, is_listed_name, order_entries};
use pip_gui::models::DirectoryEntry;
use pip_gui::platform::Platform;
use std::cmp::Ordering;

fn entry(name: &str, is_dir: bool) -> DirectoryEntry {
    DirectoryEntry {
        name: name.to_string(),
        path: format!("/p/{}", name),
        is_dir,
        is_python: false,
        is_venv: false,
    }
}

#[test]
fn hidden_names_except_venv() {
    assert!(is_listed_name("src", Platform::Linux));
    assert!(is_listed_name(".venv", Platform::Linux));
    assert!(!is_listed_name(".git", Platform::Linux));
    assert!(!is_listed_name(".venv2", Platform::MacOs));
    assert!(is_listed_name(".git", Platform::Windows));
    assert!(is_listed_name("", Platform::Linux));
}

#[test]
fn names_compare_by_code_point() {
    assert_eq!(compare_names("a", "b"), Ordering::Less);
    assert_eq!(compare_names("B", "a"), Ordering::Less);
    assert_eq!(compare_names("ab", "a"), Ordering::Greater);
    assert_eq!(compare_names("x", "x"), Ordering::Equal);
}

#[test]
fn directories_first_then_names() {
    let v = vec![entry("b.txt", false), entry("zeta", true), entry("a.py", false), entry("alpha", true)];
    let r = order_entries(v);
    let names: Vec<&str> = r.iter().map(|e| e.name.as_str()).collect();
    assert_eq!(names, vec!["alpha", "zeta", "a.py", "b.txt"]);
    assert!(order_entries(Vec::new()).is_empty());
}
