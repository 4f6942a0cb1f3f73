use pip_gui::version::{compare_versions, sort_versions_descending, version_components};
use std::cmp::Ordering;

#[test]
fn compare_equal_versions() {
    assert_eq!(compare_versions("1.2.3", "1.2.3"), Ordering::Equal);
    assert_eq!(compare_versions("", ""), Ordering::Equal);
}

#[test]
fn compare_first_unequal_component_decides() {
    assert_eq!(compare_versions("1.10.0", "1.9.9"), Ordering::Greater);
    assert_eq!(compare_versions("2.0", "10.0"), Ordering::Less);
}

#[test]
fn compare_prefix_is_less() {
    assert_eq!(compare_versions("1.2", "1.2.0"), Ordering::Less);
    assert_eq!(compare_versions("1.2.0", "1.2"), Ordering::Greater);
}

#[test]
fn compare_ignores_non_numeric_segments() {
    assert_eq!(compare_versions("1.0rc1", "1"), Ordering::Equal);
    assert_eq!(compare_versions("1.x.2", "1.2"), Ordering::Equal);
    assert_eq!(version_components("3.11.4"), vec![3, 11, 4]);
    assert_eq!(version_components("+7.a.08"), vec![7, 8]);
    assert_eq!(version_components("4294967296.1"), vec![1]);
}

#[test]
fn compare_is_antisymmetric_on_examples() {
    let vs = ["1.0", "1.0.1", "0.9", "2", "1.0.0"];
    for a in vs.iter() {
        for b in vs.iter() {
            assert_eq!(compare_versions(a, b), compare_versions(b, a).reverse());
        }
    }
}

#[test]
fn releases_sorted_newest_first() {
    let v = vec!["1.0".to_string(), "2.0.1".to_string(), "1.10".to_string(), "1.9".to_string()];
    let r = sort_versions_descending(&v);
    assert_eq!(r, vec!["2.0.1".to_string(), "1.10".to_string(), "1.9".to_string(), "1.0".to_string()]);
}
