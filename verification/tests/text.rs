use lib::text::{name_le, sort_names};

#[test]
fn sorts_names_ascending_keeping_each() {
    let mut names = vec![
        "b".to_string(),
        "a".to_string(),
        "c".to_string(),
        "a".to_string(),
        "Z".to_string(),
    ];
    sort_names(&mut names);
    assert_eq!(names, vec!["Z", "a", "a", "b", "c"]);
}

#[test]
fn orders_names_by_code_point_with_prefixes_first() {
    assert!(name_le("a", "b"));
    assert!(!name_le("b", "a"));
    assert!(name_le("ab", "abc"));
    assert!(!name_le("abc", "ab"));
    assert!(name_le("same", "same"));
    assert!(name_le("", "x"));
    assert!(name_le("Zebra", "apple"));
}
