use yatap::text::{chars_of, contains_str, final_component_of};

fn name(dir: &str) -> Option<String> {
    final_component_of(dir)
}

#[test]
fn final_component_of_plain_path() {
    assert_eq!(name("/tmp/a/proj1"), Some("proj1".to_string()));
    assert_eq!(name("proj1"), Some("proj1".to_string()));
}

#[test]
fn final_component_skips_trailing_separators_and_dots() {
    assert_eq!(name("/tmp/a/proj1/"), Some("proj1".to_string()));
    assert_eq!(name("/tmp/a/proj1//"), Some("proj1".to_string()));
    assert_eq!(name("/tmp/a/proj1/."), Some("proj1".to_string()));
    assert_eq!(name("/tmp/a/proj1/./"), Some("proj1".to_string()));
    assert_eq!(name("./proj1"), Some("proj1".to_string()));
    assert_eq!(name("/tmp//proj1"), Some("proj1".to_string()));
}

#[test]
fn final_component_missing() {
    assert_eq!(name(""), None);
    assert_eq!(name("/"), None);
    assert_eq!(name("//"), None);
    assert_eq!(name("."), None);
    assert_eq!(name("./"), None);
    assert_eq!(name("/tmp/a/.."), None);
    assert_eq!(name(".."), None);
}

#[test]
fn final_component_keeps_dotted_names() {
    assert_eq!(name("/tmp/.config"), Some(".config".to_string()));
    assert_eq!(name("/tmp/..."), Some("...".to_string()));
    assert_eq!(name("/tmp/a.b"), Some("a.b".to_string()));
}

#[test]
fn final_component_agrees_with_std_path() {
    for p in ["/tmp/a/proj1", "/tmp/a/proj1/", "/a/.", "/a/..", "/", "", "x", "./", "a//b/./"] {
        let expected = std::path::Path::new(p)
            .file_name()
            .map(|n| n.to_str().unwrap().to_string());
        assert_eq!(name(p), expected, "path {:?}", p);
    }
}

#[test]
fn contains_str_is_case_sensitive_substring() {
    assert!(contains_str("/tmp/a/proj1", "roj1"));
    assert!(contains_str("/tmp/a/proj1", "/tmp/a/proj1"));
    assert!(contains_str("/tmp/a/proj1", ""));
    assert!(contains_str("", ""));
    assert!(!contains_str("/tmp/a/proj1", "ROJ1"));
    assert!(!contains_str("/tmp/a/proj1", "proj12"));
    assert!(!contains_str("", "a"));
    assert!(!contains_str("/tmp/a/proj2", "roj1"));
}

#[test]
fn chars_of_lists_characters() {
    assert_eq!(chars_of("héllo"), vec!['h', 'é', 'l', 'l', 'o']);
    assert_eq!(chars_of(""), Vec::<char>::new());
}
