use ohrs::paths::{
    components_of, file_name_of, is_shared_object, join_path, parent_of, path_has_extension,
    path_is_under, same_path,
};

#[test]
fn joining_follows_path_join() {
    assert_eq!(join_path("/a", "b"), "/a/b");
    assert_eq!(join_path("/a/", "b"), "/a/b");
    assert_eq!(join_path("", "b"), "b");
    assert_eq!(join_path("/a", "/b"), "/b");
}

#[test]
fn parents_and_file_names_follow_path() {
    assert_eq!(parent_of("/a/b/c.so"), Some("/a/b".to_string()));
    assert_eq!(parent_of("c.so"), Some("".to_string()));
    assert_eq!(parent_of("/"), None);
    assert_eq!(parent_of(""), None);
    assert_eq!(parent_of("/a"), Some("/".to_string()));
    assert_eq!(file_name_of("/a/b/c.so"), Some("c.so".to_string()));
    assert_eq!(file_name_of("/a/b/"), Some("b".to_string()));
    assert_eq!(file_name_of("/a/.."), None);
    assert_eq!(file_name_of("/"), None);
}

#[test]
fn components_skip_empty_pieces_and_inner_dots() {
    let c = components_of("/a//./b/");
    let as_strings: Vec<String> = c.iter().map(|v| v.iter().collect()).collect();
    assert_eq!(as_strings, vec!["/", "a", "b"]);
    let d = components_of("./x");
    let d_strings: Vec<String> = d.iter().map(|v| v.iter().collect()).collect();
    assert_eq!(d_strings, vec![".", "x"]);
}

#[test]
fn extensions_need_a_stem() {
    assert!(is_shared_object("/o/libx.so"));
    assert!(!is_shared_object("/o/.so"));
    assert!(!is_shared_object("/o/libx.so.1"));
    assert!(path_has_extension("/o/libx.a", "a"));
    assert!(!path_has_extension("/o/.a", "a"));
    assert!(!path_has_extension("/o/libx.so", "a"));
}

#[test]
fn comparisons_go_by_components() {
    assert!(path_is_under("/a/b/c", "/a/b"));
    assert!(path_is_under("/a/b", "/a/b/"));
    assert!(!path_is_under("/a/bc", "/a/b"));
    assert!(same_path("/a/./b", "/a/b/"));
    assert!(!same_path("/a/b", "/a"));
}
