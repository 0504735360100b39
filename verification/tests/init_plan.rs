use ohrs::init_plan::{
    already_exists, get_git_config, git_config_from, package_files, project_files, replace_str,
    PackageTemplates, CARGO_TOML,
};

#[test]
fn replacement_goes_left_to_right_without_overlap() {
    assert_eq!(replace_str("aaa", "aa", "b"), "ba");
    assert_eq!(replace_str("x-entry-entry", "entry", "demo"), "x-demo-demo");
    assert_eq!(replace_str("none", "zz", "y"), "none");
}

#[test]
fn authors_lose_their_line_breaks() {
    assert_eq!(git_config_from("Jane Doe\r\n").author, "Jane Doe");
    assert_eq!(get_git_config(Some("A\nB\n".to_string())).author, "AB");
    assert!(!get_git_config(None).author.contains('\n'));
}

#[test]
fn a_new_project_has_four_files() {
    let files = project_files("/w/demo", "demo");
    let paths: Vec<&str> = files.iter().map(|(p, _)| p.as_str()).collect();
    assert_eq!(paths, vec!["/w/demo/src/lib.rs", "/w/demo/build.rs", "/w/demo/.gitignore", "/w/demo/Cargo.toml"]);
    assert!(files[3].1.contains("name    = \"demo\""));
    assert_eq!(files[3].1, CARGO_TOML.replace("entry", "demo"));
    assert!(files[1].1.contains("napi_build_ohos::setup()"));
}

#[test]
fn a_new_package_fills_in_its_templates() {
    let t = PackageTemplates {
        readme: "# @pkg".to_string(),
        manifest: "{name: '@pkg', author: '@author'}".to_string(),
        license: "(c) @author".to_string(),
        changelog: "## 0.1.0".to_string(),
    };
    let files = package_files("/w/my-lib", "my-lib", &None, "Ann", &t);
    assert_eq!(
        files,
        vec![
            ("/w/my-lib/package/README.md".to_string(), "# my-lib".to_string()),
            ("/w/my-lib/package/oh-package.json5".to_string(), "{name: 'my-lib', author: 'Ann'}".to_string()),
            ("/w/my-lib/package/LICENSE".to_string(), "(c) Ann".to_string()),
            ("/w/my-lib/package/index.ets".to_string(), "export * from \"libmy_lib.so\"".to_string()),
            ("/w/my-lib/package/CHANGELOG.md".to_string(), "## 0.1.0".to_string()),
        ]
    );
    let named = package_files("/w/x", "x", &Some("@scope/x".to_string()), "Ann", &t);
    assert_eq!(named[0].1, "# @scope/x");
    assert_eq!(already_exists("demo"), "demo already existed. Please change your project name.");
}
