use ohrs::workspace::{select_napi_packages, select_workspace_packages, PackageInfo};

fn pkg(id: &str, name: &str, dir: Option<&str>, canonical: Option<&str>, napi: bool) -> PackageInfo {
    PackageInfo {
        id: id.to_string(),
        name: name.to_string(),
        version: "0.1.0".to_string(),
        manifest_path: match dir {
            Some(d) => format!("{d}/Cargo.toml"),
            None => "Cargo.toml".to_string(),
        },
        manifest_dir: dir.map(str::to_string),
        manifest_dir_canonical: canonical.map(str::to_string),
        uses_napi_derive: napi,
    }
}

fn ids(v: &[&str]) -> Vec<String> {
    v.iter().map(|s| s.to_string()).collect()
}

#[test]
fn the_member_holding_the_working_directory_is_chosen() {
    let pkgs = vec![
        pkg("a", "a", Some("/w/a"), Some("/w/a"), true),
        pkg("b", "b", Some("/w/b"), Some("/w/b"), false),
    ];
    let members = ids(&["a", "b"]);
    assert_eq!(select_workspace_packages(&pkgs, &members, "/w/b/src", &Some("/w/b/src".to_string())), vec![1]);
    assert_eq!(select_workspace_packages(&pkgs, &members, "/w", &Some("/w".to_string())), vec![0, 1]);
    assert_eq!(select_workspace_packages(&pkgs, &ids(&[]), "/w", &None), Vec::<usize>::new());
}

#[test]
fn without_canonical_forms_the_text_of_the_paths_decides() {
    let pkgs = vec![pkg("a", "a", Some("/w/a"), None, true), pkg("ab", "ab", Some("/w/ab"), None, true)];
    let members = ids(&["a", "ab"]);
    assert_eq!(select_workspace_packages(&pkgs, &members, "/w/ab", &None), vec![0]);
}

#[test]
fn members_keep_the_order_cargo_reported() {
    let pkgs = vec![pkg("a", "a", Some("/w/a"), None, true), pkg("b", "b", Some("/w/b"), None, true)];
    assert_eq!(select_workspace_packages(&pkgs, &ids(&["b", "zz", "a"]), "/x", &None), vec![1, 0]);
}

#[test]
fn artifacts_take_only_napi_packages() {
    let pkgs = vec![
        pkg("a", "a", Some("/w/a"), None, true),
        pkg("b", "b", Some("/w/b"), None, false),
        pkg("c", "c", Some("/w/c"), None, true),
    ];
    let members = ids(&["a", "b", "c"]);
    assert_eq!(select_napi_packages(&pkgs, &members, "/w/./Cargo.toml", "/w", &None), vec![0, 2]);
    assert_eq!(select_napi_packages(&pkgs, &members, "/w/./Cargo.toml", "/w/b", &None), vec![0, 2]);
    let single = vec![pkg("p", "p", Some("/p"), None, true)];
    assert_eq!(select_napi_packages(&single, &ids(&[]), "/p/./Cargo.toml", "/p", &None), vec![0]);
    let plain = vec![pkg("p", "p", Some("/p"), None, false)];
    assert_eq!(select_napi_packages(&plain, &ids(&[]), "/p/./Cargo.toml", "/p", &None), Vec::<usize>::new());
}
