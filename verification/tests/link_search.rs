use ohrs::search::{
    deduplicate_paths, ohos_runtime_library_paths, ohos_system_library_paths,
    resolve_link_search_path_values, strip_link_search_kind,
};
use ohrs::arch::Arch;

fn probe(dirs: &[&str], value: &str) -> Option<String> {
    let path = strip_link_search_kind(value);
    if dirs.contains(&path.as_str()) {
        Some(path)
    } else {
        None
    }
}

#[test]
fn missing_and_excluded_link_search_paths_are_ignored() {
    let existing = ["/t/dependency", "/t/system"];
    let values = [
        "native=/t/missing",
        "native=/t/system",
        "native=/t/dependency",
        "native=/t/dependency",
    ];
    let probes: Vec<Option<String>> = values.iter().map(|v| probe(&existing, v)).collect();
    let resolved = resolve_link_search_path_values(&probes, &["/t/system".to_string()]);
    assert_eq!(resolved, vec!["/t/dependency".to_string()]);
}

#[test]
fn boring_ssl_candidate_layouts_do_not_require_empty_directories() {
    let existing = ["/t/build", "/t/build/ssl"];
    let values = [
        "native=/t/build/lib",
        "native=/t/build/crypto",
        "native=/t/build/ssl",
        "native=/t/build",
    ];
    let probes: Vec<Option<String>> = values.iter().map(|v| probe(&existing, v)).collect();
    let resolved = resolve_link_search_path_values(&probes, &[]);
    assert_eq!(resolved, vec!["/t/build/ssl".to_string(), "/t/build".to_string()]);
}

#[test]
fn link_search_kinds_are_stripped() {
    assert_eq!(strip_link_search_kind("native=/a"), "/a");
    assert_eq!(strip_link_search_kind("dependency=/a"), "/a");
    assert_eq!(strip_link_search_kind("crate=/a"), "/a");
    assert_eq!(strip_link_search_kind("framework=/a"), "/a");
    assert_eq!(strip_link_search_kind("all=/a=b"), "/a=b");
    assert_eq!(strip_link_search_kind("other=/a"), "other=/a");
    assert_eq!(strip_link_search_kind("/plain/path"), "/plain/path");
}

#[test]
fn directories_under_an_excluded_root_are_dropped() {
    let probes = vec![Some("/sys/lib/x".to_string()), Some("/sysroot".to_string())];
    let resolved = resolve_link_search_path_values(&probes, &["/sys".to_string()]);
    assert_eq!(resolved, vec!["/sysroot".to_string()]);
}

#[test]
fn deduplicated_paths_keep_first_occurrences() {
    let probes = vec![
        Some("/b".to_string()),
        None,
        Some("/a".to_string()),
        Some("/b".to_string()),
    ];
    assert_eq!(deduplicate_paths(&probes), vec!["/b".to_string(), "/a".to_string()]);
}

#[test]
fn system_library_candidates_cover_both_ndks() {
    assert_eq!(
        ohos_system_library_paths("/ndk", Some("/hms"), Arch::ARM32),
        vec![
            "/ndk/native/sysroot/usr/lib/arm-linux-ohos".to_string(),
            "/ndk/native/sysroot/usr/lib".to_string(),
            "/hms/native/sysroot/usr/lib/arm-linux-ohos".to_string(),
            "/hms/native/sysroot/usr/lib".to_string(),
        ]
    );
    assert_eq!(
        ohos_system_library_paths("/ndk/", None, Arch::ARM64),
        vec![
            "/ndk/native/sysroot/usr/lib/aarch64-linux-ohos".to_string(),
            "/ndk/native/sysroot/usr/lib".to_string(),
        ]
    );
}

#[test]
fn runtime_library_candidates_are_the_llvm_directories() {
    assert_eq!(
        ohos_runtime_library_paths("/ndk", Arch::X86_64),
        vec![
            "/ndk/native/llvm/lib/x86_64-linux-ohos".to_string(),
            "/ndk/native/llvm/lib/x86_64-linux-ohos/c++".to_string(),
        ]
    );
}

#[test]
fn the_same_ndk_given_twice_adds_no_system_directory() {
    let present = ["/ndk/native/sysroot/usr/lib", "/ndk/native/sysroot/usr/lib/aarch64-linux-ohos"];
    let probes = |paths: Vec<String>| -> Vec<Option<String>> {
        paths.into_iter().map(|p| if present.contains(&p.as_str()) { Some(p) } else { None }).collect()
    };
    let once = deduplicate_paths(&probes(ohos_system_library_paths("/ndk", None, Arch::ARM64)));
    let twice = deduplicate_paths(&probes(ohos_system_library_paths("/ndk", Some("/ndk"), Arch::ARM64)));
    assert_eq!(ohos_system_library_paths("/ndk", Some("/ndk"), Arch::ARM64).len(), 4);
    assert_eq!(twice, once);
    assert_eq!(once.len(), 2);
}

#[test]
fn a_missing_advertised_directory_is_skipped() {
    let with_missing = vec![Some("/a".to_string()), None, Some("/b".to_string())];
    let without = vec![Some("/a".to_string()), Some("/b".to_string())];
    let excluded: Vec<String> = vec![];
    assert_eq!(
        resolve_link_search_path_values(&with_missing, &excluded),
        resolve_link_search_path_values(&without, &excluded)
    );
    assert_eq!(resolve_link_search_path_values(&without, &excluded), vec!["/a".to_string(), "/b".to_string()]);
}
