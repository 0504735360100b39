use ohrs::artifact_plan::{check_dist, check_package_source, choose_dist, plan_artifacts};
use ohrs::options::ArtifactArgs;
use ohrs::workspace::PackageInfo;

fn pkg(name: &str, dir: Option<&str>) -> PackageInfo {
    PackageInfo {
        id: name.to_string(),
        name: name.to_string(),
        version: "1.0.0".to_string(),
        manifest_path: format!("{}/Cargo.toml", dir.unwrap_or("")),
        manifest_dir: dir.map(str::to_string),
        manifest_dir_canonical: None,
        uses_napi_derive: true,
    }
}

fn a(package: Option<&str>) -> ArtifactArgs {
    ArtifactArgs {
        dist: "dist".to_string(),
        name: "package".to_string(),
        skip_libs: false,
        package: package.map(str::to_string),
    }
}

#[test]
fn a_single_package_is_packed_from_the_working_directory() {
    let jobs = plan_artifacts(&a(None), "/w", &vec![pkg("p", Some("/w"))], &vec![0]).unwrap();
    assert_eq!(jobs.len(), 1);
    let j = &jobs[0];
    assert_eq!(j.package, None);
    assert_eq!(j.package_source, "/w/package");
    assert_eq!(j.libs_dir, "/w/package/libs");
    assert_eq!(j.dist_default, "/w/dist");
    assert_eq!(j.dist_in_package, None);
    assert_eq!(j.har, "/w/package.har");
    assert!(j.report_source_for_dist);
}

#[test]
fn workspace_packages_are_packed_in_their_own_directories() {
    let pkgs = vec![pkg("a", Some("/w/a")), pkg("b", None)];
    let jobs = plan_artifacts(&a(None), "/w", &pkgs, &vec![0, 1]).unwrap();
    assert_eq!(jobs[0].package, Some("a".to_string()));
    assert_eq!(jobs[0].package_source, "/w/a/package");
    assert_eq!(jobs[0].dist_in_package, Some("/w/a/dist".to_string()));
    assert_eq!(jobs[0].dist_default, "/w/dist/a");
    assert_eq!(jobs[0].har, "/w/a/package-a.har");
    assert_eq!(jobs[1].package_source, "/w/package/b");
    assert_eq!(jobs[1].har, "/w/package-b.har");
    assert_eq!(choose_dist(&jobs[0], true), "/w/a/dist");
    assert_eq!(choose_dist(&jobs[0], false), "/w/dist/a");
    assert_eq!(choose_dist(&jobs[1], true), "/w/dist/b");
    let only_b = plan_artifacts(&a(Some("b")), "/w", &pkgs, &vec![0, 1]).unwrap();
    assert_eq!(only_b.len(), 1);
    assert_eq!(only_b[0].package, Some("b".to_string()));
}

#[test]
fn nothing_to_pack_is_an_error() {
    assert_eq!(
        plan_artifacts(&a(None), "/w", &vec![], &vec![]).err(),
        Some("No package found with napi-derive-ohos dependency.".to_string())
    );
    assert_eq!(
        plan_artifacts(&a(Some("zz")), "/w", &vec![pkg("p", Some("/w"))], &vec![0]).err(),
        Some("Package 'zz' not found or does not use napi-derive-ohos".to_string())
    );
}

#[test]
fn missing_folders_are_reported_with_their_paths() {
    let jobs = plan_artifacts(&a(None), "/w", &vec![pkg("p", Some("/w"))], &vec![0]).unwrap();
    let j = &jobs[0];
    assert_eq!(
        check_package_source(j, false, false),
        Err("\"/w/package\" is not existed,please create this folder".to_string())
    );
    assert_eq!(
        check_package_source(j, true, false),
        Err("\"/w/package\" is not a folder,please create this folder".to_string())
    );
    assert_eq!(check_package_source(j, true, true), Ok(()));
    assert_eq!(
        check_dist(j, "/w/dist", false, false),
        Err("\"/w/package\" is not a folder,please confirm your dist path.".to_string())
    );
    assert_eq!(
        check_dist(j, "/w/dist", true, false),
        Err("\"/w/package\" is empty,please run build before artifact.".to_string())
    );
    assert_eq!(check_dist(j, "/w/dist", true, true), Ok(()));
    let ws = plan_artifacts(&a(None), "/w", &vec![pkg("a", Some("/w/a")), pkg("b", Some("/w/b"))], &vec![0, 1])
        .unwrap();
    assert_eq!(
        check_dist(&ws[0], "/w/a/dist", true, false),
        Err("\"/w/a/dist\" is empty,please run build before artifact.".to_string())
    );
}
