use ohrs::arch::Arch;
use ohrs::cargo_plan::{plan_cargo, CargoRun};
use ohrs::options::CargoArgs;
use ohrs::workspace::PackageInfo;

fn args(v: &[&str]) -> Vec<String> {
    v.iter().map(|s| s.to_string()).collect()
}

fn cargo(arch: Option<Vec<Arch>>, disable_target: bool, a: &[&str]) -> CargoArgs {
    CargoArgs { arch, bisheng: false, disable_target, args: args(a), package: None, soname: None }
}

fn pkg(name: &str, version: &str) -> PackageInfo {
    PackageInfo {
        id: name.to_string(),
        name: name.to_string(),
        version: version.to_string(),
        manifest_path: format!("/w/{name}/Cargo.toml"),
        manifest_dir: Some(format!("/w/{name}")),
        manifest_dir_canonical: None,
        uses_napi_derive: true,
    }
}

fn run_args(runs: &[CargoRun]) -> Vec<Vec<String>> {
    runs.iter().map(|r| r.args.clone()).collect()
}

#[test]
fn a_single_package_runs_once_per_architecture() {
    let a = cargo(Some(vec![Arch::ARM64, Arch::LoongArch64]), false, &["build", "--release"]);
    let runs = plan_cargo(&a, true, &vec![], &vec![]).unwrap();
    assert_eq!(runs.len(), 2);
    assert_eq!(runs[0].arch, Arch::ARM64);
    assert_eq!(runs[0].package, None);
    assert!(runs[0].first_of_package);
    assert!(!runs[1].first_of_package);
    assert_eq!(
        run_args(&runs),
        vec![
            args(&["build", "--target", "aarch64-unknown-linux-ohos", "--release"]),
            args(&[
                "+nightly",
                "build",
                "--target",
                "loongarch64-unknown-linux-ohos",
                "-Z",
                "build-std",
                "--release"
            ]),
        ]
    );
}

#[test]
fn arm64_is_the_default_architecture() {
    let runs = plan_cargo(&cargo(None, false, &["check"]), true, &vec![], &vec![]).unwrap();
    assert_eq!(run_args(&runs), vec![args(&["check", "--target", "aarch64-unknown-linux-ohos"])]);
}

#[test]
fn workspace_packages_are_named_by_name_and_version() {
    let pkgs = vec![pkg("a", "0.1.0"), pkg("b", "2.0.0")];
    let runs = plan_cargo(&cargo(None, false, &["build"]), true, &pkgs, &vec![0, 1]).unwrap();
    assert_eq!(
        run_args(&runs),
        vec![
            args(&["build", "-p", "a@0.1.0", "--target", "aarch64-unknown-linux-ohos"]),
            args(&["build", "-p", "b@2.0.0", "--target", "aarch64-unknown-linux-ohos"]),
        ]
    );
    assert_eq!(runs[1].package, Some("b".to_string()));
    assert!(runs[1].first_of_package);
}

#[test]
fn a_package_argument_selects_and_is_not_repeated() {
    let pkgs = vec![pkg("a", "0.1.0"), pkg("b", "2.0.0")];
    let runs = plan_cargo(&cargo(None, false, &["build", "-p", "b"]), true, &pkgs, &vec![0, 1]).unwrap();
    assert_eq!(run_args(&runs), vec![args(&["build", "--target", "aarch64-unknown-linux-ohos", "-p", "b"])]);
    let err = plan_cargo(&cargo(None, false, &["build", "--package", "zz"]), true, &pkgs, &vec![0, 1]);
    assert_eq!(err.err(), Some("Package 'zz' not found in workspace".to_string()));
}

#[test]
fn disabling_the_target_takes_it_from_the_arguments() {
    let runs =
        plan_cargo(&cargo(None, true, &["build", "--target", "x86_64-unknown-linux-ohos"]), true, &vec![], &vec![])
            .unwrap();
    assert_eq!(runs.len(), 1);
    assert_eq!(runs[0].arch, Arch::X86_64);
    assert_eq!(runs[0].args, args(&["build", "--target", "x86_64-unknown-linux-ohos"]));
    let other = plan_cargo(&cargo(None, true, &["build", "--target", "wasm32"]), true, &vec![], &vec![]);
    assert_eq!(other.err(), Some("Only support ohos target".to_string()));
    let missing = plan_cargo(&cargo(None, true, &["build", "--target"]), true, &vec![], &vec![]);
    assert_eq!(missing.err(), Some("You don't provide any target for current command.".to_string()));
}

#[test]
fn missing_ndk_or_command_stops_the_command() {
    assert_eq!(
        plan_cargo(&cargo(None, false, &["build"]), false, &vec![], &vec![]).err(),
        Some("Failed to get the OHOS_NDK_HOME environment variable, please make sure you have set it.".to_string())
    );
    assert_eq!(
        plan_cargo(&cargo(None, false, &[]), true, &vec![], &vec![]).err(),
        Some("You don't provide any command for current command.".to_string())
    );
}

#[test]
fn the_soname_is_completed_or_refused() {
    let mut a = cargo(None, false, &["build"]);
    a.soname = Some("foo".to_string());
    let runs = plan_cargo(&a, true, &vec![], &vec![]).unwrap();
    assert_eq!(runs[0].soname, Some("libfoo.so".to_string()));
    a.soname = Some("libfoo.so.1".to_string());
    assert!(plan_cargo(&a, true, &vec![], &vec![]).is_err());
}

#[test]
fn a_disabled_target_runs_once_per_package() {
    let a = cargo(Some(vec![Arch::ARM32, Arch::ARM64]), true, &["build", "--target", "aarch64-unknown-linux-ohos"]);
    let runs = plan_cargo(&a, true, &vec![], &vec![]).unwrap();
    assert_eq!(runs.len(), 1);
    assert_eq!(runs[0].arch, Arch::ARM64);
    assert!(runs[0].first_of_package);
    let pkgs = vec![pkg("a", "0.1.0"), pkg("b", "0.2.0")];
    let runs = plan_cargo(&a, true, &pkgs, &vec![0, 1]).unwrap();
    assert_eq!(runs.len(), 2);
    assert!(runs.iter().all(|r| r.first_of_package && r.arch == Arch::ARM64));
    assert_eq!(runs[1].package, Some("b".to_string()));
}
