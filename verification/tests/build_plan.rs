use ohrs::arch::Arch;
use ohrs::build_plan::{
    artifact_libraries, atomic_release, build_arches, build_cargo_args, copies_artifact, copy_decision,
    init_args, package_dist, parent_dirs, select_build_packages, strip_tool, type_def_dir, type_def_file,
};
use ohrs::envmap::EnvMap;
use ohrs::hash::{lower_hex, short_hash, short_hex};
use ohrs::workspace::PackageInfo;

fn s(v: &[&str]) -> Vec<String> {
    v.iter().map(|x| x.to_string()).collect()
}

fn pkg(name: &str, version: &str) -> PackageInfo {
    PackageInfo {
        id: name.to_string(),
        name: name.to_string(),
        version: version.to_string(),
        manifest_path: format!("/w/{name}/Cargo.toml"),
        manifest_dir: Some(format!("/w/{name}")),
        manifest_dir_canonical: None,
        uses_napi_derive: true,
    }
}

#[test]
fn release_is_added_once_and_only_with_cargo_arguments() {
    assert_eq!(init_args(true, &Some(s(&["-v"]))), s(&["build", "--release"]));
    assert_eq!(init_args(true, &Some(s(&["--release"]))), s(&["build"]));
    assert_eq!(init_args(true, &None), s(&["build"]));
    assert_eq!(init_args(false, &Some(vec![])), s(&["build"]));
}

#[test]
fn short_hashes_are_eight_hex_digits_of_sha256() {
    assert_eq!(short_hash("/work/a/Cargo.toml"), "b5a5e97a");
    assert_eq!(short_hash("/w/Cargo.toml"), "e968e68e");
    assert_eq!(lower_hex(&[0x00, 0x0f, 0xa0, 0xff]), "000fa0ff");
    assert_eq!(short_hex(&[0xde, 0xad, 0xbe, 0xef, 0x01]), "deadbeef");
}

#[test]
fn type_definitions_go_to_per_package_temporary_files() {
    assert_eq!(
        type_def_file("/tmp", "a", "/work/a/Cargo.toml", true, "123"),
        "/tmp/a-b5a5e97a.napi_type_def.tmp"
    );
    assert_eq!(
        type_def_file("/tmp", "a", "/work/a/Cargo.toml", false, "123"),
        "/tmp/a-b5a5e97a.napi_type_def_123.tmp"
    );
    assert_eq!(type_def_dir("/target", "a", "/work/a/Cargo.toml", true, "9"), "/target/ohos-rs/a-b5a5e97a");
    assert_eq!(
        type_def_dir("/target", "a", "/work/a/Cargo.toml", false, "9"),
        "/target/ohos-rs/a-b5a5e97a_9"
    );
}

#[test]
fn package_selection_follows_the_filter() {
    let ws = vec![pkg("a", "1.0.0"), pkg("b", "1.0.0")];
    assert_eq!(select_build_packages(&ws, &None, &None), Ok(Some(vec![0, 1])));
    assert_eq!(select_build_packages(&ws, &None, &Some("b".to_string())), Ok(Some(vec![1])));
    assert_eq!(
        select_build_packages(&ws, &None, &Some("c".to_string())),
        Err("Package 'c' not found in workspace".to_string())
    );
    let current = Some(pkg("p", "1.0.0"));
    assert_eq!(select_build_packages(&vec![], &current, &None), Ok(None));
    assert_eq!(select_build_packages(&vec![], &current, &Some("p".to_string())), Ok(None));
    assert_eq!(
        select_build_packages(&vec![], &current, &Some("q".to_string())),
        Err("Package 'q' not found. Current package is 'p'".to_string())
    );
    assert_eq!(select_build_packages(&vec![], &None, &None), Err("No package to build".to_string()));
}

#[test]
fn several_packages_get_their_own_output_directories() {
    assert_eq!(package_dist("/w/dist", "/w", &Some("/w/a".to_string()), true), "/w/a/dist");
    assert_eq!(package_dist("/w/dist", "/w", &Some("/w/a".to_string()), false), "/w/dist");
    assert_eq!(package_dist("/w/x/dist", "/w", &Some("/w/a".to_string()), true), "/w/x/dist");
    assert_eq!(package_dist("/w/dist", "/w", &None, true), "/w/dist");
}

#[test]
fn architectures_are_built_in_a_fixed_order() {
    assert_eq!(build_arches(&None), vec![Arch::ARM64, Arch::ARM32, Arch::X86_64]);
    assert_eq!(
        build_arches(&Some(vec![Arch::LoongArch64, Arch::X86_64, Arch::X86_64])),
        vec![Arch::X86_64, Arch::LoongArch64]
    );
    assert_eq!(build_arches(&Some(vec![])), Vec::<Arch>::new());
}

#[test]
fn cargo_build_arguments_follow_the_architecture() {
    let init = s(&["build", "--release"]);
    assert_eq!(
        build_cargo_args(Arch::ARM64, &init, &Some(pkg("a", "0.2.0")), 2, &s(&["-v"])),
        s(&[
            "build",
            "--release",
            "--target",
            "aarch64-unknown-linux-ohos",
            "--message-format=json-render-diagnostics",
            "-p",
            "a@0.2.0",
            "-v"
        ])
    );
    assert_eq!(
        build_cargo_args(Arch::LoongArch64, &init, &Some(pkg("a", "0.2.0")), 1, &s(&[])),
        s(&[
            "+nightly",
            "build",
            "--release",
            "-Z",
            "build-std",
            "--target",
            "loongarch64-unknown-linux-ohos",
            "--message-format=json-render-diagnostics"
        ])
    );
    assert_eq!(
        build_cargo_args(Arch::X86_64, &init, &Some(pkg("a", "0.2.0")), 3, &s(&["-p", "a"])),
        s(&[
            "build",
            "--release",
            "--target",
            "x86_64-unknown-linux-ohos",
            "--message-format=json-render-diagnostics",
            "-p",
            "a"
        ])
    );
    assert!(atomic_release(&s(&["build"]), &s(&["--release"])));
    assert!(!atomic_release(&s(&["build"]), &s(&["-r"])));
}

#[test]
fn static_libraries_are_copied_only_on_request() {
    assert!(copies_artifact("/o/libx.so", false));
    assert!(!copies_artifact("/o/libx.a", false));
    assert!(copies_artifact("/o/libx.a", true));
}

#[test]
fn each_output_name_comes_from_one_file() {
    let mut copied = EnvMap::new();
    assert_eq!(copy_decision(&copied, "libx.so", "/real/libx.so", "/o/libx.so"), Ok(true));
    copied.insert("libx.so".to_string(), "/real/libx.so".to_string());
    assert_eq!(copy_decision(&copied, "libx.so", "/real/libx.so", "/link/libx.so"), Ok(false));
    assert_eq!(
        copy_decision(&copied, "libx.so", "/other/libx.so", "/other/libx.so"),
        Err("Multiple artifacts resolve to 'libx.so': /real/libx.so and /other/libx.so".to_string())
    );
}

#[test]
fn only_the_packages_own_libraries_are_collected() {
    let files = s(&["/t/liba.so", "/t/liba.a", "/t/liba.rlib", "/t/libgone.so"]);
    let present = vec![true, true, true, false];
    assert_eq!(artifact_libraries("pkg-a", "pkg-a", &files, &present), s(&["/t/liba.so", "/t/liba.a"]));
    assert_eq!(artifact_libraries("pkg-b", "pkg-a", &files, &present), Vec::<String>::new());
    assert_eq!(parent_dirs(&s(&["/t/a.so", "b.so", "/"])), s(&["/t", ""]));
    assert_eq!(strip_tool("/ndk"), "/ndk/native/llvm/bin/llvm-strip");
}
