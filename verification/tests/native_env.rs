use ohrs::arch::Arch;
use ohrs::envmap::EnvMap;
use ohrs::native_env::{base_flags, encoded_rustflags, native_build_env, toolchain_root, NativeBuildSetup};
use ohrs::toolchain::HmsPaths;

fn env(pairs: &[(&str, &str)]) -> EnvMap {
    EnvMap::from_pairs(pairs.iter().map(|(k, v)| (k.to_string(), v.to_string())).collect())
}

fn setup(arch: Arch) -> NativeBuildSetup {
    NativeBuildSetup {
        arch,
        ndk: "/ndk".to_string(),
        hos_ndk: String::new(),
        hos_ndk_exists: false,
        bisheng: false,
        hms: HmsPaths { include_dir: None, lib: None },
        soname: None,
        atomic_search_dir: None,
        tmp_path: Some("/tmp/defs".to_string()),
        build_target_name: None,
        full_rustflags_chain: true,
    }
}

#[test]
fn the_toolchain_is_llvm_unless_bisheng_is_asked_for() {
    assert_eq!(toolchain_root("/ndk", "", false, false), Ok("/ndk/native/llvm".to_string()));
    assert_eq!(toolchain_root("/ndk", "/hos", true, true), Ok("/hos/native/BiSheng".to_string()));
    let err = Err("Failed to get HarmonyOS NDK path while --bisheng is enabled.".to_string());
    assert_eq!(toolchain_root("/ndk", "", true, true), err);
    assert_eq!(toolchain_root("/ndk", "/hos", true, false), err);
}

#[test]
fn link_flags_cover_target_sysroot_and_options() {
    let hms = HmsPaths { include_dir: None, lib: Some("/hms/lib".to_string()) };
    assert_eq!(
        base_flags(Arch::ARM32, "/ndk", &hms, &Some("libx.so".to_string()), &Some("/atomic".to_string())),
        vec![
            "--target=arm-linux-ohos",
            "--sysroot=/ndk/native/sysroot",
            "-D__MUSL__",
            "-L/hms/lib",
            "-Wl,-rpath-link,/hms/lib",
            "-march=armv7-a",
            "-mfloat-abi=softfp",
            "-mtune=generic-armv7-a",
            "-mthumb",
            "-Wl,-soname,libx.so",
            "-L/atomic",
        ]
    );
}

#[test]
fn rustflags_are_encoded_with_the_unit_separator() {
    let flags = vec!["-a".to_string(), "-b".to_string()];
    assert_eq!(encoded_rustflags(&flags, ""), "-Clink-arg=-a\u{1f}-Clink-arg=-b");
    assert_eq!(encoded_rustflags(&flags, "-Cx"), "-Clink-arg=-a\u{1f}-Clink-arg=-b\u{1f}-Cx");
}

#[test]
fn the_native_environment_points_at_the_ndk() {
    let process = env(&[("PATH", "/usr/bin"), ("RUSTFLAGS", "-Cfoo"), ("ENCODED_RUSTFLAGS", "-Cbar")]);
    let e = native_build_env(&setup(Arch::ARM64), &process).unwrap();
    let get = |k: &str| e.get(k).unwrap_or_default();
    assert_eq!(get("CARGO_TARGET_AARCH64_UNKNOWN_LINUX_OHOS_LINKER"), "/ndk/native/llvm/bin/clang");
    assert_eq!(get("LIBCLANG_PATH"), "/ndk/native/llvm/lib");
    assert_eq!(get("CLANG_PATH"), "/ndk/native/llvm/bin/clang++");
    assert_eq!(get("CXXSTDLIB_AARCH64_UNKNOWN_LINUX_OHOS"), "c++");
    assert_eq!(get("TARGET_CC"), "/ndk/native/llvm/bin/clang");
    assert_eq!(get("TARGET_CXX"), "/ndk/native/llvm/bin/clang++");
    assert_eq!(get("TARGET_RANLIB"), "/ndk/native/llvm/bin/llvm-ranlib");
    assert_eq!(get("TARGET_AR"), "/ndk/native/llvm/bin/llvm-ar");
    assert_eq!(get("TARGET_AS"), "/ndk/native/llvm/bin/llvm-as");
    assert_eq!(get("TARGET_LD"), "/ndk/native/llvm/bin/ld.lld");
    assert_eq!(get("TARGET_STRIP"), "/ndk/native/llvm/bin/llvm-strip");
    assert_eq!(get("TARGET_OBJDUMP"), "/ndk/native/llvm/bin/llvm-objdump");
    assert_eq!(get("TARGET_OBJCOPY"), "/ndk/native/llvm/bin/llvm-objcopy");
    assert_eq!(get("TARGET_NM"), "/ndk/native/llvm/bin/llvm-nm");
    assert_eq!(
        get("CARGO_ENCODED_RUSTFLAGS"),
        "-Clink-arg=--target=aarch64-linux-ohos\u{1f}-Clink-arg=--sysroot=/ndk/native/sysroot\u{1f}-Clink-arg=-D__MUSL__\u{1f}-Cfoo"
    );
    assert_eq!(get("PATH"), "/ndk/native/llvm/bin:/usr/bin");
    assert_eq!(get("TYPE_DEF_TMP_PATH"), "/tmp/defs");
    assert_eq!(get("NAPI_BUILD_TARGET_NAME"), "entry");
    assert_eq!(
        get("OPENCV_CLANG_ARGS"),
        "--target=aarch64-linux-ohos --sysroot=/ndk/native/sysroot -D__MUSL__"
    );
    assert_eq!(get("DEP_ATOMIC"), "clang_rt.builtins");
    assert_eq!(e.to_pairs().len(), 20);
}

#[test]
fn cargo_runs_read_only_the_cargo_rustflags() {
    let process = env(&[("RUSTFLAGS", "-Cfoo"), ("CARGO_ENCODED_RUSTFLAGS", "-Cenc")]);
    let mut s = setup(Arch::X86_64);
    s.full_rustflags_chain = false;
    s.tmp_path = None;
    s.build_target_name = Some("app".to_string());
    let e = native_build_env(&s, &process).unwrap();
    assert_eq!(
        e.get("CARGO_ENCODED_RUSTFLAGS").unwrap(),
        "-Clink-arg=--target=x86_64-linux-ohos\u{1f}-Clink-arg=--sysroot=/ndk/native/sysroot\u{1f}-Clink-arg=-D__MUSL__\u{1f}-Cenc"
    );
    assert_eq!(e.get("PATH").unwrap(), "/ndk/native/llvm/bin:");
    assert_eq!(e.get("TYPE_DEF_TMP_PATH"), None);
    assert_eq!(e.get("NAPI_BUILD_TARGET_NAME").unwrap(), "app");
    let none = native_build_env(&setup(Arch::X86_64), &env(&[])).unwrap();
    assert!(none.get("CARGO_ENCODED_RUSTFLAGS").unwrap().ends_with("-Clink-arg=-D__MUSL__"));
}

#[test]
fn bisheng_without_a_harmony_ndk_is_refused() {
    let mut s = setup(Arch::ARM64);
    s.bisheng = true;
    assert_eq!(
        native_build_env(&s, &env(&[])).err(),
        Some("Failed to get HarmonyOS NDK path while --bisheng is enabled.".to_string())
    );
}
