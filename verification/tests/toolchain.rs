use ohrs::arch::Arch;
use ohrs::envmap::EnvMap;
use ohrs::toolchain::{
    append_env_with_flag, append_hms_link_flags, apply_hms_include_env, hos_sdk_dir,
    include_env_keys, replace_char_in, resolve_hms_paths, resolve_toolchain_paths, HmsPaths,
};

fn env(pairs: &[(&str, &str)]) -> EnvMap {
    EnvMap::from_pairs(pairs.iter().map(|(k, v)| (k.to_string(), v.to_string())).collect())
}

#[test]
fn toolchain_tools_live_in_bin() {
    let t = resolve_toolchain_paths("/ndk/native/llvm");
    assert_eq!(t.cc, "/ndk/native/llvm/bin/clang");
    assert_eq!(t.cxx, "/ndk/native/llvm/bin/clang++");
    assert_eq!(t.ranlib, "/ndk/native/llvm/bin/llvm-ranlib");
    assert_eq!(t.ar, "/ndk/native/llvm/bin/llvm-ar");
    assert_eq!(t.llvm_as, "/ndk/native/llvm/bin/llvm-as");
    assert_eq!(t.ld, "/ndk/native/llvm/bin/ld.lld");
    assert_eq!(t.strip, "/ndk/native/llvm/bin/llvm-strip");
    assert_eq!(t.objdump, "/ndk/native/llvm/bin/llvm-objdump");
    assert_eq!(t.objcopy, "/ndk/native/llvm/bin/llvm-objcopy");
    assert_eq!(t.nm, "/ndk/native/llvm/bin/llvm-nm");
    assert_eq!(t.readobj, "/ndk/native/llvm/bin/llvm-readobj");
    assert_eq!(t.bin_dir, "/ndk/native/llvm/bin");
    assert_eq!(t.lib_dir, "/ndk/native/llvm/lib");
}

#[test]
fn hms_paths_need_an_ndk_and_existing_directories() {
    let none = resolve_hms_paths("", Arch::ARM64, true, true);
    assert_eq!(none.include_dir, None);
    assert_eq!(none.lib, None);
    let both = resolve_hms_paths("/hms", Arch::ARM64, true, true);
    assert_eq!(both.include_dir, Some("/hms/native/sysroot/usr/include".to_string()));
    assert_eq!(both.lib, Some("/hms/native/sysroot/usr/lib/aarch64-linux-ohos".to_string()));
    let lib_only = resolve_hms_paths("/hms", Arch::X86_64, false, true);
    assert_eq!(lib_only.include_dir, None);
    assert_eq!(lib_only.lib, Some("/hms/native/sysroot/usr/lib/x86_64-linux-ohos".to_string()));
}

#[test]
fn hms_link_flags_are_appended_only_with_a_library_directory() {
    let mut flags = vec!["-D__MUSL__".to_string()];
    append_hms_link_flags(&mut flags, &HmsPaths { include_dir: None, lib: None });
    assert_eq!(flags, vec!["-D__MUSL__".to_string()]);
    append_hms_link_flags(&mut flags, &HmsPaths { include_dir: None, lib: Some("/l".to_string()) });
    assert_eq!(
        flags,
        vec!["-D__MUSL__".to_string(), "-L/l".to_string(), "-Wl,-rpath-link,/l".to_string()]
    );
}

#[test]
fn flags_are_appended_to_what_the_process_environment_holds() {
    let process = env(&[("TARGET_CFLAGS", "-O2"), ("EMPTY", "")]);
    let mut prepare = env(&[("TARGET_CFLAGS", "ignored")]);
    append_env_with_flag(&mut prepare, &process, "TARGET_CFLAGS", "-I/inc");
    append_env_with_flag(&mut prepare, &process, "EMPTY", "-I/inc");
    append_env_with_flag(&mut prepare, &process, "UNSET", "-I/inc");
    assert_eq!(prepare.get("TARGET_CFLAGS"), Some("-O2 -I/inc".to_string()));
    assert_eq!(prepare.get("EMPTY"), Some("-I/inc".to_string()));
    assert_eq!(prepare.get("UNSET"), Some("-I/inc".to_string()));
}

#[test]
fn include_flags_reach_c_cxx_and_bindgen() {
    let process = env(&[("TARGET_CXXFLAGS", "-g")]);
    let mut prepare = env(&[("KEEP", "1")]);
    let hms = HmsPaths { include_dir: Some("/hms/inc".to_string()), lib: None };
    apply_hms_include_env(&mut prepare, &hms, "aarch64-unknown-linux-ohos", &process);
    assert_eq!(prepare.get("KEEP"), Some("1".to_string()));
    assert_eq!(prepare.get("TARGET_CFLAGS"), Some("-I/hms/inc".to_string()));
    assert_eq!(prepare.get("TARGET_CXXFLAGS"), Some("-g -I/hms/inc".to_string()));
    assert_eq!(
        prepare.get("BINDGEN_EXTRA_CLANG_ARGS_aarch64_unknown_linux_ohos"),
        Some("-I/hms/inc".to_string())
    );
    assert_eq!(
        prepare.get("BINDGEN_EXTRA_CLANG_ARGS_AARCH64_UNKNOWN_LINUX_OHOS"),
        Some("-I/hms/inc".to_string())
    );
    assert_eq!(prepare.to_pairs().len(), 5);

    let mut untouched = env(&[("KEEP", "1")]);
    apply_hms_include_env(&mut untouched, &HmsPaths { include_dir: None, lib: None }, "x", &process);
    assert_eq!(untouched.to_pairs(), vec![("KEEP".to_string(), "1".to_string())]);
}

#[test]
fn include_keys_use_underscores_and_upper_case() {
    assert_eq!(
        include_env_keys("armv7-unknown-linux-ohos"),
        vec![
            "TARGET_CFLAGS".to_string(),
            "TARGET_CXXFLAGS".to_string(),
            "BINDGEN_EXTRA_CLANG_ARGS_armv7_unknown_linux_ohos".to_string(),
            "BINDGEN_EXTRA_CLANG_ARGS_ARMV7_UNKNOWN_LINUX_OHOS".to_string(),
        ]
    );
    assert_eq!(replace_char_in("a-b-c", '-', '_'), "a_b_c");
}

#[test]
fn the_harmony_ndk_is_looked_for_beside_the_openharmony_one() {
    assert_eq!(hos_sdk_dir("/sdk/openharmony", None), Some("/sdk/hms".to_string()));
    assert_eq!(
        hos_sdk_dir("/sdk/openharmony", Some("/elsewhere".to_string())),
        Some("/sdk/hms".to_string())
    );
    assert_eq!(hos_sdk_dir("", Some("/elsewhere".to_string())), Some("/elsewhere".to_string()));
    assert_eq!(hos_sdk_dir("/", None), None);
}
