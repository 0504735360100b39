use ohrs::arch::Arch;
use ohrs::atomic::{
    archive_abi, bundled_lib_candidate, lib_path, profile_name, search_dir_path, unpack_marker_of,
    unpack_root_of, Linkage,
};

const LOONG: &str = "--sta-atomic and --dyn-atomic do not support loongarch64 because the bundled OHOS libatomic archive does not contain that ABI.";

#[test]
fn linkage_follows_the_flags() {
    assert_eq!(Linkage::from_flags(false, false), Ok(None));
    assert_eq!(Linkage::from_flags(true, false), Ok(Some(Linkage::Static)));
    assert_eq!(Linkage::from_flags(false, true), Ok(Some(Linkage::Dynamic)));
    assert_eq!(
        Linkage::from_flags(true, true),
        Err("--sta-atomic and --dyn-atomic cannot be used together.".to_string())
    );
    assert_eq!(Linkage::Static.file_name(), "libatomic.a");
    assert_eq!(Linkage::Dynamic.file_name(), "libatomic.so");
    assert_eq!(Linkage::Static.dir_name(), "static");
    assert_eq!(Linkage::Dynamic.dir_name(), "dynamic");
}

#[test]
fn the_archive_covers_three_abis() {
    assert_eq!(archive_abi(Arch::ARM64), Ok("arm64-v8a"));
    assert_eq!(archive_abi(Arch::ARM32), Ok("armeabi-v7a"));
    assert_eq!(archive_abi(Arch::X86_64), Ok("x86_64"));
    assert_eq!(archive_abi(Arch::LoongArch64), Err(LOONG.to_string()));
    assert_eq!(profile_name(true), "release");
    assert_eq!(profile_name(false), "debug");
}

#[test]
fn bundled_paths_live_under_the_target_directory() {
    let root = "/t/ohrs/atomic/OpenHarmony-6.0-Release-libatomic-ohos";
    assert_eq!(unpack_root_of("/t"), root);
    assert_eq!(unpack_marker_of("/t"), format!("{root}/.unpacked"));
    assert_eq!(
        bundled_lib_candidate("/t", true, Arch::ARM64, Linkage::Dynamic),
        Ok(format!("{root}/release/arm64-v8a/libatomic.so"))
    );
    assert_eq!(
        search_dir_path("/t", false, Arch::ARM32, Linkage::Static),
        Ok("/t/ohrs/atomic-link/static/debug/armeabi-v7a".to_string())
    );
    assert_eq!(search_dir_path("/t", false, Arch::LoongArch64, Linkage::Static), Err(LOONG.to_string()));
}

#[test]
fn a_missing_bundled_library_is_reported() {
    let root = "/t/ohrs/atomic/OpenHarmony-6.0-Release-libatomic-ohos";
    assert_eq!(
        lib_path("/t", false, Arch::X86_64, Linkage::Static, true),
        Ok(format!("{root}/debug/x86_64/libatomic.a"))
    );
    assert_eq!(
        lib_path("/t", false, Arch::X86_64, Linkage::Static, false),
        Err(format!(
            "Bundled OHOS libatomic.a not found for debug profile and x86_64: {root}/debug/x86_64/libatomic.a"
        ))
    );
    assert_eq!(lib_path("/t", true, Arch::LoongArch64, Linkage::Dynamic, true), Err(LOONG.to_string()));
}
