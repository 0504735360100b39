use ohrs::arch::{validate_arch, Arch};
use ohrs::ark::{ArkRuntime, AsyncBlockBuilder, Env, EventLoopMode, EventMode, SendableResolver};
use ohrs::cli::BuildArg;
use ohrs::ohos_setup::{arkvm_directives, setup_directives};
use ohrs::publish::{publish_output, publish_target, remove_har, PublishOutput};
use ohrs::text::contains_text;

#[test]
fn architecture_names_are_checked() {
    assert_eq!(validate_arch("aarch"), Ok("aarch".to_string()));
    assert_eq!(validate_arch("x64"), Ok("x64".to_string()));
    assert_eq!(
        validate_arch("mips"),
        Err("mips is not supported, just support: aarch arm x64".to_string())
    );
    assert_eq!(Arch::parse("arm32"), Some(Arch::ARM32));
    assert_eq!(Arch::parse("x86_64-unknown-linux-ohos"), Some(Arch::X86_64));
    assert_eq!(Arch::parse("sparc"), None);
    assert_eq!("arm64".parse::<Arch>(), Ok(Arch::ARM64));
    assert!("sparc".parse::<Arch>().is_err());
    assert_eq!(Arch::ARM32.to_arch(), "armeabi-v7a");
    assert_eq!(Arch::LoongArch64.rust_link_target(), "LOONGARCH64_UNKNOWN_LINUX_OHOS");
}

#[test]
fn stripping_defaults_to_release_builds() {
    let mut a = BuildArg::default();
    assert!(!a.wants_strip());
    a.release = true;
    assert!(a.wants_strip());
    a.strip = Some(false);
    assert!(!a.wants_strip());
}

#[test]
fn the_published_archive_is_found_from_the_working_directory() {
    remove_har();
    assert_eq!(publish_target("/w", &None), "/w/package.har");
    assert_eq!(publish_target("/w", &Some("out/x.har".to_string())), "/w/out/x.har");
    assert_eq!(publish_target("/w", &Some("/abs/x.har".to_string())), "/abs/x.har");
}

#[test]
fn runtimes_over_an_existing_environment_are_not_destroyed() {
    let r = ArkRuntime::new_with_env(Env { handle: 7 });
    assert_eq!(r.env, Env { handle: 7 });
    assert!(!r.destroys_env_on_drop());
    assert_eq!(EventLoopMode::Blocking.to_event_mode(), EventMode::Default);
    assert_eq!(EventLoopMode::NonBlocking.to_event_mode(), EventMode::NoWait);
}

#[test]
fn async_blocks_keep_their_future_and_dispose_step() {
    let b: AsyncBlockBuilder<u32, u32, fn(Env) -> ()> = AsyncBlockBuilder::new(5);
    let _c: AsyncBlockBuilder<u32, u32, fn(Env) -> ()> = AsyncBlockBuilder::with(6);
    let _d = b.with_dispose(|_e: Env| ());
    let r = SendableResolver::new(|e: Env, d: u32| e.handle + u64::from(d));
    assert_eq!(r.resolve(Env { handle: 2 }, 3), 5);
}

#[test]
fn build_scripts_point_at_the_ndk_libraries() {
    assert_eq!(
        setup_directives("/ndk", "armv7-unknown-linux-ohos"),
        vec![
            "cargo:rustc-link-search=/ndk/native/sysroot/usr/lib/arm-linux-ohos".to_string(),
            "cargo:rustc-link-search=/ndk/native/llvm/lib/arm-linux-ohos".to_string(),
            "cargo:rustc-link-lib=dylib=ace_napi.z".to_string(),
        ]
    );
    assert_eq!(setup_directives("/ndk", "x86_64-apple-darwin")[0], "cargo:rustc-link-search=/ndk/native/sysroot/usr/lib/");
}

#[test]
fn arkvm_test_builds_link_the_host_library() {
    assert_eq!(
        arkvm_directives(&None, &Some("/bundle".to_string()), "linux"),
        Ok(vec![
            "cargo:rerun-if-env-changed=ARK_HOST_BUNDLE_DIR".to_string(),
            "cargo:rerun-if-env-changed=ARK_ACE_NAPI_LIB".to_string(),
            "cargo:rustc-link-search=native=/bundle".to_string(),
            "cargo:rustc-cdylib-link-arg=-Wl,--no-as-needed".to_string(),
            "cargo:rustc-cdylib-link-arg=/bundle/libace_napi.so".to_string(),
            "cargo:rustc-cdylib-link-arg=-Wl,--as-needed".to_string(),
        ])
    );
    assert_eq!(
        arkvm_directives(&Some("/l/libace.so".to_string()), &None, "macos").unwrap()[3],
        "cargo:rustc-link-lib=dylib=ace_napi"
    );
    assert_eq!(
        arkvm_directives(&None, &None, "linux"),
        Err("ARK_HOST_BUNDLE_DIR or ARK_ACE_NAPI_LIB must be set when feature `arkvm-test` is enabled".to_string())
    );
    assert_eq!(
        arkvm_directives(&Some("/".to_string()), &None, "linux"),
        Err("ARK_ACE_NAPI_LIB must point to a file inside a directory".to_string())
    );
}

#[test]
fn text_is_found_anywhere_in_a_chunk() {
    assert!(contains_text("hello", "llo"));
    assert!(contains_text("hello", "he"));
    assert!(contains_text("hello", ""));
    assert!(contains_text("", ""));
    assert!(!contains_text("", "a"));
    assert!(!contains_text("hel", "hello"));
    assert!(!contains_text("hello", "lol"));
}

#[test]
fn publish_output_is_skipped_shown_or_ends_the_reading() {
    assert_eq!(publish_output("warn: key_path error. retrying"), PublishOutput::Skip);
    assert_eq!(publish_output("key_path error. then private key:"), PublishOutput::Skip);
    assert_eq!(publish_output("Please input private key: "), PublishOutput::ShowAndStop);
    assert_eq!(publish_output("uploading package.har"), PublishOutput::Show);
    assert_eq!(publish_output("private key"), PublishOutput::Show);
}

#[test]
fn white_space_is_what_std_calls_white_space() {
    for c in (0u32..=0x10FFFF).filter_map(char::from_u32) {
        assert_eq!(ohrs::text::trim_chars(&[c]).is_empty(), c.is_whitespace(), "{:?}", c);
    }
}
