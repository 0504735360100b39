use ohrs::doctor::{doctor_lines, render, resolve_rust_version, resolve_targets, words};

const TICK: &str = "\u{1b}[1m\u{1b}[32m✔\u{1b}[39m\u{1b}[0m";
const CROSS: &str = "\u{1b}[1m\u{1b}[31m✖\u{1b}[39m\u{1b}[0m";

#[test]
fn marks_are_bold_and_coloured() {
    assert_eq!(render(true), TICK);
    assert_eq!(render(false), CROSS);
}

#[test]
fn the_rust_version_is_the_second_word() {
    assert_eq!(resolve_rust_version("rustc 1.80.1 (3f5fd8dd4 2024-08-06)\n"), "1.80.1");
    assert_eq!(resolve_rust_version("rustc"), "0.0.0");
    assert_eq!(resolve_rust_version("  rustc \t 1.2.3"), "1.2.3");
    assert_eq!(words(" a  b\nc "), vec!["a".to_string(), "b".to_string(), "c".to_string()]);
}

#[test]
fn installed_targets_are_read_line_by_line() {
    assert_eq!(
        resolve_targets("aarch64-unknown-linux-ohos\r\nx86_64-unknown-linux-gnu\n"),
        vec!["aarch64-unknown-linux-ohos".to_string(), "x86_64-unknown-linux-gnu".to_string()]
    );
    assert_eq!(resolve_targets(""), Vec::<String>::new());
    assert_eq!(resolve_targets("a\n\nb"), vec!["a".to_string(), "".to_string(), "b".to_string()]);
}

#[test]
fn the_report_lists_each_requirement() {
    let lines = doctor_lines(
        "/ndk",
        "rustc 1.78.0 (9b00956e5 2024-04-29)",
        "aarch64-unknown-linux-ohos\nx86_64-unknown-linux-ohos\n",
    )
    .unwrap();
    assert_eq!(
        lines,
        vec![
            format!("{TICK}  Environment variable \u{1b}[32mOHOS_NDK_HOME\u{1b}[39m should be set."),
            format!("{TICK}  Rust version should be >= 1.78.0."),
            format!("{TICK}  Rustup target: \u{1b}[32maarch64-unknown-linux-ohos\u{1b}[39m should be installed."),
            format!("{CROSS}  Rustup target: \u{1b}[32marmv7-unknown-linux-ohos\u{1b}[39m should be installed."),
            format!("{TICK}  Rustup target: \u{1b}[32mx86_64-unknown-linux-ohos\u{1b}[39m should be installed."),
        ]
    );
}

#[test]
fn old_or_prerelease_compilers_fail_the_version_check() {
    let old = doctor_lines("", "rustc 1.77.2", "").unwrap();
    assert_eq!(old[0], format!("{CROSS}  Environment variable \u{1b}[32mOHOS_NDK_HOME\u{1b}[39m should be set."));
    assert_eq!(old[1], format!("{CROSS}  Rust version should be >= 1.78.0."));
    let pre = doctor_lines("", "rustc 1.78.0-nightly", "").unwrap();
    assert_eq!(pre[1], format!("{CROSS}  Rust version should be >= 1.78.0."));
    let newer = doctor_lines("", "rustc 2.0.0-beta", "").unwrap();
    assert_eq!(newer[1], format!("{TICK}  Rust version should be >= 1.78.0."));
}

#[test]
fn an_unparsable_version_is_an_error() {
    assert!(doctor_lines("/ndk", "rustc", "").is_ok());
    assert!(doctor_lines("/ndk", "rustc 1.x", "").is_err());
}
