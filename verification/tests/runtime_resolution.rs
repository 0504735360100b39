use ohrs::resolver::{
    resolve_runtime_libraries, ResolveAction, ResolveError, ResolveEvent, RuntimeResolver,
};
use ohrs::runtime::{validate_soname, RuntimeLibrary, SonameError};

fn strings(v: &[&str]) -> Vec<String> {
    v.iter().map(|s| s.to_string()).collect()
}

fn dirs(v: &[&str]) -> Vec<Option<String>> {
    v.iter().map(|s| Some(s.to_string())).collect()
}

fn expect_identify(r: RuntimeResolver, a: ResolveAction, path: &str) -> RuntimeResolver {
    assert_eq!(a, ResolveAction::Identify(path.to_string()));
    let (r, a) = r.step(ResolveEvent::Identity(Some(path.to_string())));
    assert_eq!(a, ResolveAction::ReadNeeded(path.to_string()));
    r
}

#[test]
fn sonames_cannot_escape_the_search_directory() {
    assert!(validate_soname("libexample.so").is_ok());
    assert!(validate_soname("../libexample.so").is_err());
    assert!(validate_soname("nested/libexample.so").is_err());
}

#[test]
fn sonames_that_are_not_names_are_refused() {
    assert_eq!(validate_soname(""), Err(SonameError::NotAFileName));
    assert_eq!(validate_soname("."), Err(SonameError::NotAFileName));
    assert_eq!(validate_soname(".."), Err(SonameError::NotAFileName));
    assert_eq!(validate_soname("/libc.so"), Err(SonameError::NotAFileName));
    assert_eq!(validate_soname("libc.so/"), Err(SonameError::NotAFileName));
    assert_eq!(validate_soname("libc++_shared.so"), Ok(()));
}

#[test]
fn runtime_dependencies_are_resolved_recursively_and_system_libraries_are_ignored() {
    let roots = strings(&["/out/libroot.so", "/out/libroot.a", "/out/build-script"]);
    let (r, a) = resolve_runtime_libraries(&roots, &dirs(&["/dep"]), &dirs(&["/rt"]), &dirs(&["/sys"]));
    let r = expect_identify(r, a, "/out/libroot.so");
    let (r, a) = r.step(ResolveEvent::Needed(Ok(
        "File: libroot.so\nNeededLibraries [\n  libthird.so\n  libc++_shared.so\n  libc.so\n]\n".to_string(),
    )));
    assert_eq!(
        a,
        ResolveAction::Probe(strings(&[
            "/out/libthird.so",
            "/dep/libthird.so",
            "/rt/libthird.so",
            "/sys/libthird.so"
        ]))
    );
    let (r, a) = r.step(ResolveEvent::Probed(vec![false, true, false, false]));
    assert_eq!(
        a,
        ResolveAction::Probe(strings(&[
            "/out/libc++_shared.so",
            "/dep/libc++_shared.so",
            "/rt/libc++_shared.so",
            "/sys/libc++_shared.so"
        ]))
    );
    let (r, a) = r.step(ResolveEvent::Probed(vec![false, false, true, false]));
    assert_eq!(
        a,
        ResolveAction::Probe(strings(&["/out/libc.so", "/dep/libc.so", "/rt/libc.so", "/sys/libc.so"]))
    );
    let (r, a) = r.step(ResolveEvent::Probed(vec![false, false, false, true]));
    let r = expect_identify(r, a, "/dep/libthird.so");
    let (r, a) = r.step(ResolveEvent::Needed(Ok(
        "NeededLibraries [\n  libnested.so\n  libc.so\n]\n".to_string(),
    )));
    assert_eq!(
        a,
        ResolveAction::Probe(strings(&[
            "/dep/libnested.so",
            "/dep/libnested.so",
            "/rt/libnested.so",
            "/sys/libnested.so"
        ]))
    );
    let (r, a) = r.step(ResolveEvent::Probed(vec![true, true, false, false]));
    let r = expect_identify(r, a, "/rt/libc++_shared.so");
    let (r, a) = r.step(ResolveEvent::Needed(Ok("NeededLibraries [\n]\n".to_string())));
    let r = expect_identify(r, a, "/dep/libnested.so");
    let (_r, a) = r.step(ResolveEvent::Needed(Ok("NeededLibraries [\n]\n".to_string())));
    assert_eq!(
        a,
        ResolveAction::Done(vec![
            RuntimeLibrary { source: "/dep/libthird.so".to_string(), soname: "libthird.so".to_string() },
            RuntimeLibrary {
                source: "/rt/libc++_shared.so".to_string(),
                soname: "libc++_shared.so".to_string()
            },
            RuntimeLibrary { source: "/dep/libnested.so".to_string(), soname: "libnested.so".to_string() },
        ])
    );
}

#[test]
fn unresolved_runtime_dependencies_fail_the_build() {
    let (r, a) = resolve_runtime_libraries(&strings(&["/tmp/t/libroot.so"]), &[], &[], &[]);
    let r = expect_identify(r, a, "/tmp/t/libroot.so");
    let (r, a) = r.step(ResolveEvent::Needed(Ok("NeededLibraries [\nlibmissing.so\n]".to_string())));
    assert_eq!(a, ResolveAction::Probe(strings(&["/tmp/t/libmissing.so"])));
    let (_r, a) = r.step(ResolveEvent::Probed(vec![false]));
    match a {
        ResolveAction::Failed(e) => {
            let text = e.message();
            assert!(text.contains("libmissing.so"));
            assert!(text.contains("libroot.so"));
            assert_eq!(
                text,
                "Unable to resolve runtime library 'libmissing.so' required by /tmp/t/libroot.so"
            );
        }
        other => panic!("unexpected action: {other:?}"),
    }
}

#[test]
fn files_seen_twice_are_examined_once() {
    let roots = strings(&["/out/liba.so", "/out/link-to-a.so"]);
    let (r, a) = resolve_runtime_libraries(&roots, &[], &[], &[]);
    let r = expect_identify(r, a, "/out/liba.so");
    let (r, a) = r.step(ResolveEvent::Needed(Ok("NeededLibraries [\n]".to_string())));
    assert_eq!(a, ResolveAction::Identify("/out/link-to-a.so".to_string()));
    let (_r, a) = r.step(ResolveEvent::Identity(Some("/out/liba.so".to_string())));
    assert_eq!(a, ResolveAction::Done(Vec::new()));
}

#[test]
fn a_name_needed_twice_is_probed_once() {
    let (r, a) = resolve_runtime_libraries(&strings(&["lib/libroot.so"]), &[], &[], &dirs(&["/sys"]));
    let r = expect_identify(r, a, "lib/libroot.so");
    let (r, a) = r.step(ResolveEvent::Needed(Ok("NeededLibraries [\nlibm.so\nlibm.so\n]".to_string())));
    assert_eq!(a, ResolveAction::Probe(strings(&["lib/libm.so", "/sys/libm.so"])));
    let (_r, a) = r.step(ResolveEvent::Probed(vec![false, true]));
    assert_eq!(a, ResolveAction::Done(Vec::new()));
}

#[test]
fn missing_search_directories_are_dropped_and_repeats_merged() {
    let probes = vec![None, Some("/dep".to_string()), Some("/dep".to_string())];
    let (r, a) = resolve_runtime_libraries(&strings(&["libroot.so"]), &probes, &[], &[]);
    let r = expect_identify(r, a, "libroot.so");
    let (_r, a) = r.step(ResolveEvent::Needed(Ok("NeededLibraries [\nlibx.so\n]".to_string())));
    assert_eq!(a, ResolveAction::Probe(strings(&["libx.so", "/dep/libx.so"])));
}

#[test]
fn each_failure_has_its_own_report() {
    let (r, a) = resolve_runtime_libraries(&strings(&["/o/libr.so"]), &[], &[], &[]);
    let r = expect_identify(r, a, "/o/libr.so");
    let (_r, a) = r.step(ResolveEvent::Needed(Err(Some("exit status 1".to_string()))));
    let e = ResolveError::ReadFailed { requester: "/o/libr.so".to_string(), reason: Some("exit status 1".to_string()) };
    assert_eq!(e.message(), "Failed to inspect runtime dependencies for /o/libr.so: exit status 1");
    assert_eq!(a, ResolveAction::Failed(e));

    let (r, a) = resolve_runtime_libraries(&strings(&["/o/libr.so"]), &[], &[], &[]);
    let r = expect_identify(r, a, "/o/libr.so");
    let (_r, a) = r.step(ResolveEvent::Needed(Err(None)));
    let e = ResolveError::ReadFailed { requester: "/o/libr.so".to_string(), reason: None };
    assert_eq!(e.message(), "Failed to inspect runtime dependencies for /o/libr.so");
    assert_eq!(a, ResolveAction::Failed(e));

    let (r, a) = resolve_runtime_libraries(&strings(&["/o/libr.so"]), &[], &[], &[]);
    let r = expect_identify(r, a, "/o/libr.so");
    let (_r, a) = r.step(ResolveEvent::Needed(Ok("File: libr.so".to_string())));
    assert_eq!(a, ResolveAction::Failed(ResolveError::Malformed { requester: "/o/libr.so".to_string() }));
    assert_eq!(
        ResolveError::Malformed { requester: "/o/libr.so".to_string() }.message(),
        "Failed to parse runtime dependencies for /o/libr.so"
    );

    let (r, a) = resolve_runtime_libraries(&strings(&["/o/libr.so"]), &[], &[], &[]);
    let r = expect_identify(r, a, "/o/libr.so");
    let (r, a) = r.step(ResolveEvent::Needed(Ok("NeededLibraries [\n../evil.so\n]".to_string())));
    let e = ResolveError::InvalidSoname { soname: "../evil.so".to_string() };
    assert_eq!(e.message(), "Invalid runtime library name reported by ELF: ../evil.so");
    assert_eq!(a, ResolveAction::Failed(e));
    let (_r, a) = r.step(ResolveEvent::Probed(Vec::new()));
    assert_eq!(a, ResolveAction::Failed(ResolveError::OutOfTurn));
}

#[test]
fn no_shared_object_means_nothing_to_ship() {
    let (_r, a) = resolve_runtime_libraries(&strings(&["/o/libx.a", "/o/.so"]), &[], &[], &[]);
    assert_eq!(a, ResolveAction::Done(Vec::new()));
}
