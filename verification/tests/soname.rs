use ohrs::soname::{normalize_soname, validate_soname};

fn versioned(s: &str) -> String {
    format!("SONAME format with version number is not supported: '{s}'. Please use format like 'libxx.so' or 'xx'.")
}

#[test]
fn versioned_sonames_are_refused() {
    assert_eq!(validate_soname("libfoo.so.1"), Err(versioned("libfoo.so.1")));
    assert_eq!(validate_soname("libfoo.so.1.2"), Err(versioned("libfoo.so.1.2")));
    assert_eq!(validate_soname("libfoo.so"), Ok(()));
    assert_eq!(validate_soname("libfoo.so.x"), Ok(()));
    assert_eq!(validate_soname("libfoo.so."), Ok(()));
    assert_eq!(validate_soname("a.so.b.so.1"), Err(versioned("a.so.b.so.1")));
    assert_eq!(validate_soname("libfoo.so.x.so.1"), Err(versioned("libfoo.so.x.so.1")));
    assert_eq!(validate_soname("a.so.so.1"), Err(versioned("a.so.so.1")));
    assert_eq!(validate_soname("a.so.x.so"), Ok(()));
}

#[test]
fn bare_names_are_completed() {
    assert_eq!(normalize_soname("foo"), Ok("libfoo.so".to_string()));
    assert_eq!(normalize_soname("foo.so"), Ok("libfoo.so".to_string()));
    assert_eq!(normalize_soname("libfoo.so"), Ok("libfoo.so".to_string()));
    assert_eq!(normalize_soname("libfoo"), Ok("liblibfoo.so".to_string()));
    assert_eq!(normalize_soname("libfoo.sox"), Ok("libfoo.sox".to_string()));
    assert_eq!(normalize_soname("libfoo.so.2"), Err(versioned("libfoo.so.2")));
}

#[test]
fn completing_a_completed_name_changes_nothing() {
    for s in ["foo", "foo.so", "libbar.so", "x.s", "lib", ".so", "foo.so."] {
        let once = normalize_soname(s).unwrap();
        assert_eq!(normalize_soname(&once), Ok(once.clone()));
    }
}
