use ohrs::needed::{parse_needed_libraries, NeededLibrariesError};

#[test]
fn needed_libraries_are_parsed_from_llvm_readobj_output() {
    let output = r#"
File: libexample.so
NeededLibraries [
  libc++_shared.so
  libc.so
]
"#;

    assert_eq!(
        parse_needed_libraries(output).unwrap(),
        vec!["libc++_shared.so", "libc.so"]
    );
}

#[test]
fn malformed_needed_libraries_output_is_rejected() {
    assert!(parse_needed_libraries("File: libexample.so").is_err());
    assert!(parse_needed_libraries("NeededLibraries [\nlibfoo.so").is_err());
}

#[test]
fn needed_libraries_accept_crlf_and_repeated_sections() {
    let output = "NeededLibraries [\r\n  liba.so\r\n\r\n]\r\nNeededLibraries [\n libb.so \n]";
    assert_eq!(parse_needed_libraries(output).unwrap(), vec!["liba.so", "libb.so"]);
}

#[test]
fn needed_libraries_section_left_open_is_an_error() {
    let output = "NeededLibraries [\nliba.so\n]\nNeededLibraries [\nlibb.so\n";
    assert_eq!(
        parse_needed_libraries(output),
        Err(NeededLibrariesError::IncompleteSection)
    );
}

#[test]
fn empty_needed_libraries_section_gives_no_names() {
    assert_eq!(parse_needed_libraries("NeededLibraries [\n]\n").unwrap(), Vec::<String>::new());
}
