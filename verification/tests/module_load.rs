use ohrs::module_load::{c_string_bytes, load_with_info};

#[test]
fn accepts_mixed_str_and_string() {
    let path = "ets/Test";
    let bundle = "com.example.application";
    let entry = "entry";
    let (c_path, c_info) = load_with_info(path, &format!("{bundle}/{entry}")).unwrap();
    assert_eq!(c_path.as_slice(), b"ets/Test");
    assert_eq!(c_info.as_slice(), b"com.example.application/entry");
}

#[test]
fn strings_with_a_nul_byte_cannot_be_loaded() {
    assert_eq!(c_string_bytes("ab\0c\0"), Err(2));
    assert_eq!(c_string_bytes(""), Ok(Vec::new()));
    assert_eq!(c_string_bytes("é"), Ok(vec![0xc3, 0xa9]));
    assert_eq!(load_with_info("a\0b", "\0"), Err(1));
    assert_eq!(load_with_info("ab", "x\0"), Err(1));
    assert_eq!(load_with_info("", ""), Ok((Vec::new(), Vec::new())));
}
