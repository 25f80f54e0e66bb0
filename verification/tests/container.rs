use eof_container::hex::from_hex;
use eof_container::validator::Validator;

fn is_invalid_with_error(code: Vec<u8>, expected_error: &str) {
    let validator = Validator::new();
    let mut err_message: &str = "";

    let result = validator.validate_eof(code);
    let error = result.is_err();
    match result {
        Err(e) => err_message = e,
        Ok(_) => {}
    }
    assert_eq!(error, true);
    assert_eq!(expected_error == err_message, true);
}

#[test]
fn test_legacy_contracts() {
    let validator = Validator::new();

    assert_eq!(validator.is_valid_container(&from_hex("")), true);
    assert_eq!(validator.is_valid_container(&from_hex("00")), true);
    assert_eq!(validator.is_valid_container(&from_hex("ef")), true);
}

#[test]
fn test_no_eof_magic() {
    let validator = Validator::new();

    for i in 1..=255 {
        let mut code = vec![0xef];
        code.push(i);
        assert_eq!(validator.is_valid_container(&code), true);
    }
}

#[test]
fn test_eof1_container() {
    is_invalid_with_error(from_hex("ef00"), "invalid version");
    is_invalid_with_error(from_hex("ef0001"), "no section terminator");
    is_invalid_with_error(from_hex("ef0000"), "invalid version");
    is_invalid_with_error(from_hex("ef0002 010001 00 fe"), "invalid version"); // Valid except version
    is_invalid_with_error(from_hex("ef0001 00"), "no code section"); // Only terminator
    is_invalid_with_error(
        from_hex("ef0001 010001 00 fe aabbccdd"),
        "container size not equal to sum of section sizes",
    ); // Trailing bytes
    is_invalid_with_error(from_hex("ef000101"), "truncated section size");
    is_invalid_with_error(from_hex("ef000101000102"), "truncated section size");
    is_invalid_with_error(from_hex("ef000103"), "invalid section id");
    is_invalid_with_error(from_hex("ef00010100"), "truncated section size");
    is_invalid_with_error(from_hex("ef00010100010200"), "truncated section size");
    is_invalid_with_error(from_hex("ef000101000000"), "empty section");
    is_invalid_with_error(from_hex("ef000101000102000000fe"), "empty section");
    is_invalid_with_error(from_hex("ef0001010001"), "no section terminator");
    is_invalid_with_error(
        from_hex("ef000101000100"),
        "container size not equal to sum of section sizes",
    ); // Missing section contents
    is_invalid_with_error(from_hex("ef000102000100aa"), "data section preceding code section"); // Only data section
    is_invalid_with_error(from_hex("ef000101000101000100fefe"), "multiple sections with same id"); // Multiple code sections
    is_invalid_with_error(
        from_hex("ef000101000102000102000100feaabb"),
        "multiple sections with same id",
    ); // Multiple data sections
    is_invalid_with_error(
        from_hex("ef000101000101000102000102000100fefeaabb"),
        "multiple sections with same id",
    ); // Multiple code and data sections
    is_invalid_with_error(from_hex("ef000102000101000100aafe"), "data section preceding code section");
}
