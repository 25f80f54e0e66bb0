use eof_container::hex::from_hex;
use eof_container::validator::Validator;

#[test]
fn test_valid_container_code_only() {
    let validator = Validator::new();
    let code = from_hex("ef0001 010001 00 fe");
    assert_eq!(validator.validate_eof(code.clone()).is_ok(), true);
    assert_eq!(validator.is_valid_container(&code), true);
}

#[test]
fn test_valid_container_code_and_data() {
    let validator = Validator::new();
    let code = from_hex("ef0001 010002 020001 00 fefe aa");
    assert_eq!(validator.validate_eof(code.clone()).is_ok(), true);
    assert_eq!(validator.is_valid_container(&code), true);
}

#[test]
fn test_wide_section_size() {
    let validator = Validator::new();
    // A declared size above 255 exercises the high byte of the 16-bit field.
    let mut code = from_hex("ef0001 010100 00");
    for _ in 0..256 {
        code.push(0xfe);
    }
    assert_eq!(validator.validate_eof(code.clone()).is_ok(), true);
    code.push(0xfe);
    assert_eq!(validator.validate_eof(code).is_err(), true);
}

#[test]
fn test_is_eof_detection() {
    let validator = Validator::new();
    assert_eq!(validator.is_eof(from_hex("ef00")), true);
    assert_eq!(validator.is_eof(from_hex("ef0001")), true);
    assert_eq!(validator.is_eof(from_hex("ef01")), false);
    assert_eq!(validator.is_eof(from_hex("ef")), false);
    assert_eq!(validator.is_eof(from_hex("")), false);
}

#[test]
fn test_validate_idempotent() {
    let validator = Validator::new();
    let inputs = [
        "",
        "ef00",
        "ef0001",
        "ef0001 010001 00 fe",
        "ef000102000100aa",
        "ef000101000000",
    ];
    for hex in inputs {
        let first = validator.validate_eof(from_hex(hex));
        let second = validator.validate_eof(from_hex(hex));
        assert_eq!(first, second);
    }
}

#[test]
fn test_from_hex_values() {
    assert_eq!(from_hex("ef00"), vec![0xef, 0x00]);
    assert_eq!(from_hex("ef 00 01"), vec![0xef, 0x00, 0x01]);
    assert_eq!(from_hex(" e f "), vec![0xef]);
    assert_eq!(from_hex("AaBb"), vec![0xaa, 0xbb]);
    assert_eq!(from_hex("abc"), vec![0xab]);
    assert_eq!(from_hex(""), Vec::<u8>::new());
    assert_eq!(from_hex("   "), Vec::<u8>::new());
    assert_eq!(from_hex("f"), Vec::<u8>::new());
}
