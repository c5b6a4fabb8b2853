use yule_log::format::{
    bytes_equal, find_byte, parse_array_len, parse_field, parse_field_type, parse_format, FieldDecl,
    FormatDefinition, Primitive,
};

#[test]
fn every_primitive_is_known_by_its_name() {
    let names: [(&str, Primitive, usize); 12] = [
        ("uint8_t", Primitive::UInt8, 1),
        ("uint16_t", Primitive::UInt16, 2),
        ("uint32_t", Primitive::UInt32, 4),
        ("uint64_t", Primitive::UInt64, 8),
        ("int8_t", Primitive::Int8, 1),
        ("int16_t", Primitive::Int16, 2),
        ("int32_t", Primitive::Int32, 4),
        ("int64_t", Primitive::Int64, 8),
        ("float", Primitive::Float, 4),
        ("double", Primitive::Double, 8),
        ("bool", Primitive::Bool, 1),
        ("char", Primitive::Char, 1),
    ];
    for (name, kind, width) in names {
        assert_eq!(Primitive::from_name(name.as_bytes()), Some(kind));
        assert_eq!(kind.width(), width);
    }
    assert_eq!(Primitive::from_name(b"uint8"), None);
    assert_eq!(Primitive::from_name(b"uint8_tt"), None);
    assert_eq!(Primitive::from_name(b"Float"), None);
    assert_eq!(Primitive::from_name(b""), None);
    assert_eq!(Primitive::from_name(b"vehicle_attitude"), None);
}

#[test]
fn array_lengths_are_decimal_and_bounded() {
    assert_eq!(parse_array_len(b"0"), Some(0));
    assert_eq!(parse_array_len(b"3"), Some(3));
    assert_eq!(parse_array_len(b"007"), Some(7));
    assert_eq!(parse_array_len(b"65535"), Some(65535));
    assert_eq!(parse_array_len(b"65536"), None);
    assert_eq!(parse_array_len(b"99999999999999999999"), None);
    assert_eq!(parse_array_len(b""), None);
    assert_eq!(parse_array_len(b"1a"), None);
    assert_eq!(parse_array_len(b"-1"), None);
    assert_eq!(parse_array_len(b" 1"), None);
}

#[test]
fn field_types_are_a_name_with_an_array_length_in_brackets() {
    assert_eq!(parse_field_type(b"float"), Some((Primitive::Float, None)));
    assert_eq!(parse_field_type(b"float[3]"), Some((Primitive::Float, Some(3))));
    assert_eq!(parse_field_type(b"uint8_t[0]"), Some((Primitive::UInt8, Some(0))));
    assert_eq!(parse_field_type(b"float[3"), None);
    assert_eq!(parse_field_type(b"float[]"), None);
    assert_eq!(parse_field_type(b"float[3]x"), None);
    assert_eq!(parse_field_type(b"[3]"), None);
    assert_eq!(parse_field_type(b"floa[3]"), None);
    assert_eq!(parse_field_type(b"float[[3]"), None);
}

#[test]
fn a_field_is_a_type_a_space_and_a_name() {
    assert_eq!(
        parse_field(b"int32_t[4] offsets"),
        Some(FieldDecl { name: b"offsets".to_vec(), kind: Primitive::Int32, array_len: Some(4) })
    );
    assert_eq!(
        parse_field(b"bool armed"),
        Some(FieldDecl { name: b"armed".to_vec(), kind: Primitive::Bool, array_len: None })
    );
    assert_eq!(parse_field(b"bool"), None);
    assert_eq!(parse_field(b" armed"), None);
    assert_eq!(parse_field(b"position_setpoint previous"), None);
}

#[test]
fn a_format_is_a_name_and_its_fields() {
    let parsed = parse_format(b"actuator_outputs:uint64_t timestamp;uint32_t noutputs;float[16] output;");
    assert_eq!(
        parsed,
        Some(FormatDefinition {
            name: b"actuator_outputs".to_vec(),
            fields: vec![
                FieldDecl { name: b"timestamp".to_vec(), kind: Primitive::UInt64, array_len: None },
                FieldDecl { name: b"noutputs".to_vec(), kind: Primitive::UInt32, array_len: None },
                FieldDecl { name: b"output".to_vec(), kind: Primitive::Float, array_len: Some(16) },
            ],
        })
    );
    assert_eq!(parse_format(b"empty:"), Some(FormatDefinition { name: b"empty".to_vec(), fields: vec![] }));
}

#[test]
fn text_off_the_grammar_defines_nothing() {
    assert_eq!(parse_format(b""), None);
    assert_eq!(parse_format(b"no_colon uint8_t x;"), None);
    assert_eq!(parse_format(b"m:uint8_t x"), None);
    assert_eq!(parse_format(b"m:uint8_t x;;"), None);
    assert_eq!(parse_format(b"m:uint8_t x;nested_t y;"), None);
    assert_eq!(parse_format(b"m:uint8_t[70000] x;"), None);
}

#[test]
fn find_byte_gives_the_first_index_or_the_length() {
    assert_eq!(find_byte(b"a:b:c", b':'), 1);
    assert_eq!(find_byte(b":", b':'), 0);
    assert_eq!(find_byte(b"abc", b':'), 3);
    assert_eq!(find_byte(b"", b':'), 0);
}

#[test]
fn bytes_equal_compares_length_and_content() {
    assert!(bytes_equal(b"", b""));
    assert!(bytes_equal(b"abc", b"abc"));
    assert!(!bytes_equal(b"abc", b"abd"));
    assert!(!bytes_equal(b"abc", b"ab"));
    assert!(!bytes_equal(b"ab", b"abc"));
}
