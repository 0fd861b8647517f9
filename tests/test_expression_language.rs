use kaitai_rs::expression::parse;
use kaitai_rs::expression::Rule;

// Tests of the rules of the expression grammar, each checked against whole inputs.

#[test]
fn test_expression_language_test_identifier() {
    let valid = vec![
        "my_identifier123",
        "abc",
        "abcdefghijklmnopqrstuvwxyz0123456789",
    ];
    for input in valid {
        let result = parse(Rule::Identifier, input);
        assert!(result.is_ok(), "Expected identifier '{}' to be valid", input);
    }
}

#[test]
fn test_expression_language_test_arithmetic_operator() {
    let valid = vec![
        "+",
        "-",
        "/",
        "*",
        "%",
    ];
    for input in valid {
        let result = parse(Rule::ArithmeticOperator, input);
        assert!(result.is_ok(), "Expected operator '{}' to be valid", input);
    }
}

#[test]
fn test_expression_language_test_hex_integer() {
    let valid = vec![
        "0xABC123",
        "0x0",
        "0xFFFFFFFF",
        "0xABC_DEF",
    ];
    for input in valid {
        let result = parse(Rule::HexInteger, input);
        assert!(result.is_ok(), "Expected hexadecimal integer '{}' to be valid", input);
    }
}

#[test]
fn test_expression_language_test_bin_integer() {
    let valid = vec![
        "0b10101010",
        "0b0",
        "0b11111111",
        "0b1010_1010",
    ];
    for input in valid {
        let result = parse(Rule::BinInteger, input);
        assert!(result.is_ok(), "Expected binary integer '{}' to be valid", input);
    }
}

#[test]
fn test_expression_language_test_octal_integer() {
    let valid = vec![
        "0o755",
        "0o0",
        "0o7777",
        "0o755_555",
    ];
    for input in valid {
        let result = parse(Rule::OctalInteger, input);
        assert!(result.is_ok(), "Expected octal integer '{}' to be valid", input);
    }
}

#[test]
fn test_expression_language_test_float() {
    let valid = vec![
        "1.23",
        "0.0",
        "123.456",
        "1.23_456",
        "1.234e56",
        "1.234e+56",
        "1.234e-56",
    ];
    for input in valid {
        let result = parse(Rule::FloatingPointNumber, input);
        assert!(result.is_ok(), "Expected floating-point number '{}' to be valid", input);
    }
}

#[test]
fn test_expression_language_test_boolean() {
    let valid = vec![
        "true",
        "false",
    ];
    for input in valid {
        let result = parse(Rule::Boolean, input);
        assert!(result.is_ok(), "Expected boolean value '{}' to be valid", input);
    }
}

#[test]
fn test_expression_language_test_integer_array() {
    let valid = vec![
        "[1, 2, 3]",
        "[0]",
        "[1, 2, 3, 4, 5]",
        "[1, 2, 3, 4, 5, 6, 7, 8, 9]",
    ];
    for input in valid {
        let result = parse(Rule::IntegerArray, input);
        assert!(result.is_ok(), "Expected integer array '{}' to be valid", input);
    }
}

#[test]
fn test_expression_language_test_user_defined_type() {
    let valid = vec![
        "_root",
        "_parent",
        "_io",
    ];
    for input in valid {
        let result = parse(Rule::UserDefinedType, input);
        assert!(result.is_ok(), "Expected user-defined type '{}' to be valid", input);
    }
}

#[test]
fn test_parse_arithmetic_operation() {
    let input = "1 + 1";
    let result = parse(Rule::KaitaiExpression, input);
    assert!(result.is_ok());
}

#[test]
fn test_parse_user_defined_type() {
    let input = "_root.mo";
    let result = parse(Rule::KaitaiExpression, input);
    assert!(result.is_ok());
}

#[test]
fn test_parse_ternary_operator() {
    let input = "disk_type.to_i & 0x01 != 0 ? 40 : 80";
    let result = parse(Rule::KaitaiExpression, input);
    assert!(result.is_ok());
}

#[test]
fn test_parse_nested_ternary_operators() {
    let input = "(t.to_i == 0) ? s2 : (s1.to_i == 0 ? 1 : 0)";
    let result = parse(Rule::KaitaiExpression, input);
    assert!(result.is_ok());
}

#[test]
fn test_parse_array_index() {
    let input = "block_groups[0]";
    let result = parse(Rule::KaitaiExpression, input);
    assert!(result.is_ok());
}

#[test]
fn test_parse_arithmetic_expression() {
    let input = "b1 | (b2 << 8) | (b3 << 16)";
    let result = parse(Rule::KaitaiExpression, input);
    assert!(result.is_ok());
}

#[test]
fn test_parse_arithmetic_expression_2() {
    let input = "(bpb.max_root_dir_rec * 32 + bpb.bytes_per_ls - 1) / bpb.bytes_per_ls";
    let result = parse(Rule::KaitaiExpression, input);
    assert!(result.is_ok());
}

#[test]
fn test_parse_comparison() {
    let input = "len_body != 0";
    let result = parse(Rule::KaitaiExpression, input);
    assert!(result.is_ok());
}

#[test]
fn test_parse_expression_operator() {
    let input = "_root.constant_pool[name_index - 1].cp_info.as<utf8_cp_info>.value";
    let result = parse(Rule::KaitaiExpression, input);
    assert!(result.is_ok());
}

#[test]
fn test_rules_reject_malformed_literals() {
    assert!(parse(Rule::Identifier, "_underscore").is_err());
    assert!(parse(Rule::Identifier, "Upper").is_err());
    assert!(parse(Rule::HexInteger, "0x").is_err());
    assert!(parse(Rule::BinInteger, "0b102").is_err());
    assert!(parse(Rule::OctalInteger, "0o8").is_err());
    assert!(parse(Rule::FloatingPointNumber, "1.").is_err());
    assert!(parse(Rule::IntegerArray, "[1, 2").is_err());
    assert!(parse(Rule::Boolean, "True").is_err());
    assert!(parse(Rule::ArithmeticOperator, "++").is_err());
    assert!(parse(Rule::KaitaiExpression, "1 +").is_err());
    assert!(parse(Rule::KaitaiExpression, "(a").is_err());
}
