use kaitai_rs::expression::parse;
use kaitai_rs::expression::Rule;

// Tests of the rules of the expression grammar, each checked against whole inputs.

#[test]
fn test_expression_grammar_test_identifier() {
    let valid = vec![
        "my_identifier123",
        "abc",
        "abcdefghijklmnopqrstuvwxyz0123456789",
    ];
    for input in valid {
        let result = parse(Rule::Identifier, input);
        assert!(result.is_ok(), "Expected identifier '{}' to be valid", input);
    }
}

#[test]
fn test_expression_grammar_test_arithmetic_operator() {
    let valid = vec![
        "+",
        "-",
        "/",
        "*",
        "%",
    ];
    for input in valid {
        let result = parse(Rule::ArithmeticOperator, input);
        assert!(result.is_ok(), "Expected operator '{}' to be valid", input);
    }
}

#[test]
fn test_expression_grammar_test_hex_integer() {
    let valid = vec![
        "0xABC123",
        "0x0",
        "0xFFFFFFFF",
        "0xABC_DEF",
    ];
    for input in valid {
        let result = parse(Rule::HexInteger, input);
        assert!(result.is_ok(), "Expected hexadecimal integer '{}' to be valid", input);
    }
}

#[test]
fn test_expression_grammar_test_bin_integer() {
    let valid = vec![
        "0b10101010",
        "0b0",
        "0b11111111",
        "0b1010_1010",
    ];
    for input in valid {
        let result = parse(Rule::BinInteger, input);
        assert!(result.is_ok(), "Expected binary integer '{}' to be valid", input);
    }
}

#[test]
fn test_expression_grammar_test_octal_integer() {
    let valid = vec![
        "0o755",
        "0o0",
        "0o7777",
        "0o755_555",
    ];
    for input in valid {
        let result = parse(Rule::OctalInteger, input);
        assert!(result.is_ok(), "Expected octal integer '{}' to be valid", input);
    }
}

#[test]
fn test_expression_grammar_test_float() {
    let valid = vec![
        "1.23",
        "0.0",
        "123.456",
        "1.23_456",
        "1.234e56",
        "1.234e+56",
        "1.234e-56",
    ];
    for input in valid {
        let result = parse(Rule::FloatingPointNumber, input);
        assert!(result.is_ok(), "Expected floating-point number '{}' to be valid", input);
    }
}

#[test]
fn test_expression_grammar_test_boolean() {
    let valid = vec![
        "true",
        "false",
    ];
    for input in valid {
        let result = parse(Rule::Boolean, input);
        assert!(result.is_ok(), "Expected boolean value '{}' to be valid", input);
    }
}

#[test]
fn test_expression_grammar_test_integer_array() {
    let valid = vec![
        "[1, 2, 3]",
        "[0]",
        "[1, 2, 3, 4, 5]",
        "[1, 2, 3, 4, 5, 6, 7, 8, 9]",
    ];
    for input in valid {
        let result = parse(Rule::IntegerArray, input);
        assert!(result.is_ok(), "Expected integer array '{}' to be valid", input);
    }
}

#[test]
fn test_expression_grammar_test_user_defined_type() {
    let valid = vec![
        "_root",
        "_parent",
        "io",
    ];
    for input in valid {
        let result = parse(Rule::UserDefinedType, input);
        assert!(result.is_ok(), "Expected user-defined type '{}' to be valid", input);
    }
}
