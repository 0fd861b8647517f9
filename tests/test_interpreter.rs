use kaitai_rs::ast::{Node, NodeType};
use kaitai_rs::errors::KaitaiError;
use kaitai_rs::expression::{decode_le, evaluate};
use kaitai_rs::identifier::Identifier;
use kaitai_rs::kaitai_struct::KaitaiStruct;
use kaitai_rs::kaitai_type::{parse_kaitai_type, parse_strz, parse_unsigned_integer, PureType};
use kaitai_rs::loader::parse_sections;
use kaitai_rs::meta::{KsVersion, KsVersionValue};
use kaitai_rs::model::Enum;
use kaitai_rs::utils::validate_values;
use kaitai_rs::yaml::YamlValue;

fn s(x: &str) -> YamlValue {
    YamlValue::String(x.to_string())
}

fn num(n: i128) -> YamlValue {
    YamlValue::Integer(n)
}

fn map(pairs: Vec<(&str, YamlValue)>) -> YamlValue {
    YamlValue::Mapping(pairs.into_iter().map(|(k, v)| (s(k), v)).collect())
}

fn schema_with_meta(meta: Vec<(&str, YamlValue)>, seq: Vec<YamlValue>) -> YamlValue {
    let mut m = vec![("id", s("test_format"))];
    m.extend(meta);
    map(vec![("meta", map(m)), ("seq", YamlValue::Sequence(seq))])
}

fn schema(seq: Vec<YamlValue>) -> YamlValue {
    schema_with_meta(vec![], seq)
}

fn run(doc: &YamlValue, data: &[u8]) -> Result<KaitaiStruct, KaitaiError> {
    let format = parse_sections(doc)?;
    let mut k = KaitaiStruct::new(format);
    k.parse_bytes(data.to_vec())?;
    Ok(k)
}

fn child<'a>(k: &'a KaitaiStruct, i: usize) -> &'a Node {
    &k.ast.get_root().get_children()[i]
}

fn data_of(n: &Node) -> Vec<u8> {
    n.get_data().cloned().unwrap_or_default()
}

#[test]
fn fixed_magic_matches() {
    let doc = schema(vec![map(vec![
        ("id", s("magic")),
        ("contents", YamlValue::Sequence(vec![num(0x7F), s("ELF")])),
    ])]);
    let k = run(&doc, &[0x7F, 0x45, 0x4C, 0x46, 0x00]).unwrap();
    assert_eq!(k.ast.get_root().get_children().len(), 1);
    assert_eq!(child(&k, 0).get_id(), &Some("magic".to_string()));
    assert_eq!(data_of(child(&k, 0)), vec![0x7F, 0x45, 0x4C, 0x46]);
}

#[test]
fn fixed_magic_mismatch() {
    let doc = schema(vec![map(vec![
        ("id", s("magic")),
        ("contents", YamlValue::Sequence(vec![num(0x7F), s("ELF")])),
    ])]);
    let r = run(&doc, &[0, 0, 0, 0, 0]);
    assert!(matches!(r, Err(KaitaiError::ContentsMismatch { .. })));
}

#[test]
fn two_unsigned_little_endian() {
    let doc = schema(vec![
        map(vec![("id", s("a")), ("type", s("u2"))]),
        map(vec![("id", s("b")), ("type", s("u4"))]),
    ]);
    let k = run(&doc, &[0x01, 0x00, 0x02, 0x00, 0x00, 0x00]).unwrap();
    assert_eq!(decode_le(&data_of(child(&k, 0))), Some(1));
    assert_eq!(decode_le(&data_of(child(&k, 1))), Some(2));
    assert_eq!(child(&k, 0).get_node_type(), Some(&NodeType::Integer));
    assert_eq!(child(&k, 1).get_node_type(), Some(&NodeType::Integer));
}

#[test]
fn big_endian_fields_keep_raw_bytes() {
    let doc = schema_with_meta(
        vec![("endian", s("BE"))],
        vec![map(vec![("id", s("a")), ("type", s("u2"))])],
    );
    let k = run(&doc, &[0x00, 0x01]).unwrap();
    assert_eq!(data_of(child(&k, 0)), vec![0x00, 0x01]);
    assert_eq!(child(&k, 0).get_node_type(), Some(&NodeType::Integer));
}

#[test]
fn size_prefixed_byte_array() {
    let doc = schema(vec![
        map(vec![("id", s("len")), ("type", s("u1"))]),
        map(vec![("id", s("payload")), ("size", s("len"))]),
    ]);
    let k = run(&doc, &[0x03, 0x41, 0x42, 0x43, 0x99]).unwrap();
    assert_eq!(data_of(child(&k, 0)), vec![0x03]);
    assert_eq!(data_of(child(&k, 1)), vec![0x41, 0x42, 0x43]);
    assert_eq!(child(&k, 1).get_node_type(), Some(&NodeType::Array));
}

#[test]
fn null_terminated_string() {
    let doc = schema(vec![map(vec![("id", s("name")), ("type", s("strz"))])]);
    let k = run(&doc, &[0x48, 0x65, 0x6C, 0x6C, 0x6F, 0x00, 0xFF]).unwrap();
    assert_eq!(data_of(child(&k, 0)), vec![0x48, 0x65, 0x6C, 0x6C, 0x6F, 0x00]);
    assert_eq!(child(&k, 0).get_node_type(), Some(&NodeType::String));
}

#[test]
fn repetition_by_expression() {
    let doc = schema(vec![
        map(vec![("id", s("n")), ("type", s("u1"))]),
        map(vec![
            ("id", s("items")),
            ("type", s("u2")),
            ("repeat", s("expr")),
            ("repeat-expr", s("n")),
        ]),
    ]);
    let k = run(&doc, &[0x02, 0x0A, 0x00, 0x0B, 0x00]).unwrap();
    let items = child(&k, 1);
    assert_eq!(items.get_id(), &Some("items".to_string()));
    assert_eq!(items.get_children().len(), 2);
    assert_eq!(items.get_children()[0].get_id(), &None);
    assert_eq!(decode_le(&data_of(&items.get_children()[0])), Some(10));
    assert_eq!(decode_le(&data_of(&items.get_children()[1])), Some(11));
}

#[test]
fn repetition_count_matches_expression_value() {
    let doc = schema(vec![map(vec![
        ("id", s("items")),
        ("type", s("u1")),
        ("repeat", s("expr")),
        ("repeat-expr", num(3)),
    ])]);
    let k = run(&doc, &[1, 2, 3, 4]).unwrap();
    assert_eq!(child(&k, 0).get_children().len(), 3);
}

#[test]
fn eof_absorption() {
    let doc = schema(vec![map(vec![("id", s("blob")), ("size-eos", YamlValue::Bool(true))])]);
    let k = run(&doc, &[0xDE, 0xAD, 0xBE, 0xEF]).unwrap();
    assert_eq!(data_of(child(&k, 0)), vec![0xDE, 0xAD, 0xBE, 0xEF]);
}

#[test]
fn empty_buffer_with_size_eos() {
    let doc = schema(vec![map(vec![("id", s("blob")), ("size-eos", YamlValue::Bool(true))])]);
    let k = run(&doc, &[]).unwrap();
    assert_eq!(child(&k, 0).get_data(), Some(&vec![]));
}

#[test]
fn short_buffer_is_end_of_stream() {
    let doc = schema(vec![map(vec![("id", s("a")), ("type", s("u4"))])]);
    let r = run(&doc, &[0x01, 0x02]);
    assert!(matches!(r, Err(KaitaiError::EndOfStream { needed: 4, available: 2, .. })));
}

#[test]
fn short_buffer_without_eos_error_truncates() {
    let doc = schema(vec![map(vec![
        ("id", s("a")),
        ("type", s("u4")),
        ("eos-error", YamlValue::Bool(false)),
    ])]);
    let k = run(&doc, &[0x01, 0x02]).unwrap();
    assert_eq!(data_of(child(&k, 0)), vec![0x01, 0x02]);
    assert_eq!(child(&k, 0).get_node_type(), Some(&NodeType::Array));
}

#[test]
fn strz_without_terminator_reads_to_end() {
    let doc = schema(vec![map(vec![("id", s("name")), ("type", s("strz"))])]);
    let k = run(&doc, &[0x41, 0x42, 0x43]).unwrap();
    assert_eq!(data_of(child(&k, 0)), vec![0x41, 0x42, 0x43]);
}

#[test]
fn strz_with_size_stops_at_terminator() {
    let doc = schema(vec![
        map(vec![("id", s("name")), ("type", s("strz")), ("size", num(4))]),
        map(vec![("id", s("rest")), ("type", s("u1"))]),
    ]);
    let k = run(&doc, &[0x41, 0x00, 0x42, 0x43, 0x07]).unwrap();
    assert_eq!(data_of(child(&k, 0)), vec![0x41]);
    assert_eq!(data_of(child(&k, 1)), vec![0x07]);
}

#[test]
fn strz_with_size_stops_at_size() {
    let doc = schema(vec![map(vec![
        ("id", s("name")),
        ("type", s("strz")),
        ("size", num(2)),
        ("terminator", num(0x2E)),
    ])]);
    let k = run(&doc, &[0x41, 0x42, 0x43, 0x2E]).unwrap();
    assert_eq!(data_of(child(&k, 0)), vec![0x41, 0x42]);
}

#[test]
fn identifier_with_underscore_or_uppercase_is_invalid() {
    let mut id = Identifier::new();
    assert!(matches!(id.from_string("_start"), Err(KaitaiError::InvalidValue { .. })));
    assert!(matches!(id.from_string("Upper"), Err(KaitaiError::InvalidValue { .. })));
    assert!(id.from_string("lower_1").is_ok());
    assert_eq!(id.get_values(), &vec!["lower_1".to_string()]);
    let doc = schema(vec![map(vec![("id", s("Bad")), ("type", s("u1"))])]);
    assert!(matches!(parse_sections(&doc), Err(KaitaiError::InvalidValue { .. })));
}

#[test]
fn two_runs_give_equal_trees() {
    let doc = schema(vec![
        map(vec![("id", s("n")), ("type", s("u1"))]),
        map(vec![("id", s("body")), ("size", s("n * 2"))]),
    ]);
    let a = run(&doc, &[2, 1, 2, 3, 4]).unwrap();
    let b = run(&doc, &[2, 1, 2, 3, 4]).unwrap();
    assert_eq!(a.ast.get_root(), b.ast.get_root());
    assert_eq!(data_of(child(&a, 1)), vec![1, 2, 3, 4]);
}

#[test]
fn integer_leaves_have_integer_widths() {
    let doc = schema(vec![
        map(vec![("id", s("a")), ("type", s("u1"))]),
        map(vec![("id", s("b")), ("type", s("s2"))]),
        map(vec![("id", s("c")), ("type", s("u4"))]),
        map(vec![("id", s("d")), ("type", s("u8"))]),
    ]);
    let k = run(&doc, &[0; 15]).unwrap();
    for n in k.ast.traverse() {
        if n.get_node_type() == Some(&NodeType::Integer) {
            let w = n.get_data().unwrap().len();
            assert!(w == 1 || w == 2 || w == 4 || w == 8);
        }
    }
}

#[test]
fn repeat_eos_reads_to_the_end() {
    let doc = schema(vec![map(vec![("id", s("words")), ("type", s("u2")), ("repeat", s("eos"))])]);
    let k = run(&doc, &[1, 0, 2, 0, 3, 0]).unwrap();
    assert_eq!(child(&k, 0).get_children().len(), 3);
    assert_eq!(k.get_data(), &[1, 0, 2, 0, 3, 0]);
}

#[test]
fn repeat_until_stops_when_condition_holds() {
    let doc = schema(vec![map(vec![
        ("id", s("vals")),
        ("type", s("u1")),
        ("repeat", s("until")),
        ("repeat-until", s("_ == 0")),
    ])]);
    let k = run(&doc, &[5, 6, 0, 9]).unwrap();
    let vals = child(&k, 0);
    assert_eq!(vals.get_children().len(), 3);
    assert_eq!(data_of(&vals.get_children()[2]), vec![0]);
}

#[test]
fn if_false_skips_the_attribute() {
    let doc = schema(vec![
        map(vec![("id", s("flag")), ("type", s("u1"))]),
        map(vec![("id", s("extra")), ("type", s("u1")), ("if", s("flag != 0"))]),
        map(vec![("id", s("last")), ("type", s("u1"))]),
    ]);
    let k = run(&doc, &[0, 7]).unwrap();
    assert_eq!(k.ast.get_root().get_children().len(), 2);
    assert_eq!(data_of(child(&k, 1)), vec![7]);
}

#[test]
fn repeat_eos_without_progress_is_integrity_error() {
    let doc = schema(vec![map(vec![("id", s("empty")), ("size", num(0)), ("repeat", s("eos"))])]);
    assert!(matches!(run(&doc, &[1]), Err(KaitaiError::IntegrityError { .. })));
}

#[test]
fn bad_size_expression_is_expression_error() {
    let doc = schema(vec![map(vec![("id", s("x")), ("size", s("missing + 1"))])]);
    assert!(matches!(run(&doc, &[1, 2]), Err(KaitaiError::ExpressionError { .. })));
    let doc = schema(vec![map(vec![("id", s("x")), ("size", s("1 +"))])]);
    assert!(matches!(run(&doc, &[1, 2]), Err(KaitaiError::ExpressionError { .. })));
}

#[test]
fn user_type_is_unknown() {
    let doc = schema(vec![map(vec![("id", s("x")), ("type", s("header"))])]);
    assert!(matches!(run(&doc, &[1]), Err(KaitaiError::UnknownType { .. })));
}

#[test]
fn non_mapping_schema_is_schema_error() {
    assert!(matches!(parse_sections(&s("meta")), Err(KaitaiError::SchemaError { .. })));
    let no_id = map(vec![("meta", map(vec![("title", s("x"))]))]);
    assert!(matches!(parse_sections(&no_id), Err(KaitaiError::SchemaError { .. })));
    let bad_field = schema(vec![map(vec![("id", s("a")), ("size-eos", s("yes"))])]);
    assert!(matches!(parse_sections(&bad_field), Err(KaitaiError::SchemaError { .. })));
}

#[test]
fn malformed_pattern_is_invalid_pattern() {
    let values = vec!["abc".to_string()];
    assert!(matches!(validate_values(&values, "("), Err(KaitaiError::InvalidPattern { .. })));
}

#[test]
fn evaluator_literals_and_identifiers() {
    let doc = schema(vec![
        map(vec![("id", s("len")), ("type", s("u1"))]),
        map(vec![("id", s("wide")), ("type", s("u2"))]),
    ]);
    let k = run(&doc, &[3, 0x34, 0x12]).unwrap();
    assert_eq!(evaluate(&k.ast, "42"), Ok(42));
    assert_eq!(evaluate(&k.ast, "0x10"), Ok(16));
    assert_eq!(evaluate(&k.ast, "1_000"), Ok(1000));
    assert_eq!(evaluate(&k.ast, "len"), Ok(3));
    assert_eq!(evaluate(&k.ast, "wide"), Ok(0x1234));
    assert_eq!(evaluate(&k.ast, "len * 2 + 1"), Ok(7));
    assert_eq!(evaluate(&k.ast, "wide >> 8"), Ok(0x12));
    assert_eq!(evaluate(&k.ast, "1 << 4"), Ok(16));
    assert_eq!(evaluate(&k.ast, "wide & 0xff"), Ok(0x34));
    assert_eq!(evaluate(&k.ast, "7 % 4"), Ok(3));
    assert_eq!(evaluate(&k.ast, "len > 2 ? 10 : 20"), Ok(10));
    assert_eq!(evaluate(&k.ast, "_root.len"), Ok(3));
    assert_eq!(evaluate(&k.ast, "-len"), Ok(-3));
    assert!(evaluate(&k.ast, "nothing").is_err());
    assert!(evaluate(&k.ast, "1 / 0").is_err());
}

#[test]
fn type_names_parse() {
    let t = parse_kaitai_type("u4");
    assert_eq!(t.pure_type, PureType::UnsignedInteger(4));
    assert!(!t.is_array);
    let t = parse_kaitai_type("s2[]");
    assert_eq!(t.pure_type, PureType::SignedInteger(2));
    assert!(t.is_array);
    assert_eq!(parse_kaitai_type("f8").pure_type, PureType::FloatingPoint(8));
    assert_eq!(parse_kaitai_type("b1").pure_type, PureType::Boolean);
    assert_eq!(parse_kaitai_type("bool").pure_type, PureType::Boolean);
    assert_eq!(parse_kaitai_type("bx12").pure_type, PureType::BitSizedInteger(12));
    assert_eq!(parse_kaitai_type("strz").pure_type, PureType::StringZ);
    assert_eq!(parse_kaitai_type("str").pure_type, PureType::String);
    assert_eq!(parse_kaitai_type("struct").pure_type, PureType::ArbitraryStruct);
    assert_eq!(parse_kaitai_type("io").pure_type, PureType::IOStream);
    assert_eq!(parse_kaitai_type("any").pure_type, PureType::AnyType);
    assert_eq!(parse_kaitai_type("header").pure_type, PureType::UserType("header".to_string()));
}

#[test]
fn byte_readers() {
    assert_eq!(parse_unsigned_integer(&[1, 2, 3, 4, 5], 2), vec![1, 2]);
    assert_eq!(parse_strz(&[0x41, 0x00, 0x42], None, 0), vec![0x41, 0x00]);
    assert_eq!(parse_strz(&[0x41, 0x42, 0x43], None, 0), vec![0x41, 0x42, 0x43]);
    assert_eq!(parse_strz(&[0x41, 0x42, 0x00], Some(2), 0), vec![0x41, 0x42]);
    assert_eq!(parse_strz(&[0x41, 0x00, 0x43], Some(3), 0), vec![0x41]);
    assert_eq!(decode_le(&vec![0x01, 0x02, 0x03]), None);
    assert_eq!(decode_le(&vec![0xff; 8]), Some(u64::MAX));
}

#[test]
fn version_as_string() {
    assert_eq!(KsVersion::new(KsVersionValue::Number(1207)).as_string(), "1207");
    assert_eq!(KsVersion::new(KsVersionValue::Number(0)).as_string(), "0");
    assert_eq!(KsVersion::new(KsVersionValue::String("0.9".to_string())).as_string(), "0.9");
}

#[test]
fn meta_section_loads() {
    let doc = map(vec![
        (
            "meta",
            map(vec![
                ("id", s("my_format")),
                ("title", s("My format")),
                ("endian", s("le")),
                ("ks-version", YamlValue::Float("0.9".to_string())),
                ("file-extension", s("bin")),
                ("ks-debug", YamlValue::Bool(true)),
                (
                    "xref",
                    map(vec![
                        ("rfc", num(1951)),
                        ("mime", s("application/octet-stream")),
                        ("wikidata", s("Q123")),
                    ]),
                ),
            ]),
        ),
        ("doc", s("A description")),
        ("doc-ref", s("https://example.com/spec chapter 2")),
        ("enums", map(vec![("kinds", YamlValue::Mapping(vec![(num(1), s("one")), (num(2), s("two"))]))])),
    ]);
    let k = parse_sections(&doc).unwrap();
    assert_eq!(k.meta.identifier.get_values(), &vec!["my_format".to_string()]);
    assert_eq!(k.meta.title, Some("My format".to_string()));
    assert!(k.meta.ks_debug);
    assert_eq!(k.meta.xref.rfc.as_ref().unwrap().get_values(), &vec!["1951".to_string()]);
    assert_eq!(k.doc.description, Some("A description".to_string()));
    assert_eq!(k.doc_ref.content[0].url, Some("https://example.com/spec".to_string()));
    assert_eq!(k.doc_ref.content[0].arbitrary_string, Some("chapter 2".to_string()));
    assert_eq!(k.enums.enums_specs.len(), 1);
    assert_eq!(k.enums.enums_specs[0].1.values.len(), 2);
}

#[test]
fn bad_xref_value_is_invalid() {
    let doc = map(vec![(
        "meta",
        map(vec![("id", s("my_format")), ("xref", map(vec![("wikidata", s("Q0"))]))]),
    )]);
    assert!(matches!(parse_sections(&doc), Err(KaitaiError::InvalidValue { .. })));
}

#[test]
fn nested_types_load() {
    let doc = map(vec![
        ("meta", map(vec![("id", s("outer"))])),
        (
            "types",
            map(vec![(
                "header",
                map(vec![("seq", YamlValue::Sequence(vec![map(vec![("id", s("x")), ("type", s("u1"))])]))]),
            )]),
        ),
    ]);
    let k = parse_sections(&doc).unwrap();
    assert_eq!(k.types.types.len(), 1);
    assert_eq!(k.types.types[0].1.seq.attributes.len(), 1);
}

#[test]
fn user_type_reads_its_own_sequence() {
    let doc = map(vec![
        ("meta", map(vec![("id", s("outer"))])),
        (
            "seq",
            YamlValue::Sequence(vec![
                map(vec![("id", s("h")), ("type", s("header"))]),
                map(vec![("id", s("tail")), ("type", s("u1"))]),
            ]),
        ),
        (
            "types",
            map(vec![(
                "header",
                map(vec![(
                    "seq",
                    YamlValue::Sequence(vec![
                        map(vec![("id", s("len")), ("type", s("u1"))]),
                        map(vec![("id", s("body")), ("size", s("len"))]),
                    ]),
                )]),
            )]),
        ),
    ]);
    let k = run(&doc, &[2, 7, 8, 9]).unwrap();
    let h = child(&k, 0);
    assert_eq!(h.get_id(), &Some("h".to_string()));
    assert_eq!(h.get_children().len(), 2);
    assert_eq!(data_of(&h.get_children()[0]), vec![2]);
    assert_eq!(data_of(&h.get_children()[1]), vec![7, 8]);
    assert_eq!(data_of(child(&k, 1)), vec![9]);
}

#[test]
fn recursive_user_type_is_refused() {
    let doc = map(vec![
        ("meta", map(vec![("id", s("outer"))])),
        ("seq", YamlValue::Sequence(vec![map(vec![("id", s("n")), ("type", s("node"))])])),
        (
            "types",
            map(vec![(
                "node",
                map(vec![("seq", YamlValue::Sequence(vec![map(vec![("id", s("next")), ("type", s("node"))])]))]),
            )]),
        ),
    ]);
    assert!(matches!(run(&doc, &[1, 2, 3]), Err(KaitaiError::SchemaError { .. })));
}

#[test]
fn odd_integer_width_is_refused() {
    let doc = schema(vec![map(vec![("id", s("a")), ("type", s("u4"))])]);
    let mut format = parse_sections(&doc).unwrap();
    format.seq.attributes[0].seq_type = Some(kaitai_rs::kaitai_type::Type {
        pure_type: PureType::UnsignedInteger(3),
        is_array: false,
    });
    let mut k = KaitaiStruct::new(format);
    assert!(matches!(k.parse_bytes(vec![1, 2, 3]), Err(KaitaiError::SchemaError { .. })));
}

#[test]
fn process_is_checked_against_its_pattern() {
    let ok = schema(vec![map(vec![("id", s("a")), ("size", num(1)), ("process", s("xor(0x3f)"))])]);
    assert!(parse_sections(&ok).is_ok());
    let bad = schema(vec![map(vec![("id", s("a")), ("size", num(1)), ("process", s("xor"))])]);
    assert!(parse_sections(&bad).is_err());
}

#[test]
fn enum_name_is_checked() {
    assert!(Enum::new("kinds".to_string(), vec![(1, "one".to_string())]).is_ok());
    assert!(matches!(
        Enum::new("Kinds".to_string(), vec![(1, "one".to_string())]),
        Err(KaitaiError::InvalidValue { .. })
    ));
    assert!(matches!(
        Enum::new("kinds".to_string(), vec![(1, "one".to_string()), (1, "uno".to_string())]),
        Err(KaitaiError::SchemaError { .. })
    ));
}
