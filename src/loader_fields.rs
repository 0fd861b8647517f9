use vstd::prelude::*;
use crate::attribute::{Attribute, Process, ProcessType, Repeat};
use crate::chars::{chars_are, chars_of, string_from_chars};
use crate::errors::KaitaiError;
use crate::meta::{decimal_of, decimal_string};
use crate::utils::opt_str_view;
use crate::yaml::YamlValue;
use crate::config::Config;
use crate::utils::{all_match, pattern_compiles, pattern_matches, validate_values};

verus! {

/// The text of a string value.
pub open spec fn as_text(v: YamlValue) -> Option<Seq<char>> {
    match v {
        YamlValue::String(s) => Some(s@),
        _ => None,
    }
}

/// The text of a string, or of a non-negative whole number in decimal.
pub open spec fn scalar_text(v: YamlValue) -> Option<Seq<char>> {
    match v {
        YamlValue::String(s) => Some(s@),
        YamlValue::Integer(n) => if 0 <= n <= u64::MAX {
            Some(decimal_of(n as nat))
        } else {
            None
        },
        _ => None,
    }
}

/// The text of a condition: a string, or a boolean spelled out.
pub open spec fn cond_text(v: YamlValue) -> Option<Seq<char>> {
    match v {
        YamlValue::String(s) => Some(s@),
        YamlValue::Bool(b) => Some(if b { "true"@ } else { "false"@ }),
        _ => None,
    }
}

/// A whole number that fits in a byte.
pub open spec fn byte_of(v: YamlValue) -> Option<u8> {
    match v {
        YamlValue::Integer(n) => if 0 <= n <= 255 {
            Some(n as u8)
        } else {
            None
        },
        _ => None,
    }
}

/// The bytes that a `contents` item stands for: a byte, or the UTF-8 of a string.
pub open spec fn item_bytes(v: YamlValue) -> Option<Seq<u8>> {
    match v {
        YamlValue::Integer(n) => if 0 <= n <= 255 {
            Some(seq![n as u8])
        } else {
            None
        },
        YamlValue::String(s) => Some(vstd::utf8::encode_utf8(s@)),
        _ => None,
    }
}

/// The bytes of a sequence of `contents` items, one after the other.
pub open spec fn items_bytes(items: Seq<YamlValue>) -> Option<Seq<u8>>
    decreases items.len(),
{
    if items.len() == 0 {
        Some(Seq::empty())
    } else {
        match (items_bytes(items.drop_last()), item_bytes(items.last())) {
            (Some(a), Some(b)) => Some(a + b),
            _ => None,
        }
    }
}

/// The bytes that a `contents` value stands for.
pub open spec fn contents_bytes(v: YamlValue) -> Option<Seq<u8>> {
    match v {
        YamlValue::Sequence(items) => items_bytes(items@),
        YamlValue::String(s) => Some(vstd::utf8::encode_utf8(s@)),
        _ => None,
    }
}

/// A schema error about `section`.
pub fn schema_error(section: &str, reason: &str) -> (r: KaitaiError)
    ensures
        r is SchemaError,
{
    KaitaiError::SchemaError { section: section.to_string(), reason: reason.to_string() }
}

/// The text of a string value.
pub fn text_of(v: &YamlValue) -> (r: Option<String>)
    ensures
        opt_str_view(r) == as_text(*v),
{
    match v {
        YamlValue::String(s) => Some(s.clone()),
        _ => None,
    }
}

/// The text of a string, or of a non-negative whole number in decimal.
pub fn scalar_text_of(v: &YamlValue) -> (r: Option<String>)
    ensures
        opt_str_view(r) == scalar_text(*v),
{
    match v {
        YamlValue::String(s) => Some(s.clone()),
        YamlValue::Integer(n) => if 0 <= *n && *n <= 0xffff_ffff_ffff_ffff {
            Some(decimal_string(*n as u64))
        } else {
            None
        },
        _ => None,
    }
}

/// The text of a condition.
pub fn cond_text_of(v: &YamlValue) -> (r: Option<String>)
    ensures
        opt_str_view(r) == cond_text(*v),
{
    match v {
        YamlValue::String(s) => Some(s.clone()),
        YamlValue::Bool(b) => if *b {
            Some(String::from_str("true"))
        } else {
            Some(String::from_str("false"))
        },
        _ => None,
    }
}

/// A whole number that fits in a byte.
pub fn byte_value(v: &YamlValue) -> (r: Option<u8>)
    ensures
        r == byte_of(*v),
{
    match v {
        YamlValue::Integer(n) => if 0 <= *n && *n <= 255 {
            Some(*n as u8)
        } else {
            None
        },
        _ => None,
    }
}

fn append_bytes(out: &mut Vec<u8>, b: &[u8])
    ensures
        final(out)@ == old(out)@ + b@,
{
    let mut i: usize = 0;
    while i < b.len()
        invariant
            i <= b@.len(),
            out@ == old(out)@ + b@.subrange(0, i as int),
        decreases b@.len() - i,
    {
        out.push(b[i]);
        i = i + 1;
        assert(out@ =~= old(out)@ + b@.subrange(0, i as int));
    }
    assert(b@.subrange(0, b@.len() as int) =~= b@);
}

proof fn lemma_items_bytes_none(items: Seq<YamlValue>, i: int)
    requires
        0 <= i <= items.len(),
        items_bytes(items.subrange(0, i)) is None,
    ensures
        items_bytes(items) is None,
    decreases items.len() - i,
{
    if i < items.len() {
        assert(items.subrange(0, i + 1).drop_last() =~= items.subrange(0, i));
        lemma_items_bytes_none(items, i + 1);
    } else {
        assert(items.subrange(0, i) =~= items);
    }
}

/// The bytes that a `contents` value stands for.
pub fn contents_of(v: &YamlValue) -> (r: Option<Vec<u8>>)
    ensures
        r matches Some(b) ==> contents_bytes(*v) == Some(b@),
        r is None <==> contents_bytes(*v) is None,
{
    match v {
        YamlValue::String(s) => {
            let mut out: Vec<u8> = Vec::new();
            append_bytes(&mut out, s.as_str().as_bytes());
            assert(out@ =~= vstd::utf8::encode_utf8(s@));
            Some(out)
        },
        YamlValue::Sequence(items) => {
            let mut out: Vec<u8> = Vec::new();
            let mut i: usize = 0;
            assert(items@.subrange(0, 0) =~= Seq::<YamlValue>::empty());
            while i < items.len()
                invariant
                    i <= items@.len(),
                    contents_bytes(*v) == items_bytes(items@),
                    items_bytes(items@.subrange(0, i as int)) == Some(out@),
                decreases items@.len() - i,
            {
                let ghost pre = items@.subrange(0, i as int + 1);
                assert(pre.drop_last() =~= items@.subrange(0, i as int));
                assert(pre.last() == items@[i as int]);
                match &items[i] {
                    YamlValue::Integer(n) => {
                        if 0 <= *n && *n <= 255 {
                            let ghost before = out@;
                            out.push(*n as u8);
                            assert(out@ =~= before + seq![*n as u8]);
                        } else {
                            proof {
                                lemma_items_bytes_none(items@, i as int + 1);
                            }
                            return None;
                        }
                    },
                    YamlValue::String(s) => {
                        append_bytes(&mut out, s.as_str().as_bytes());
                    },
                    _ => {
                        proof {
                            lemma_items_bytes_none(items@, i as int + 1);
                        }
                        return None;
                    },
                }
                i = i + 1;
            }
            assert(items@.subrange(0, items@.len() as int) =~= items@);
            Some(out)
        },
        _ => None,
    }
}

/// Reads `contents`: a string, or a sequence of bytes and strings.
pub fn parse_contents(attribute_instance: &mut Attribute, contents_value: &YamlValue) -> (r: Result<(), KaitaiError>)
    ensures
        r is Ok <==> contents_bytes(*contents_value) is Some,
        r is Ok ==> (final(attribute_instance).contents matches Some(c) && contents_bytes(*contents_value)
            == Some(c@)),
        r is Ok ==> *final(attribute_instance) == (Attribute {
            contents: final(attribute_instance).contents,
            ..*old(attribute_instance)
        }),
        r is Err ==> *final(attribute_instance) == *old(attribute_instance),
        r matches Err(e) ==> e is SchemaError,
{
    match contents_of(contents_value) {
        Some(c) => {
            attribute_instance.set_contents(c);
            Ok(())
        },
        None => Err(schema_error("seq", "contents must be a string or a list of bytes and strings")),
    }
}

/// The repetition that `s` names.
pub open spec fn repeat_of(s: Seq<char>) -> Option<Repeat> {
    if s == "eos"@ {
        Some(Repeat::Eos)
    } else if s == "expr"@ {
        Some(Repeat::Expr)
    } else if s == "until"@ {
        Some(Repeat::Until)
    } else {
        None
    }
}

/// Reads `repeat`: `eos`, `expr` or `until`.
pub fn parse_repeat(attribute_instance: &mut Attribute, repeat_value: &YamlValue) -> (r: Result<(), KaitaiError>)
    ensures
        r is Ok <==> (as_text(*repeat_value) matches Some(s) && repeat_of(s) is Some),
        r is Ok ==> (as_text(*repeat_value) matches Some(s) && final(attribute_instance).repeat == repeat_of(s)),
        r is Ok ==> *final(attribute_instance) == (Attribute { repeat: final(attribute_instance).repeat, ..*old(attribute_instance) }),
        r is Err ==> *final(attribute_instance) == *old(attribute_instance),
        r matches Err(e) ==> e is SchemaError,
{
    let repeat = match repeat_value {
        YamlValue::String(s) => {
            let c = chars_of(s.as_str());
            if chars_are(&c, "eos") {
                Repeat::Eos
            } else if chars_are(&c, "expr") {
                Repeat::Expr
            } else if chars_are(&c, "until") {
                Repeat::Until
            } else {
                return Err(schema_error("seq", "repeat must be eos, expr or until"));
            }
        },
        _ => {
            return Err(schema_error("seq", "repeat must be a string"));
        },
    };
    attribute_instance.set_repeat(repeat);
    Ok(())
}

/// Reads `repeat-expr`: an expression, or a whole number.
pub fn parse_repeat_expr(attribute_instance: &mut Attribute, repeat_expr_value: &YamlValue) -> (r: Result<(), KaitaiError>)
    ensures
        r is Ok <==> scalar_text(*repeat_expr_value) is Some,
        r is Ok ==> opt_str_view(final(attribute_instance).repeat_expr) == scalar_text(*repeat_expr_value),
        r is Ok ==> *final(attribute_instance) == (Attribute { repeat_expr: final(attribute_instance).repeat_expr, ..*old(attribute_instance) }),
        r is Err ==> *final(attribute_instance) == *old(attribute_instance),
        r matches Err(e) ==> e is SchemaError,
{
    match scalar_text_of(repeat_expr_value) {
        Some(s) => {
            attribute_instance.set_repeat_expr(s);
            Ok(())
        },
        None => Err(schema_error("seq", "repeat-expr must be a string or a whole number")),
    }
}

/// Reads `repeat-until`: an expression, or a boolean.
pub fn parse_repeat_until(attribute_instance: &mut Attribute, repeat_until_value: &YamlValue) -> (r: Result<(), KaitaiError>)
    ensures
        r is Ok <==> cond_text(*repeat_until_value) is Some,
        r is Ok ==> opt_str_view(final(attribute_instance).repeat_until) == cond_text(*repeat_until_value),
        r is Ok ==> *final(attribute_instance) == (Attribute { repeat_until: final(attribute_instance).repeat_until, ..*old(attribute_instance) }),
        r is Err ==> *final(attribute_instance) == *old(attribute_instance),
        r matches Err(e) ==> e is SchemaError,
{
    match cond_text_of(repeat_until_value) {
        Some(s) => {
            attribute_instance.set_repeat_until(s);
            Ok(())
        },
        None => Err(schema_error("seq", "repeat-until must be a boolean or a string")),
    }
}

/// Reads `if`: an expression, or a boolean.
pub fn parse_optional_if(attribute_instance: &mut Attribute, optional_if_value: &YamlValue) -> (r: Result<(), KaitaiError>)
    ensures
        r is Ok <==> cond_text(*optional_if_value) is Some,
        r is Ok ==> opt_str_view(final(attribute_instance).optional_if) == cond_text(*optional_if_value),
        r is Ok ==> *final(attribute_instance) == (Attribute { optional_if: final(attribute_instance).optional_if, ..*old(attribute_instance) }),
        r is Err ==> *final(attribute_instance) == *old(attribute_instance),
        r matches Err(e) ==> e is SchemaError,
{
    match cond_text_of(optional_if_value) {
        Some(s) => {
            attribute_instance.set_optional_if(s);
            Ok(())
        },
        None => Err(schema_error("seq", "if must be a boolean or a string")),
    }
}

/// Reads `size`: an expression, or a whole number.
pub fn parse_size(attribute_instance: &mut Attribute, size_value: &YamlValue) -> (r: Result<(), KaitaiError>)
    ensures
        r is Ok <==> scalar_text(*size_value) is Some,
        r is Ok ==> opt_str_view(final(attribute_instance).size) == scalar_text(*size_value),
        r is Ok ==> *final(attribute_instance) == (Attribute { size: final(attribute_instance).size, ..*old(attribute_instance) }),
        r is Err ==> *final(attribute_instance) == *old(attribute_instance),
        r matches Err(e) ==> e is SchemaError,
{
    match scalar_text_of(size_value) {
        Some(s) => {
            attribute_instance.set_size(s);
            Ok(())
        },
        None => Err(schema_error("seq", "size must be a string or a whole number")),
    }
}

/// Reads `pos`: an expression, or a whole number.
pub fn parse_pos(attribute_instance: &mut Attribute, pos_value: &YamlValue) -> (r: Result<(), KaitaiError>)
    ensures
        r is Ok <==> scalar_text(*pos_value) is Some,
        r is Ok ==> opt_str_view(final(attribute_instance).pos) == scalar_text(*pos_value),
        r is Ok ==> *final(attribute_instance) == (Attribute { pos: final(attribute_instance).pos, ..*old(attribute_instance) }),
        r is Err ==> *final(attribute_instance) == *old(attribute_instance),
        r matches Err(e) ==> e is SchemaError,
{
    match scalar_text_of(pos_value) {
        Some(s) => {
            attribute_instance.set_pos(s);
            Ok(())
        },
        None => Err(schema_error("seq", "pos must be a string or a whole number")),
    }
}

/// Reads `value`: an expression, or a whole number.
pub fn parse_value(attribute_instance: &mut Attribute, value_value: &YamlValue) -> (r: Result<(), KaitaiError>)
    ensures
        r is Ok <==> scalar_text(*value_value) is Some,
        r is Ok ==> opt_str_view(final(attribute_instance).value) == scalar_text(*value_value),
        r is Ok ==> *final(attribute_instance) == (Attribute { value: final(attribute_instance).value, ..*old(attribute_instance) }),
        r is Err ==> *final(attribute_instance) == *old(attribute_instance),
        r matches Err(e) ==> e is SchemaError,
{
    match scalar_text_of(value_value) {
        Some(s) => {
            attribute_instance.set_value(s);
            Ok(())
        },
        None => Err(schema_error("seq", "value must be a string or a whole number")),
    }
}

/// Reads `size-eos`: a boolean.
pub fn parse_size_eos(attribute_instance: &mut Attribute, size_eos_value: &YamlValue) -> (r: Result<(), KaitaiError>)
    ensures
        r is Ok <==> *size_eos_value is Bool,
        *size_eos_value matches YamlValue::Bool(b) ==> *final(attribute_instance) == (Attribute { size_eos: b, ..*old(attribute_instance) }),
        r is Err ==> *final(attribute_instance) == *old(attribute_instance),
        r matches Err(e) ==> e is SchemaError,
{
    match size_eos_value {
        YamlValue::Bool(b) => {
            attribute_instance.set_size_eos(*b);
            Ok(())
        },
        _ => Err(schema_error("seq", "size-eos must be a boolean")),
    }
}

/// Reads `consume`: a boolean.
pub fn parse_consume(attribute_instance: &mut Attribute, consume_value: &YamlValue) -> (r: Result<(), KaitaiError>)
    ensures
        r is Ok <==> *consume_value is Bool,
        *consume_value matches YamlValue::Bool(b) ==> *final(attribute_instance) == (Attribute { consume: b, ..*old(attribute_instance) }),
        r is Err ==> *final(attribute_instance) == *old(attribute_instance),
        r matches Err(e) ==> e is SchemaError,
{
    match consume_value {
        YamlValue::Bool(b) => {
            attribute_instance.set_consume(*b);
            Ok(())
        },
        _ => Err(schema_error("seq", "consume must be a boolean")),
    }
}

/// Reads the flag that keeps a terminator: a boolean.
pub fn parse_include(attribute_instance: &mut Attribute, flag_value: &YamlValue) -> (r: Result<(), KaitaiError>)
    ensures
        r is Ok <==> *flag_value is Bool,
        *flag_value matches YamlValue::Bool(b) ==> *final(attribute_instance) == (Attribute { include_terminator: b, ..*old(attribute_instance) }),
        r is Err ==> *final(attribute_instance) == *old(attribute_instance),
        r matches Err(e) ==> e is SchemaError,
{
    match flag_value {
        YamlValue::Bool(b) => {
            attribute_instance.set_include(*b);
            Ok(())
        },
        _ => Err(schema_error("seq", "the terminator flag must be a boolean")),
    }
}

/// Reads `eos-error`: a boolean.
pub fn parse_eos_error(attribute_instance: &mut Attribute, eos_error_value: &YamlValue) -> (r: Result<(), KaitaiError>)
    ensures
        r is Ok <==> *eos_error_value is Bool,
        *eos_error_value matches YamlValue::Bool(b) ==> *final(attribute_instance) == (Attribute { eos_error: b, ..*old(attribute_instance) }),
        r is Err ==> *final(attribute_instance) == *old(attribute_instance),
        r matches Err(e) ==> e is SchemaError,
{
    match eos_error_value {
        YamlValue::Bool(b) => {
            attribute_instance.set_eos_error(*b);
            Ok(())
        },
        _ => Err(schema_error("seq", "eos-error must be a boolean")),
    }
}

/// Reads `pad-right`: a byte.
pub fn parse_pad_right(attribute_instance: &mut Attribute, pad_right_value: &YamlValue) -> (r: Result<(), KaitaiError>)
    ensures
        r is Ok <==> byte_of(*pad_right_value) is Some,
        r is Ok ==> *final(attribute_instance) == (Attribute { pad_right: byte_of(*pad_right_value), ..*old(attribute_instance) }),
        r is Err ==> *final(attribute_instance) == *old(attribute_instance),
        r matches Err(e) ==> e is SchemaError,
{
    match byte_value(pad_right_value) {
        Some(b) => {
            attribute_instance.set_pad_right(b);
            Ok(())
        },
        None => Err(schema_error("seq", "pad-right must be a byte")),
    }
}

/// Reads `terminator`: a byte.
pub fn parse_terminator(attribute_instance: &mut Attribute, terminator_value: &YamlValue) -> (r: Result<(), KaitaiError>)
    ensures
        r is Ok <==> byte_of(*terminator_value) is Some,
        r is Ok ==> *final(attribute_instance) == (Attribute { terminator: byte_of(*terminator_value), ..*old(attribute_instance) }),
        r is Err ==> *final(attribute_instance) == *old(attribute_instance),
        r matches Err(e) ==> e is SchemaError,
{
    match byte_value(terminator_value) {
        Some(b) => {
            attribute_instance.set_terminator(b);
            Ok(())
        },
        None => Err(schema_error("seq", "terminator must be a byte")),
    }
}

/// Reads `encoding`: a string.
pub fn parse_encoding(attribute_instance: &mut Attribute, encoding_value: &YamlValue) -> (r: Result<(), KaitaiError>)
    ensures
        r is Ok <==> as_text(*encoding_value) is Some,
        r is Ok ==> opt_str_view(final(attribute_instance).encoding) == as_text(*encoding_value),
        r is Ok ==> *final(attribute_instance) == (Attribute { encoding: final(attribute_instance).encoding, ..*old(attribute_instance) }),
        r is Err ==> *final(attribute_instance) == *old(attribute_instance),
        r matches Err(e) ==> e is SchemaError,
{
    match text_of(encoding_value) {
        Some(s) => {
            attribute_instance.set_encoding(s);
            Ok(())
        },
        None => Err(schema_error("seq", "encoding must be a string")),
    }
}

/// Reads `io`: a string.
pub fn parse_io(attribute_instance: &mut Attribute, io_value: &YamlValue) -> (r: Result<(), KaitaiError>)
    ensures
        r is Ok <==> as_text(*io_value) is Some,
        r is Ok ==> opt_str_view(final(attribute_instance).io) == as_text(*io_value),
        r is Ok ==> *final(attribute_instance) == (Attribute { io: final(attribute_instance).io, ..*old(attribute_instance) }),
        r is Err ==> *final(attribute_instance) == *old(attribute_instance),
        r matches Err(e) ==> e is SchemaError,
{
    match text_of(io_value) {
        Some(s) => {
            attribute_instance.set_io(s);
            Ok(())
        },
        None => Err(schema_error("seq", "io must be a string")),
    }
}

/// The process named by `s`: `zlib`, or `xor`, `rol` or `ror` with a parameter in
/// parentheses; with the parameter as written.
pub open spec fn process_of(s: Seq<char>) -> Option<(ProcessType, Seq<char>)> {
    if s == "zlib"@ {
        Some((ProcessType::Zlib, Seq::empty()))
    } else if s.len() >= 5 && s[3] == '(' && s.last() == ')' {
        let name = s.subrange(0, 3);
        let param = s.subrange(4, s.len() - 1);
        if name == "xor"@ {
            Some((ProcessType::Xor, param))
        } else if name == "rol"@ {
            Some((ProcessType::Rol, param))
        } else if name == "ror"@ {
            Some((ProcessType::Ror, param))
        } else {
            None
        }
    } else {
        None
    }
}

/// Whether a `process` value passes the process pattern and names a known process.
pub open spec fn process_ok(v: YamlValue) -> bool {
    as_text(v) matches Some(s) && pattern_compiles(Config::PROCESS_PATTERN@) && pattern_matches(
        Config::PROCESS_PATTERN@,
        s,
    ) && process_of(s) is Some
}

/// Reads `process`: `zlib`, `xor(k)`, `rol(k)` or `ror(k)`, checked against the process
/// pattern.
pub fn parse_process(attribute_instance: &mut Attribute, process_value: &YamlValue) -> (r: Result<(), KaitaiError>)
    ensures
        r is Ok <==> process_ok(*process_value),
        r is Ok ==> (final(attribute_instance).process matches Some(p) && as_text(*process_value) matches Some(s)
            && process_of(s) == Some((p.process_type, p.parameter@))),
        r is Ok ==> *final(attribute_instance) == (Attribute { process: final(attribute_instance).process, ..*old(attribute_instance) }),
        r is Err ==> *final(attribute_instance) == *old(attribute_instance),
        r matches Err(e) ==> e is SchemaError || e is InvalidValue || e is InvalidPattern,
{
    let s = match process_value {
        YamlValue::String(s) => s,
        _ => {
            return Err(schema_error("seq", "process must be a string"));
        },
    };
    let names: Vec<String> = vec![s.clone()];
    assert(names@[0]@ == s@);
    proof {
        if pattern_compiles(Config::PROCESS_PATTERN@) && pattern_matches(Config::PROCESS_PATTERN@, s@) {
            assert(all_match(names@, Config::PROCESS_PATTERN@));
        }
    }
    validate_values(names.as_slice(), Config::PROCESS_PATTERN)?;
    let c = chars_of(s.as_str());
    let n = c.len();
    let process = if chars_are(&c, "zlib") {
        Process { process_type: ProcessType::Zlib, parameter: String::new() }
    } else if n >= 5 && c[3] == '(' && c[n - 1] == ')' {
        let mut name: Vec<char> = Vec::new();
        name.push(c[0]);
        name.push(c[1]);
        name.push(c[2]);
        assert(name@ =~= c@.subrange(0, 3));
        let mut param: Vec<char> = Vec::new();
        let mut i: usize = 4;
        while i < n - 1
            invariant
                4 <= i <= n - 1,
                n == c@.len(),
                param@ == c@.subrange(4, i as int),
            decreases n - 1 - i,
        {
            param.push(c[i]);
            i = i + 1;
            assert(param@ =~= c@.subrange(4, i as int));
        }
        let process_type = if chars_are(&name, "xor") {
            ProcessType::Xor
        } else if chars_are(&name, "rol") {
            ProcessType::Rol
        } else if chars_are(&name, "ror") {
            ProcessType::Ror
        } else {
            return Err(schema_error("seq", "unknown process"));
        };
        Process { process_type, parameter: string_from_chars(&param) }
    } else {
        return Err(schema_error("seq", "unknown process"));
    };
    attribute_instance.set_process(process);
    Ok(())
}

} // verus!
