use vstd::prelude::*;
use crate::attribute::Attribute;
use crate::chars::chars_of;
use crate::config::Config;
use crate::errors::KaitaiError;
use crate::identifier::{identifier_accepts, strings_view, Identifier};
use crate::kaitai_type::{base_type_name, has_array_suffix, parse_kaitai_type, pure_type_matches, Type};
use crate::lexical::{check_float, check_integer_literal, is_float_literal, is_integer_literal};
use crate::loader_fields::{
    process_ok, repeat_of, as_text, byte_of, cond_text, contents_bytes, parse_consume, parse_contents, parse_encoding,
    parse_eos_error, parse_include, parse_io, parse_optional_if, parse_pad_right, parse_pos,
    parse_process, parse_repeat, parse_repeat_expr, parse_repeat_until, parse_size, parse_size_eos,
    parse_terminator, parse_value, scalar_text, scalar_text_of, schema_error, text_of,
};
use crate::meta::{
    EndianEnum, ForensicWiki, ISO, JustSolve, KsVersion, KsVersionValue, LocIdentifier, MIMEType,
    Meta, PronomIdentifier, RFCIdentifier, WikiDataIdentifier,
};
use crate::model::{
    names_unique, Doc, DocRef, Enum, Enums, Instances, KsyStruct, ParamSpec, Params, Sequence,
    TypeSpec, Types,
};
use crate::utils::{all_match, opt_str_view, pattern_compiles, pattern_matches};
use crate::yaml::{field, get_field, lemma_yaml_index, map_find, map_get, yaml_get, yaml_index, YamlValue};

verus! {

/// A name checked against the identifier pattern.
pub fn parse_identifier(id_str: &str) -> (r: Result<Identifier, KaitaiError>)
    ensures
        r is Ok <==> identifier_accepts(seq![id_str@]),
        r matches Ok(id) ==> strings_view(id.value@) == seq![id_str@],
        pattern_compiles(Config::IDENTIFIER_PATTERN@) ==> (r matches Err(e) ==> (e matches KaitaiError::InvalidValue {
            pattern: p,
            value: v,
        } && p@ == Config::IDENTIFIER_PATTERN@ && v@ == id_str@)),
        r matches Err(e) ==> (e is InvalidValue || e is InvalidPattern),
{
    let mut identifier = Identifier::new();
    match identifier.from_string(id_str) {
        Ok(()) => Ok(identifier),
        Err(e) => Err(e),
    }
}

/// Reads a `doc` section: a string.
pub fn parse_doc(doc_instance: &mut Doc, doc: &YamlValue) -> (r: Result<(), KaitaiError>)
    ensures
        r is Ok <==> as_text(*doc) is Some,
        r is Ok ==> opt_str_view(final(doc_instance).description) == as_text(*doc),
        r is Err ==> *final(doc_instance) == *old(doc_instance),
        r matches Err(e) ==> e is SchemaError,
{
    match text_of(doc) {
        Some(s) => {
            doc_instance.set_description(Some(s));
            Ok(())
        },
        None => Err(schema_error("doc", "doc must be a string")),
    }
}

/// Whether `s` is a URL followed by optional text, by the doc-ref pattern.
pub open spec fn docref_ok(s: Seq<char>) -> bool {
    pattern_compiles(Config::DOCREF_PATTERN@) && pattern_matches(Config::DOCREF_PATTERN@, s)
}

/// Whether one entry of a doc-ref list is accepted.
pub open spec fn docref_item_ok(v: YamlValue) -> bool {
    v matches YamlValue::String(s) && docref_ok(s@)
}

/// Whether a `doc-ref` value is accepted: one string, or a sequence of strings, each a
/// URL followed by optional text.
pub open spec fn doc_ref_ok(v: YamlValue) -> bool {
    match v {
        YamlValue::String(s) => docref_ok(s@),
        YamlValue::Sequence(items) => forall|i: int| 0 <= i < items@.len() ==> docref_item_ok(#[trigger] items@[i]),
        _ => false,
    }
}

/// Adds one doc-ref string.
fn parse_single_doc_ref(doc_ref_instance: &mut DocRef, url: &str) -> (r: Result<(), KaitaiError>)
    ensures
        r is Ok <==> docref_ok(url@),
        r is Ok ==> final(doc_ref_instance).content@.len() == old(doc_ref_instance).content@.len() + 1,
        r matches Err(e) ==> e is SchemaError,
{
    match doc_ref_instance.add_docref(url) {
        Ok(()) => Ok(()),
        Err(_) => Err(schema_error("doc-ref", "not a URL followed by optional text")),
    }
}

/// Reads a `doc-ref` section: a string, or a sequence of strings.
pub fn parse_doc_ref(doc_ref_instance: &mut DocRef, doc_ref: &YamlValue) -> (r: Result<(), KaitaiError>)
    ensures
        r is Ok && *doc_ref is String ==> final(doc_ref_instance).content@.len()
            == old(doc_ref_instance).content@.len() + 1,
        *doc_ref matches YamlValue::Sequence(items) ==> (r is Ok ==> final(doc_ref_instance).content@.len()
            == old(doc_ref_instance).content@.len() + items@.len()),
        r is Ok <==> doc_ref_ok(*doc_ref),
        r matches Err(e) ==> e is SchemaError,
{
    match doc_ref {
        YamlValue::String(url) => parse_single_doc_ref(doc_ref_instance, url.as_str()),
        YamlValue::Sequence(urls) => parse_multiple_doc_refs(doc_ref_instance, urls),
        _ => Err(schema_error("doc-ref", "doc-ref must be a string or a list of strings")),
    }
}

/// Adds each doc-ref string of a sequence.
fn parse_multiple_doc_refs(doc_ref_instance: &mut DocRef, urls: &Vec<YamlValue>) -> (r: Result<(), KaitaiError>)
    ensures
        r is Ok ==> final(doc_ref_instance).content@.len() == old(doc_ref_instance).content@.len() + urls@.len(),
        r is Ok <==> forall|i: int| 0 <= i < urls@.len() ==> docref_item_ok(#[trigger] urls@[i]),
        r matches Err(e) ==> e is SchemaError,
{
    let mut i: usize = 0;
    while i < urls.len()
        invariant
            i <= urls@.len(),
            forall|j: int| 0 <= j < i ==> docref_item_ok(#[trigger] urls@[j]),
            doc_ref_instance.content@.len() == old(doc_ref_instance).content@.len() + i,
        decreases urls@.len() - i,
    {
        match &urls[i] {
            YamlValue::String(url) => {
                let r = parse_single_doc_ref(doc_ref_instance, url.as_str());
                if r.is_err() {
                    assert(!docref_item_ok(urls@[i as int]));
                    return r;
                }
            },
            _ => {
                assert(!docref_item_ok(urls@[i as int]));
                return Err(schema_error("doc-ref", "doc-ref entries must be strings"));
            },
        }
        i = i + 1;
    }
    Ok(())
}

/// Whether the identity, documentation and type fields of an attribute are well formed.
pub open spec fn head_ok(m: Seq<(YamlValue, YamlValue)>) -> bool {
    &&& (yaml_get(m, "id"@) matches Some(v) ==> (as_text(v) matches Some(s) && identifier_accepts(seq![s])))
    &&& (yaml_get(m, "doc"@) matches Some(v) ==> as_text(v) is Some)
    &&& (yaml_get(m, "doc-ref"@) matches Some(v) ==> doc_ref_ok(v))
    &&& (yaml_get(m, "type"@) matches Some(v) ==> as_text(v) is Some)
}

/// Whether the fields of an attribute that say which bytes it reads are well formed.
pub open spec fn bytes_ok(m: Seq<(YamlValue, YamlValue)>) -> bool {
    &&& (yaml_get(m, "contents"@) matches Some(v) ==> contents_bytes(v) is Some)
    &&& (yaml_get(m, "size"@) matches Some(v) ==> scalar_text(v) is Some)
    &&& (yaml_get(m, "size-eos"@) matches Some(v) ==> v is Bool)
    &&& (yaml_get(m, "terminator"@) matches Some(v) ==> byte_of(v) is Some)
    &&& (yaml_get(m, "pad-right"@) matches Some(v) ==> byte_of(v) is Some)
    &&& (yaml_get(m, "process"@) matches Some(v) ==> process_ok(v))
    &&& (yaml_get(m, "encoding"@) matches Some(v) ==> as_text(v) is Some)
}

/// Whether the fields of an attribute that say how often, and whether, it is read are
/// well formed.
pub open spec fn flow_ok(m: Seq<(YamlValue, YamlValue)>) -> bool {
    &&& (yaml_get(m, "repeat"@) matches Some(v) ==> (as_text(v) matches Some(s) && repeat_of(s) is Some))
    &&& (yaml_get(m, "repeat-expr"@) matches Some(v) ==> scalar_text(v) is Some)
    &&& (yaml_get(m, "repeat-until"@) matches Some(v) ==> cond_text(v) is Some)
    &&& (yaml_get(m, "if"@) matches Some(v) ==> cond_text(v) is Some)
    &&& (yaml_get(m, "consume"@) matches Some(v) ==> v is Bool)
    &&& (yaml_get(m, "include"@) matches Some(v) ==> v is Bool)
    &&& (yaml_get(m, "eos-error"@) matches Some(v) ==> v is Bool)
    &&& (yaml_get(m, "pos"@) matches Some(v) ==> scalar_text(v) is Some)
    &&& (yaml_get(m, "value"@) matches Some(v) ==> scalar_text(v) is Some)
    &&& (yaml_get(m, "io"@) matches Some(v) ==> as_text(v) is Some)
}

/// Whether an attribute value loads: a mapping whose every known field is well formed.
pub open spec fn attribute_ok(v: YamlValue) -> bool {
    v matches YamlValue::Mapping(m) && head_ok(m@) && bytes_ok(m@) && flow_ok(m@)
}

/// The identity, documentation and type of an attribute.
fn parse_attribute_head(m: &Vec<(YamlValue, YamlValue)>) -> (r: Result<Attribute, KaitaiError>)
    ensures
        r matches Ok(a) ==> (yaml_get(m@, "id"@) is None ==> a.id is None),
        r matches Ok(a) ==> (yaml_get(m@, "id"@) matches Some(v) ==> (as_text(v) matches Some(s)
            && opt_str_view(a.id) == Some(s) && identifier_accepts(seq![s]))),
        r matches Ok(a) ==> (yaml_get(m@, "type"@) matches Some(v) ==> (as_text(v) matches Some(s)
            && a.seq_type matches Some(t) && t.is_array == has_array_suffix(s) && pure_type_matches(
            t.pure_type,
            base_type_name(s),
        ))),
        r matches Ok(a) ==> (yaml_get(m@, "type"@) is None ==> a.seq_type is None),
        r matches Ok(a) ==> a.contents is None && a.size is None && !a.size_eos && a.eos_error && a.consume
            && !a.include_terminator && a.terminator is None && a.repeat is None && a.repeat_expr is None
            && a.repeat_until is None && a.optional_if is None && a.pad_right is None,
        r is Ok <==> head_ok(m@),
        r matches Err(e) ==> (e is SchemaError || e is InvalidValue || e is InvalidPattern),
{
    let id = match map_get(m, "id") {
        Some(v) => match v {
            YamlValue::String(s) => {
                let _checked = parse_identifier(s.as_str())?;
                Some(s.clone())
            },
            _ => {
                return Err(schema_error("seq", "id must be a string"));
            },
        },
        None => None,
    };
    let mut a = Attribute::with_id(id);
    match map_get(m, "doc") {
        Some(v) => {
            let mut d = Doc::new();
            parse_doc(&mut d, v)?;
            a.doc = Some(d);
        },
        None => {},
    }
    match map_get(m, "doc-ref") {
        Some(v) => {
            let mut d = DocRef::new();
            parse_doc_ref(&mut d, v)?;
            a.doc_ref = Some(d);
        },
        None => {},
    }
    match map_get(m, "type") {
        Some(v) => match v {
            YamlValue::String(s) => {
                a.seq_type = Some(parse_kaitai_type(s.as_str()));
            },
            _ => {
                return Err(schema_error("seq", "type must be a string"));
            },
        },
        None => {},
    }
    Ok(a)
}

/// The fields of an attribute that say which bytes it reads.
fn parse_attribute_bytes(a: &mut Attribute, m: &Vec<(YamlValue, YamlValue)>) -> (r: Result<(), KaitaiError>)
    requires
        old(a).contents is None && old(a).size is None && !old(a).size_eos && old(a).terminator is None,
        old(a).repeat is None && old(a).optional_if is None && old(a).eos_error && old(a).consume
            && !old(a).include_terminator && old(a).repeat_expr is None && old(a).repeat_until is None,
    ensures
        r is Ok ==> final(a).id == old(a).id && final(a).seq_type == old(a).seq_type && final(a).eos_error
            == old(a).eos_error && final(a).consume == old(a).consume && final(a).include_terminator
            == old(a).include_terminator && final(a).repeat == old(a).repeat && final(a).repeat_expr
            == old(a).repeat_expr && final(a).repeat_until == old(a).repeat_until && final(a).optional_if
            == old(a).optional_if,
        r is Ok ==> final(a).repeat is None && final(a).optional_if is None && final(a).eos_error && final(a).consume
            && !final(a).include_terminator && final(a).repeat_expr is None && final(a).repeat_until is None,
        r is Ok ==> (yaml_get(m@, "contents"@) matches Some(v) ==> (final(a).contents matches Some(c)
            && contents_bytes(v) == Some(c@))),
        r is Ok ==> (yaml_get(m@, "contents"@) is None ==> final(a).contents is None),
        r is Ok ==> (yaml_get(m@, "size"@) matches Some(v) ==> opt_str_view(final(a).size) == scalar_text(v)
            && scalar_text(v) is Some),
        r is Ok ==> (yaml_get(m@, "size"@) is None ==> final(a).size is None),
        r is Ok ==> (yaml_get(m@, "size-eos"@) matches Some(v) ==> v == YamlValue::Bool(final(a).size_eos)),
        r is Ok ==> (yaml_get(m@, "size-eos"@) is None ==> !final(a).size_eos),
        r is Ok ==> (yaml_get(m@, "terminator"@) matches Some(v) ==> final(a).terminator == byte_of(v)
            && byte_of(v) is Some),
        r is Ok ==> (yaml_get(m@, "terminator"@) is None ==> final(a).terminator is None),
        r is Ok <==> bytes_ok(m@),
        r matches Err(e) ==> e is SchemaError || e is InvalidValue || e is InvalidPattern,
{
    match map_get(m, "contents") {
        Some(v) => parse_contents(a, v)?,
        None => {},
    }
    match map_get(m, "size") {
        Some(v) => parse_size(a, v)?,
        None => {},
    }
    match map_get(m, "size-eos") {
        Some(v) => parse_size_eos(a, v)?,
        None => {},
    }
    match map_get(m, "terminator") {
        Some(v) => parse_terminator(a, v)?,
        None => {},
    }
    match map_get(m, "pad-right") {
        Some(v) => parse_pad_right(a, v)?,
        None => {},
    }
    match map_get(m, "process") {
        Some(v) => parse_process(a, v)?,
        None => {},
    }
    match map_get(m, "encoding") {
        Some(v) => parse_encoding(a, v)?,
        None => {},
    }
    Ok(())
}

/// The fields of an attribute that say how often, and whether, it is read.
fn parse_attribute_flow(a: &mut Attribute, m: &Vec<(YamlValue, YamlValue)>) -> (r: Result<(), KaitaiError>)
    requires
        old(a).repeat is None && old(a).optional_if is None && old(a).eos_error && old(a).consume
            && !old(a).include_terminator && old(a).repeat_expr is None && old(a).repeat_until is None,
    ensures
        r is Ok ==> final(a).id == old(a).id && final(a).seq_type == old(a).seq_type && final(a).contents
            == old(a).contents && final(a).size == old(a).size && final(a).size_eos == old(a).size_eos
            && final(a).terminator == old(a).terminator,
        r is Ok ==> (yaml_get(m@, "eos-error"@) matches Some(v) ==> v == YamlValue::Bool(final(a).eos_error)),
        r is Ok ==> (yaml_get(m@, "eos-error"@) is None ==> final(a).eos_error),
        r is Ok ==> (yaml_get(m@, "consume"@) is None ==> final(a).consume),
        r is Ok ==> (yaml_get(m@, "include"@) is None ==> !final(a).include_terminator),
        r is Ok ==> (yaml_get(m@, "repeat"@) is None ==> final(a).repeat is None),
        r is Ok ==> (yaml_get(m@, "repeat"@) matches Some(v) ==> (as_text(v) matches Some(s) && final(a).repeat
            == repeat_of(s))),
        r is Ok ==> (yaml_get(m@, "repeat-expr"@) is None ==> final(a).repeat_expr is None),
        r is Ok ==> (yaml_get(m@, "repeat-until"@) is None ==> final(a).repeat_until is None),
        r is Ok ==> (yaml_get(m@, "repeat-expr"@) matches Some(v) ==> opt_str_view(final(a).repeat_expr)
            == scalar_text(v)),
        r is Ok ==> (yaml_get(m@, "repeat-until"@) matches Some(v) ==> opt_str_view(final(a).repeat_until)
            == cond_text(v)),
        r is Ok ==> (yaml_get(m@, "if"@) matches Some(v) ==> opt_str_view(final(a).optional_if) == cond_text(v)),
        r is Ok ==> (yaml_get(m@, "if"@) is None ==> final(a).optional_if is None),
        r is Ok <==> flow_ok(m@),
        r matches Err(e) ==> e is SchemaError,
{
    match map_get(m, "repeat") {
        Some(v) => parse_repeat(a, v)?,
        None => {},
    }
    match map_get(m, "repeat-expr") {
        Some(v) => parse_repeat_expr(a, v)?,
        None => {},
    }
    match map_get(m, "repeat-until") {
        Some(v) => parse_repeat_until(a, v)?,
        None => {},
    }
    match map_get(m, "if") {
        Some(v) => parse_optional_if(a, v)?,
        None => {},
    }
    match map_get(m, "consume") {
        Some(v) => parse_consume(a, v)?,
        None => {},
    }
    match map_get(m, "include") {
        Some(v) => parse_include(a, v)?,
        None => {},
    }
    match map_get(m, "eos-error") {
        Some(v) => parse_eos_error(a, v)?,
        None => {},
    }
    match map_get(m, "pos") {
        Some(v) => parse_pos(a, v)?,
        None => {},
    }
    match map_get(m, "io") {
        Some(v) => parse_io(a, v)?,
        None => {},
    }
    match map_get(m, "value") {
        Some(v) => parse_value(a, v)?,
        None => {},
    }
    Ok(())
}

/// What a loaded attribute holds, field by field, for the mapping `m` it was read from.
pub open spec fn attribute_from(m: Seq<(YamlValue, YamlValue)>, a: Attribute) -> bool {
    &&& (yaml_get(m, "id"@) is None ==> a.id is None)
    &&& (yaml_get(m, "id"@) matches Some(v) ==> (as_text(v) matches Some(s) && opt_str_view(a.id) == Some(s)
        && identifier_accepts(seq![s])))
    &&& (yaml_get(m, "type"@) matches Some(v) ==> (as_text(v) matches Some(s) && a.seq_type matches Some(t)
        && t.is_array == has_array_suffix(s) && pure_type_matches(t.pure_type, base_type_name(s))))
    &&& (yaml_get(m, "type"@) is None ==> a.seq_type is None)
    &&& (yaml_get(m, "contents"@) matches Some(v) ==> (a.contents matches Some(c) && contents_bytes(v) == Some(
        c@,
    )))
    &&& (yaml_get(m, "contents"@) is None ==> a.contents is None)
    &&& (yaml_get(m, "size"@) matches Some(v) ==> opt_str_view(a.size) == scalar_text(v) && scalar_text(v) is Some)
    &&& (yaml_get(m, "size"@) is None ==> a.size is None)
    &&& (yaml_get(m, "size-eos"@) matches Some(v) ==> v == YamlValue::Bool(a.size_eos))
    &&& (yaml_get(m, "size-eos"@) is None ==> !a.size_eos)
    &&& (yaml_get(m, "terminator"@) matches Some(v) ==> a.terminator == byte_of(v) && byte_of(v) is Some)
    &&& (yaml_get(m, "terminator"@) is None ==> a.terminator is None)
    &&& (yaml_get(m, "eos-error"@) matches Some(v) ==> v == YamlValue::Bool(a.eos_error))
    &&& (yaml_get(m, "eos-error"@) is None ==> a.eos_error)
    &&& (yaml_get(m, "consume"@) is None ==> a.consume)
    &&& (yaml_get(m, "include"@) is None ==> !a.include_terminator)
    &&& (yaml_get(m, "repeat"@) is None ==> a.repeat is None)
    &&& (yaml_get(m, "repeat"@) matches Some(v) ==> (as_text(v) matches Some(s) && a.repeat == repeat_of(s)))
    &&& (yaml_get(m, "repeat-expr"@) matches Some(v) ==> opt_str_view(a.repeat_expr) == scalar_text(v))
    &&& (yaml_get(m, "repeat-expr"@) is None ==> a.repeat_expr is None)
    &&& (yaml_get(m, "repeat-until"@) matches Some(v) ==> opt_str_view(a.repeat_until) == cond_text(v))
    &&& (yaml_get(m, "repeat-until"@) is None ==> a.repeat_until is None)
    &&& (yaml_get(m, "if"@) matches Some(v) ==> opt_str_view(a.optional_if) == cond_text(v))
    &&& (yaml_get(m, "if"@) is None ==> a.optional_if is None)
}

/// Reads one attribute: a mapping of its fields, with the documented defaults for
/// those that are absent.
pub fn parse_attribute(attribute: &YamlValue) -> (r: Result<Attribute, KaitaiError>)
    ensures
        r is Ok <==> attribute_ok(*attribute),
        r matches Ok(a) ==> (*attribute matches YamlValue::Mapping(m) && attribute_from(m@, a)),
        r matches Err(e) ==> (e is SchemaError || e is InvalidValue || e is InvalidPattern),
{
    let m = match attribute {
        YamlValue::Mapping(m) => m,
        _ => {
            return Err(schema_error("seq", "an attribute must be a mapping"));
        },
    };
    let mut a = parse_attribute_head(m)?;
    parse_attribute_bytes(&mut a, m)?;
    parse_attribute_flow(&mut a, m)?;
    Ok(a)
}

/// Reads a `seq` section: a sequence of attributes, appended in order.
pub fn parse_seq(seq_instance: &mut Sequence, seq: &YamlValue) -> (r: Result<(), KaitaiError>)
    ensures
        !(*seq is Sequence) ==> r is Err,
        r is Ok <==> seq_ok(*seq),
        *seq matches YamlValue::Sequence(items) ==> (r is Ok ==> final(seq_instance).attributes@.len()
            == old(seq_instance).attributes@.len() + items@.len() && final(seq_instance).attributes@.subrange(
            0,
            old(seq_instance).attributes@.len() as int,
        ) == old(seq_instance).attributes@ && forall|i: int| 0 <= i < items@.len() ==> (#[trigger] items@[i] matches YamlValue::Mapping(m)
            && attribute_from(m@, final(seq_instance).attributes@[old(seq_instance).attributes@.len() + i]))),
        r matches Err(e) ==> (e is SchemaError || e is InvalidValue || e is InvalidPattern),
{
    match seq {
        YamlValue::Sequence(items) => {
            let mut i: usize = 0;
            while i < items.len()
                invariant
                    i <= items@.len(),
                    *seq == YamlValue::Sequence(*items),
                    seq_instance.attributes@.len() == old(seq_instance).attributes@.len() + i,
                    seq_instance.attributes@.subrange(0, old(seq_instance).attributes@.len() as int)
                        == old(seq_instance).attributes@,
                    forall|j: int| 0 <= j < i ==> attribute_ok(#[trigger] items@[j]),
                    forall|j: int| 0 <= j < i ==> (#[trigger] items@[j] matches YamlValue::Mapping(m)
                        && attribute_from(m@, seq_instance.attributes@[old(seq_instance).attributes@.len() + j])),
                decreases items@.len() - i,
            {
                let a = match parse_attribute(&items[i]) {
                    Ok(a) => a,
                    Err(e) => {
                        assert(!attributes_ok(items@));
                        return Err(e);
                    },
                };
                let ghost before = seq_instance.attributes@;
                seq_instance.add_attribute(a);
                assert(seq_instance.attributes@.subrange(0, old(seq_instance).attributes@.len() as int)
                    =~= before.subrange(0, old(seq_instance).attributes@.len() as int));
                i = i + 1;
            }
            Ok(())
        },
        _ => Err(schema_error("seq", "seq must be a list of attributes")),
    }
}

/// Whether one instance entry loads: a name that is an identifier, and an attribute.
pub open spec fn instance_ok(e: (YamlValue, YamlValue)) -> bool {
    e.0 matches YamlValue::String(s) && identifier_accepts(seq![s@]) && attribute_ok(e.1)
}

/// Whether an `instances` section loads.
pub open spec fn instances_ok(v: YamlValue) -> bool {
    match v {
        YamlValue::Mapping(entries) => instance_entries_ok(entries@),
        _ => false,
    }
}

/// Whether every instance entry loads.
pub open spec fn instance_entries_ok(s: Seq<(YamlValue, YamlValue)>) -> bool {
    forall|i: int| 0 <= i < s.len() ==> instance_ok(#[trigger] s[i])
}

/// Reads an `instances` section: a mapping from names to attributes.
pub fn parse_instances(instances_instance: &mut Instances, instances: &YamlValue) -> (r: Result<(), KaitaiError>)
    requires
        names_unique(old(instances_instance).instances_spec@),
    ensures
        names_unique(final(instances_instance).instances_spec@),
        r is Ok <==> instances_ok(*instances),
        r matches Err(e) ==> (e is SchemaError || e is InvalidValue || e is InvalidPattern),
{
    match instances {
        YamlValue::Mapping(entries) => {
            let mut i: usize = 0;
            while i < entries.len()
                invariant
                    i <= entries@.len(),
                    *instances == YamlValue::Mapping(*entries),
                    names_unique(instances_instance.instances_spec@),
                    forall|j: int| 0 <= j < i ==> instance_ok(#[trigger] entries@[j]),
                decreases entries@.len() - i,
            {
                let name = match &entries[i].0 {
                    YamlValue::String(s) => match parse_identifier(s.as_str()) {
                        Ok(id) => id,
                        Err(e) => {
                            assert(!instance_ok(entries@[i as int]));
                            assert(*instances == YamlValue::Mapping(*entries));
                            assert(!instance_entries_ok(entries@));
                            return Err(e);
                        },
                    },
                    _ => {
                        assert(!instance_ok(entries@[i as int]));
                        assert(!instance_entries_ok(entries@));
                        return Err(schema_error("instances", "an instance name must be a string"));
                    },
                };
                let a = match parse_attribute(&entries[i].1) {
                    Ok(a) => a,
                    Err(e) => {
                        assert(!instance_ok(entries@[i as int]));
                        assert(!instance_entries_ok(entries@));
                        return Err(e);
                    },
                };
                instances_instance.add_attribute(name, a);
                i = i + 1;
            }
            Ok(())
        },
        _ => Err(schema_error("instances", "instances must be a mapping")),
    }
}

/// Reads one value of an enumeration: an unsigned 32-bit number and its name.
fn parse_enum_variant(variant_value: &YamlValue, variant_name: &YamlValue) -> (r: Result<(u32, String), KaitaiError>)
    ensures
        r matches Ok((k, n)) ==> *variant_value == YamlValue::Integer(k as i128) && as_text(*variant_name) == Some(n@),
        r is Ok <==> (*variant_value matches YamlValue::Integer(k) && 0 <= k <= u32::MAX && *variant_name is String),
        r matches Err(e) ==> e is SchemaError,
{
    match (variant_value, variant_name) {
        (YamlValue::Integer(k), YamlValue::String(n)) => {
            if 0 <= *k && *k <= 0xffff_ffff {
                Ok((*k as u32, n.clone()))
            } else {
                Err(schema_error("enums", "an enum value must be an unsigned 32-bit number"))
            }
        },
        _ => Err(schema_error("enums", "an enum entry must map a number to a name")),
    }
}

/// Whether one value of an enumeration loads: an unsigned 32-bit number and a name.
pub open spec fn variant_ok(e: (YamlValue, YamlValue)) -> bool {
    e.0 matches YamlValue::Integer(k) && 0 <= k <= u32::MAX && e.1 is String
}

/// Whether no value of an enumeration appears twice.
pub open spec fn variants_distinct(m: Seq<(YamlValue, YamlValue)>) -> bool {
    forall|a: int, b: int| 0 <= a < b < m.len() ==> m[a].0 != m[b].0
}

/// Whether one enumeration loads: a name that passes the enum-name and identifier
/// patterns, and a mapping of distinct values to names.
pub open spec fn enum_ok(name: YamlValue, values: YamlValue) -> bool {
    &&& name matches YamlValue::String(s) && pattern_compiles(Config::ENUM_NAME_PATTERN@) && pattern_matches(
        Config::ENUM_NAME_PATTERN@,
        s@,
    ) && identifier_accepts(seq![s@])
    &&& values matches YamlValue::Mapping(m) && (forall|i: int| 0 <= i < m@.len() ==> variant_ok(#[trigger] m@[i]))
        && variants_distinct(m@)
}

/// Whether one entry of an `enums` section loads.
pub open spec fn enum_entry_ok(e: (YamlValue, YamlValue)) -> bool {
    enum_ok(e.0, e.1)
}

/// Whether an `enums` section loads.
pub open spec fn enums_ok(v: YamlValue) -> bool {
    match v {
        YamlValue::Mapping(entries) => enum_entries_ok(entries@),
        _ => false,
    }
}

/// Whether every entry of an `enums` section loads.
pub open spec fn enum_entries_ok(s: Seq<(YamlValue, YamlValue)>) -> bool {
    forall|i: int| 0 <= i < s.len() ==> enum_entry_ok(#[trigger] s[i])
}

/// Reads one enumeration: a name checked against the enum-name pattern, and a mapping
/// of values to names.
fn parse_enum(enums_instance: &mut Enums, enum_name: &YamlValue, enum_values: &YamlValue) -> (r: Result<(), KaitaiError>)
    requires
        names_unique(old(enums_instance).enums_specs@),
    ensures
        names_unique(final(enums_instance).enums_specs@),
        r is Ok <==> enum_ok(*enum_name, *enum_values),
        r matches Err(e) ==> (e is SchemaError || e is InvalidValue || e is InvalidPattern),
{
    let name = match enum_name {
        YamlValue::String(s) => s,
        _ => {
            return Err(schema_error("enums", "an enum name must be a string"));
        },
    };
    let values = match enum_values {
        YamlValue::Mapping(m) => m,
        _ => {
            return Err(schema_error("enums", "an enum must be a mapping"));
        },
    };
    let names: Vec<String> = vec![name.clone()];
    assert(strings_view(names@) =~= seq![name@]);
    let mut identifier = Identifier::new();
    identifier.from_string_vec(names)?;
    let mut pairs: Vec<(u32, String)> = Vec::new();
    let mut i: usize = 0;
    while i < values.len()
        invariant
            i <= values@.len(),
            pairs@.len() == i,
            *enum_values == YamlValue::Mapping(*values),
            enums_instance.enums_specs@ == old(enums_instance).enums_specs@,
            names_unique(old(enums_instance).enums_specs@),
            forall|j: int| 0 <= j < i ==> variant_ok(#[trigger] values@[j]),
            forall|j: int| 0 <= j < i ==> values@[j].0 == YamlValue::Integer(#[trigger] pairs@[j].0 as i128),
        decreases values@.len() - i,
    {
        let p = parse_enum_variant(&values[i].0, &values[i].1)?;
        pairs.push(p);
        i = i + 1;
    }
    proof {
        assert forall|a: int, b: int| 0 <= a < b < pairs@.len() implies (pairs@[a].0 != pairs@[b].0 <==> values@[a].0
            != values@[b].0) by {
            assert(values@[a].0 == YamlValue::Integer(pairs@[a].0 as i128));
            assert(values@[b].0 == YamlValue::Integer(pairs@[b].0 as i128));
        }
    }
    let e = Enum::new(name.clone(), pairs)?;
    enums_instance.add_enum(identifier, e)?;
    Ok(())
}

/// Reads an `enums` section: a mapping from enum names to enumerations.
pub fn parse_enums(enums_instance: &mut Enums, enums_section: &YamlValue) -> (r: Result<(), KaitaiError>)
    requires
        names_unique(old(enums_instance).enums_specs@),
    ensures
        names_unique(final(enums_instance).enums_specs@),
        r is Ok <==> enums_ok(*enums_section),
        r matches Err(e) ==> (e is SchemaError || e is InvalidValue || e is InvalidPattern),
{
    match enums_section {
        YamlValue::Mapping(entries) => {
            let mut i: usize = 0;
            while i < entries.len()
                invariant
                    i <= entries@.len(),
                    *enums_section == YamlValue::Mapping(*entries),
                    names_unique(enums_instance.enums_specs@),
                    forall|j: int| 0 <= j < i ==> enum_entry_ok(#[trigger] entries@[j]),
                decreases entries@.len() - i,
            {
                let r = parse_enum(enums_instance, &entries[i].0, &entries[i].1);
                if r.is_err() {
                    assert(!enum_entry_ok(entries@[i as int]));
                    assert(!enum_entries_ok(entries@));
                    return r;
                }
                i = i + 1;
            }
            Ok(())
        },
        _ => Err(schema_error("enums", "enums must be a mapping")),
    }
}

/// Reads the `type` of a parameter: a type name.
pub fn parse_type(params_instance: &mut Option<Type>, param_type: &YamlValue) -> (r: Result<(), KaitaiError>)
    ensures
        r is Ok <==> as_text(*param_type) is Some,
        r is Ok ==> (as_text(*param_type) matches Some(s) && *final(params_instance) matches Some(t)
            && t.is_array == has_array_suffix(s) && pure_type_matches(t.pure_type, base_type_name(s))),
        r is Err ==> *final(params_instance) == *old(params_instance),
        r matches Err(e) ==> e is SchemaError,
{
    match param_type {
        YamlValue::String(s) => {
            *params_instance = Some(parse_kaitai_type(s.as_str()));
            Ok(())
        },
        _ => Err(schema_error("params", "a parameter type must be a string")),
    }
}

/// Whether one parameter loads: a mapping whose `id` is an identifier, `type` and `doc`
/// are strings, and `doc-ref` is accepted.
pub open spec fn paramspec_ok(v: YamlValue) -> bool {
    match v {
        YamlValue::Mapping(m) => {
            &&& (yaml_get(m@, "id"@) matches Some(x) ==> (as_text(x) matches Some(s) && identifier_accepts(
                seq![s],
            )))
            &&& (yaml_get(m@, "type"@) matches Some(x) ==> as_text(x) is Some)
            &&& (yaml_get(m@, "doc"@) matches Some(x) ==> as_text(x) is Some)
            &&& (yaml_get(m@, "doc-ref"@) matches Some(x) ==> doc_ref_ok(x))
        },
        _ => false,
    }
}

/// Whether every parameter of a sequence loads.
pub open spec fn paramspecs_ok(s: Seq<YamlValue>) -> bool {
    forall|i: int| 0 <= i < s.len() ==> paramspec_ok(#[trigger] s[i])
}

/// Whether a `params` section loads.
pub open spec fn params_ok(v: YamlValue) -> bool {
    match v {
        YamlValue::Sequence(items) => paramspecs_ok(items@),
        _ => false,
    }
}

/// Reads one parameter: a mapping with `id`, `type`, `doc` and `doc-ref`.
pub fn parse_paramspec(params_instance: &mut Params, param_spec: &YamlValue) -> (r: Result<(), KaitaiError>)
    ensures
        r is Ok ==> final(params_instance).params_spec@.len() == old(params_instance).params_spec@.len() + 1,
        r is Ok <==> paramspec_ok(*param_spec),
        r matches Err(e) ==> (e is SchemaError || e is InvalidValue || e is InvalidPattern),
{
    let m = match param_spec {
        YamlValue::Mapping(m) => m,
        _ => {
            return Err(schema_error("params", "a parameter must be a mapping"));
        },
    };
    let mut spec = ParamSpec::new();
    match map_get(m, "id") {
        Some(YamlValue::String(s)) => {
            let id = parse_identifier(s.as_str())?;
            spec.set_identifier(id);
        },
        Some(_) => {
            return Err(schema_error("params", "a parameter id must be a string"));
        },
        None => {},
    }
    let mut param_type: Option<Type> = None;
    match map_get(m, "type") {
        Some(v) => parse_type(&mut param_type, v)?,
        None => {},
    }
    spec.param_type = param_type;
    match map_get(m, "doc") {
        Some(v) => parse_doc(&mut spec.doc, v)?,
        None => {},
    }
    match map_get(m, "doc-ref") {
        Some(v) => parse_doc_ref(&mut spec.doc_ref, v)?,
        None => {},
    }
    params_instance.params_spec.push(spec);
    Ok(())
}

/// Reads a `params` section: a sequence of parameters.
pub fn parse_params(params_instance: &mut Params, params: &YamlValue) -> (r: Result<(), KaitaiError>)
    ensures
        *params matches YamlValue::Sequence(items) ==> (r is Ok ==> final(params_instance).params_spec@.len()
            == old(params_instance).params_spec@.len() + items@.len()),
        r is Ok <==> params_ok(*params),
        r matches Err(e) ==> (e is SchemaError || e is InvalidValue || e is InvalidPattern),
{
    match params {
        YamlValue::Sequence(items) => {
            let mut i: usize = 0;
            while i < items.len()
                invariant
                    i <= items@.len(),
                    params_instance.params_spec@.len() == old(params_instance).params_spec@.len() + i,
                    forall|j: int| 0 <= j < i ==> paramspec_ok(#[trigger] items@[j]),
                    *params == YamlValue::Sequence(*items),
                decreases items@.len() - i,
            {
                let r = parse_paramspec(params_instance, &items[i]);
                if r.is_err() {
                    assert(!paramspecs_ok(items@));
                    return r;
                }
                i = i + 1;
            }
            Ok(())
        },
        _ => Err(schema_error("params", "params must be a list")),
    }
}

/// The strings that an `xref` entry holds: a string, a whole number in decimal, or a
/// sequence of strings.
pub open spec fn xref_values(v: YamlValue) -> Option<Seq<Seq<char>>> {
    match v {
        YamlValue::String(s) => Some(seq![s@]),
        YamlValue::Integer(n) => if 0 <= n <= u64::MAX {
            Some(seq![crate::meta::decimal_of(n as nat)])
        } else {
            None
        },
        YamlValue::Sequence(items) => if forall|i: int| 0 <= i < items@.len() ==> (#[trigger] items@[i]) is String {
            Some(items@.map_values(|x: YamlValue| as_text(x).unwrap()))
        } else {
            None
        },
        _ => None,
    }
}

/// The strings of a sequence whose items must all be strings.
fn strings_of(items: &Vec<YamlValue>) -> (r: Option<Vec<String>>)
    ensures
        r is Some <==> forall|i: int| 0 <= i < items@.len() ==> (#[trigger] items@[i]) is String,
        r matches Some(v) ==> strings_view(v@) == items@.map_values(|x: YamlValue| as_text(x).unwrap()),
{
    let mut out: Vec<String> = Vec::new();
    let mut i: usize = 0;
    while i < items.len()
        invariant
            i <= items@.len(),
            forall|j: int| 0 <= j < i ==> (#[trigger] items@[j]) is String,
            strings_view(out@) == items@.subrange(0, i as int).map_values(|x: YamlValue| as_text(x).unwrap()),
        decreases items@.len() - i,
    {
        let ghost prev = out@;
        match &items[i] {
            YamlValue::String(s) => {
                let c = s.clone();
                assert(as_text(items@[i as int]) == Some(c@));
                out.push(c);
                assert(out@ == prev.push(c));
            },
            _ => {
                return None;
            },
        }
        proof {
            assert(strings_view(out@) =~= strings_view(prev).push(as_text(items@[i as int]).unwrap()));
            assert(items@.subrange(0, i as int + 1).map_values(|x: YamlValue| as_text(x).unwrap())
                =~= items@.subrange(0, i as int).map_values(|x: YamlValue| as_text(x).unwrap()).push(as_text(items@[i as int]).unwrap()));
        }
        i = i + 1;
    }
    assert(items@.subrange(0, i as int) =~= items@);
    Some(out)
}

fn xref_values_of(v: &YamlValue) -> (r: Result<Vec<String>, KaitaiError>)
    ensures
        r is Ok <==> xref_values(*v) is Some,
        r matches Ok(x) ==> xref_values(*v) == Some(strings_view(x@)),
        r matches Err(e) ==> e is SchemaError,
{
    match v {
        YamlValue::Sequence(items) => match strings_of(items) {
            Some(x) => Ok(x),
            None => Err(schema_error("xref", "xref lists must hold strings")),
        },
        _ => match scalar_text_of(v) {
            Some(s) => {
                let x = vec![s];
                assert(strings_view(x@) =~= seq![x@[0]@]);
                Ok(x)
            },
            None => Err(schema_error("xref", "an xref entry must be a string, a number or a list of strings")),
        },
    }
}

/// Whether every string of `vals` matches `pattern`.
pub open spec fn vals_match(vals: Seq<Seq<char>>, pattern: Seq<char>) -> bool {
    forall|i: int| 0 <= i < vals.len() ==> pattern_matches(pattern, #[trigger] vals[i])
}

/// Whether the entry under `key`, if present, holds strings that all pass `pattern`.
pub open spec fn xref_key_ok(m: Seq<(YamlValue, YamlValue)>, key: Seq<char>, pattern: Seq<char>) -> bool {
    yaml_get(m, key) matches Some(x) ==> (xref_values(x) matches Some(vals) && pattern_compiles(pattern)
        && vals_match(vals, pattern))
}

/// Whether an `xref` mapping loads.
pub open spec fn xref_ok(v: YamlValue) -> bool {
    match v {
        YamlValue::Mapping(m) => {
            &&& xref_key_ok(m@, "forensicswiki"@, Config::MEDIA_WIKI_PAGE_NAME_PATTERN@)
            &&& xref_key_ok(m@, "wikidata"@, Config::WIKI_DATA_IDENTIFIER_PATTERN@)
            &&& xref_key_ok(m@, "iso"@, Config::ISO_IDENTIFIER_PATTERN@)
            &&& xref_key_ok(m@, "justsolve"@, Config::MEDIA_WIKI_PAGE_NAME_PATTERN@)
            &&& xref_key_ok(m@, "mime"@, Config::MIME_TYPE_PATTERN@)
            &&& xref_key_ok(m@, "pronom"@, Config::PRONOM_IDENTIFIER_PATTERN@)
            &&& xref_key_ok(m@, "loc"@, Config::LOC_IDENTIFIER_PATTERN@)
            &&& xref_key_ok(m@, "rfc"@, Config::RFC_IDENTIFIER_PATTERN@)
        },
        _ => false,
    }
}

proof fn lemma_all_match_views(values: Seq<String>, pattern: Seq<char>)
    ensures
        all_match(values, pattern) == vals_match(strings_view(values), pattern),
{
    if all_match(values, pattern) {
        assert forall|i: int| 0 <= i < strings_view(values).len() implies pattern_matches(
            pattern,
            #[trigger] strings_view(values)[i],
        ) by {
            assert(strings_view(values)[i] == values[i]@);
        }
    }
    if vals_match(strings_view(values), pattern) {
        assert forall|i: int| 0 <= i < values.len() implies pattern_matches(pattern, #[trigger] values[i]@) by {
            assert(strings_view(values)[i] == values[i]@);
        }
    }
}

/// Reads an `xref` mapping into the meta section; each entry passes its pattern.
pub fn parse_xref(meta_instance: &mut Meta, xref_value: &YamlValue) -> (r: Result<(), KaitaiError>)
    ensures
        r is Ok <==> xref_ok(*xref_value),
        *final(meta_instance) == (Meta { xref: final(meta_instance).xref, ..*old(meta_instance) }),
        r is Ok ==> (field(*xref_value, "forensicswiki"@) matches Some(v) ==> (final(meta_instance).xref.forensic_wiki matches Some(x)
            && xref_values(v) == Some(strings_view(x.value@)))),
        r is Ok ==> (field(*xref_value, "wikidata"@) matches Some(v) ==> (final(meta_instance).xref.wikidata matches Some(x)
            && xref_values(v) == Some(strings_view(x.value@)))),
        r is Ok ==> (field(*xref_value, "iso"@) matches Some(v) ==> (final(meta_instance).xref.iso matches Some(x)
            && xref_values(v) == Some(strings_view(x.value@)))),
        r is Ok ==> (field(*xref_value, "justsolve"@) matches Some(v) ==> (final(meta_instance).xref.justsolve matches Some(x)
            && xref_values(v) == Some(strings_view(x.value@)))),
        r is Ok ==> (field(*xref_value, "mime"@) matches Some(v) ==> (final(meta_instance).xref.mime matches Some(x)
            && xref_values(v) == Some(strings_view(x.value@)))),
        r is Ok ==> (field(*xref_value, "pronom"@) matches Some(v) ==> (final(meta_instance).xref.pronom matches Some(x)
            && xref_values(v) == Some(strings_view(x.value@)))),
        r is Ok ==> (field(*xref_value, "loc"@) matches Some(v) ==> (final(meta_instance).xref.loc matches Some(x)
            && xref_values(v) == Some(strings_view(x.value@)))),
        r is Ok ==> (field(*xref_value, "rfc"@) matches Some(v) ==> (final(meta_instance).xref.rfc matches Some(x)
            && xref_values(v) == Some(strings_view(x.value@)))),
        r matches Err(e) ==> (e is SchemaError || e is InvalidValue || e is InvalidPattern),
{
    let m = match xref_value {
        YamlValue::Mapping(m) => m,
        _ => {
            return Err(schema_error("xref", "xref must be a mapping"));
        },
    };
    match map_get(m, "forensicswiki") {
        Some(v) => {
            let values = xref_values_of(v)?;
            proof {
                lemma_all_match_views(values@, Config::MEDIA_WIKI_PAGE_NAME_PATTERN@);
            }
            let x = ForensicWiki::new(values)?;
            meta_instance.xref.set_forensic_wiki(x);
        },
        None => {},
    }
    match map_get(m, "wikidata") {
        Some(v) => {
            let values = xref_values_of(v)?;
            proof {
                lemma_all_match_views(values@, Config::WIKI_DATA_IDENTIFIER_PATTERN@);
            }
            let x = WikiDataIdentifier::new(values)?;
            meta_instance.xref.set_wikidata(x);
        },
        None => {},
    }
    match map_get(m, "iso") {
        Some(v) => {
            let values = xref_values_of(v)?;
            proof {
                lemma_all_match_views(values@, Config::ISO_IDENTIFIER_PATTERN@);
            }
            let x = ISO::new(values)?;
            meta_instance.xref.set_iso(x);
        },
        None => {},
    }
    match map_get(m, "justsolve") {
        Some(v) => {
            let values = xref_values_of(v)?;
            proof {
                lemma_all_match_views(values@, Config::MEDIA_WIKI_PAGE_NAME_PATTERN@);
            }
            let x = JustSolve::new(values)?;
            meta_instance.xref.set_justsolve(x);
        },
        None => {},
    }
    match map_get(m, "mime") {
        Some(v) => {
            let values = xref_values_of(v)?;
            proof {
                lemma_all_match_views(values@, Config::MIME_TYPE_PATTERN@);
            }
            let x = MIMEType::new(values)?;
            meta_instance.xref.set_mime(x);
        },
        None => {},
    }
    match map_get(m, "pronom") {
        Some(v) => {
            let values = xref_values_of(v)?;
            proof {
                lemma_all_match_views(values@, Config::PRONOM_IDENTIFIER_PATTERN@);
            }
            let x = PronomIdentifier::new(values)?;
            meta_instance.xref.set_pronom(x);
        },
        None => {},
    }
    match map_get(m, "loc") {
        Some(v) => {
            let values = xref_values_of(v)?;
            proof {
                lemma_all_match_views(values@, Config::LOC_IDENTIFIER_PATTERN@);
            }
            let x = LocIdentifier::new(values)?;
            meta_instance.xref.set_loc(x);
        },
        None => {},
    }
    match map_get(m, "rfc") {
        Some(v) => {
            let values = xref_values_of(v)?;
            proof {
                lemma_all_match_views(values@, Config::RFC_IDENTIFIER_PATTERN@);
            }
            let x = RFCIdentifier::new(values)?;
            meta_instance.xref.set_rfc(x);
        },
        None => {},
    }
    Ok(())
}

/// The byte order that `s` names, ignoring ASCII case.
pub open spec fn endian_of(s: Seq<char>) -> Option<EndianEnum> {
    if s.len() == 2 && (s[0] == 'l' || s[0] == 'L') && (s[1] == 'e' || s[1] == 'E') {
        Some(EndianEnum::Le)
    } else if s.len() == 2 && (s[0] == 'b' || s[0] == 'B') && (s[1] == 'e' || s[1] == 'E') {
        Some(EndianEnum::Be)
    } else {
        None
    }
}

/// Reads `endian`: `le` or `be`, in any case.
fn parse_endian(meta_instance: &mut Meta, endian_value: &YamlValue) -> (r: Result<(), KaitaiError>)
    ensures
        r is Ok <==> (as_text(*endian_value) matches Some(s) && endian_of(s) is Some),
        r is Ok ==> (as_text(*endian_value) matches Some(s) && endian_of(s) matches Some(e)
            && final(meta_instance).endian == Some(crate::meta::Endian { endian: e })),
        r is Ok ==> *final(meta_instance) == (Meta { endian: final(meta_instance).endian, ..*old(meta_instance) }),
        r is Err ==> *final(meta_instance) == *old(meta_instance),
        r matches Err(e) ==> e is SchemaError,
{
    let s = match endian_value {
        YamlValue::String(s) => s,
        _ => {
            return Err(schema_error("meta", "endian must be a string"));
        },
    };
    let c = chars_of(s.as_str());
    if c.len() == 2 && (c[0] == 'l' || c[0] == 'L') && (c[1] == 'e' || c[1] == 'E') {
        meta_instance.set_endian(EndianEnum::Le);
        Ok(())
    } else if c.len() == 2 && (c[0] == 'b' || c[0] == 'B') && (c[1] == 'e' || c[1] == 'E') {
        meta_instance.set_endian(EndianEnum::Be);
        Ok(())
    } else {
        Err(schema_error("meta", "endian must be le or be"))
    }
}

/// The strings of a value that may be one string or a sequence of strings.
fn string_list(v: &YamlValue, section: &str) -> (r: Result<Vec<String>, KaitaiError>)
    ensures
        r is Ok <==> string_list_values(*v) is Some,
        r matches Ok(x) ==> string_list_values(*v) == Some(strings_view(x@)),
        r matches Err(e) ==> e is SchemaError,
{
    match v {
        YamlValue::String(s) => {
            let x = vec![s.clone()];
            assert(strings_view(x@) =~= seq![s@]);
            Ok(x)
        },
        YamlValue::Sequence(items) => match strings_of(items) {
            Some(x) => Ok(x),
            None => Err(schema_error(section, "a list of strings was expected")),
        },
        _ => Err(schema_error(section, "a string or a list of strings was expected")),
    }
}

/// The strings of a value that is one string or a sequence of strings.
pub open spec fn string_list_values(v: YamlValue) -> Option<Seq<Seq<char>>> {
    match v {
        YamlValue::String(s) => Some(seq![s@]),
        YamlValue::Sequence(items) => if forall|i: int| 0 <= i < items@.len() ==> (#[trigger] items@[i]) is String {
            Some(items@.map_values(|x: YamlValue| as_text(x).unwrap()))
        } else {
            None
        },
        _ => None,
    }
}

/// The version that a `ks-version` value stands for: a whole number, or a number as
/// written.
pub open spec fn version_of(v: YamlValue) -> Option<Result<u64, Seq<char>>> {
    match v {
        YamlValue::Integer(n) => if 0 <= n <= u64::MAX {
            Some(Ok(n as u64))
        } else {
            None
        },
        YamlValue::Float(t) => Some(Err(t@)),
        YamlValue::String(t) => if t@.len() < 0x7fff_ffff_ffff_ffff && (is_integer_literal(t@) || is_float_literal(
            t@,
        )) {
            Some(Err(t@))
        } else {
            None
        },
        _ => None,
    }
}

/// Whether a version value holds what `v` stands for.
pub open spec fn version_matches(w: Result<u64, Seq<char>>, v: KsVersionValue) -> bool {
    match (w, v) {
        (Ok(n), KsVersionValue::Number(m)) => n == m,
        (Err(t), KsVersionValue::String(s)) => t == s@,
        _ => false,
    }
}

/// The whole number that a version value holds, if it is one that fits.
pub open spec fn version_number(v: YamlValue) -> Option<u64> {
    match v {
        YamlValue::Integer(n) => if 0 <= n <= u64::MAX {
            Some(n as u64)
        } else {
            None
        },
        _ => None,
    }
}

/// Reads `ks-version`: a whole number, a number as written, or a string that is a number.
fn parse_version(meta_instance: &mut Meta, version_value: &YamlValue) -> (r: Result<(), KaitaiError>)
    ensures
        version_number(*version_value) is Some ==> r is Ok,
        version_number(*version_value) matches Some(n) ==> (final(meta_instance).ks_version matches Some(v)
            && v.value == KsVersionValue::Number(n)),
        r is Ok <==> version_of(*version_value) is Some,
        r is Ok ==> (version_of(*version_value) matches Some(w) && final(meta_instance).ks_version matches Some(
            v,
        ) && version_matches(w, v.value)),
        r is Ok ==> *final(meta_instance) == (Meta { ks_version: final(meta_instance).ks_version, ..*old(meta_instance) }),
        r is Err ==> *final(meta_instance) == *old(meta_instance),
        r matches Err(e) ==> e is SchemaError,
{
    let value = match version_value {
        YamlValue::Integer(n) => {
            if 0 <= *n && *n <= 0xffff_ffff_ffff_ffff {
                KsVersionValue::Number(*n as u64)
            } else {
                return Err(schema_error("meta", "ks-version is out of range"));
            }
        },
        YamlValue::Float(text) => KsVersionValue::String(text.clone()),
        YamlValue::String(text) => {
            let c = chars_of(text.as_str());
            let n = c.len();
            assert(c@.subrange(0, n as int) =~= c@);
            if (n as u64) < 0x7fff_ffff_ffff_ffff && (check_integer_literal(&c, 0, n) || check_float(&c, 0, n)) {
                KsVersionValue::String(text.clone())
            } else {
                return Err(schema_error("meta", "ks-version must be a number"));
            }
        },
        _ => {
            return Err(schema_error("meta", "ks-version must be a number"));
        },
    };
    meta_instance.set_ks_version(KsVersion::new(value));
    Ok(())
}

/// Whether a `meta` section loads: a mapping whose every known field is well formed.
pub open spec fn meta_ok(v: YamlValue) -> bool {
    match v {
        YamlValue::Mapping(m) => meta_fields_ok(m@),
        _ => false,
    }
}

/// Whether every known field of a `meta` mapping is well formed.
pub open spec fn meta_fields_ok(m: Seq<(YamlValue, YamlValue)>) -> bool {
    meta_lists_ok(m) && meta_names_ok(m)
}

/// Whether the list, version and text fields of a `meta` mapping are well formed.
pub open spec fn meta_lists_ok(m: Seq<(YamlValue, YamlValue)>) -> bool {
    &&& (yaml_get(m, "application"@) matches Some(x) ==> string_list_values(x) is Some)
    &&& (yaml_get(m, "file-extension"@) matches Some(x) ==> string_list_values(x) is Some)
    &&& (yaml_get(m, "license"@) matches Some(x) ==> as_text(x) is Some)
    &&& (yaml_get(m, "ks-version"@) matches Some(x) ==> version_of(x) is Some)
    &&& (yaml_get(m, "ks-opaque-types"@) matches Some(x) ==> x is Bool)
    &&& (yaml_get(m, "imports"@) matches Some(x) ==> (string_list_values(x) matches Some(vals) && pattern_compiles(
        Config::IMPORT_PATTERN@,
    ) && vals_match(vals, Config::IMPORT_PATTERN@)))
    &&& (yaml_get(m, "encoding"@) matches Some(x) ==> as_text(x) is Some)
}

/// Whether the naming, byte-order and cross-reference fields of a `meta` mapping are
/// well formed.
pub open spec fn meta_names_ok(m: Seq<(YamlValue, YamlValue)>) -> bool {
    &&& (yaml_get(m, "id"@) matches Some(x) ==> (as_text(x) matches Some(s) && identifier_accepts(seq![s])))
    &&& (yaml_get(m, "title"@) matches Some(x) ==> as_text(x) is Some)
    &&& (yaml_get(m, "ks-debug"@) matches Some(x) ==> x is Bool)
    &&& (yaml_get(m, "endian"@) matches Some(x) ==> (as_text(x) matches Some(s) && endian_of(s) is Some))
    &&& (yaml_get(m, "xref"@) matches Some(x) ==> xref_ok(x))
}

/// What the list, version and text fields of a loaded `meta` hold.
pub open spec fn meta_lists_from(m: Seq<(YamlValue, YamlValue)>, meta: Meta) -> bool {
    &&& (yaml_get(m, "application"@) matches Some(v) ==> (meta.application matches Some(x) && string_list_values(v)
        == Some(strings_view(x@))))
    &&& (yaml_get(m, "file-extension"@) matches Some(v) ==> (meta.file_extension matches Some(x)
        && string_list_values(v) == Some(strings_view(x@))))
    &&& (yaml_get(m, "imports"@) matches Some(v) ==> (meta.imports matches Some(x) && string_list_values(v) == Some(
        strings_view(x@),
    )))
    &&& (yaml_get(m, "license"@) matches Some(v) ==> opt_str_view(meta.license) == as_text(v))
    &&& (yaml_get(m, "encoding"@) matches Some(v) ==> opt_str_view(meta.encoding) == as_text(v))
    &&& (yaml_get(m, "ks-version"@) matches Some(v) ==> (version_of(v) matches Some(w) && meta.ks_version matches Some(
        kv,
    ) && version_matches(w, kv.value)))
    &&& (yaml_get(m, "ks-opaque-types"@) matches Some(v) ==> v == YamlValue::Bool(meta.ks_opaque_types))
}

/// Reads the list, version and text fields of a `meta` mapping.
fn parse_meta_lists(meta_instance: &mut Meta, m: &Vec<(YamlValue, YamlValue)>) -> (r: Result<(), KaitaiError>)
    ensures
        r is Ok <==> meta_lists_ok(m@),
        r is Ok ==> meta_lists_from(m@, *final(meta_instance)),
        final(meta_instance).identifier == old(meta_instance).identifier && final(meta_instance).title == old(
            meta_instance,
        ).title && final(meta_instance).ks_debug == old(meta_instance).ks_debug && final(meta_instance).endian == old(
            meta_instance,
        ).endian && final(meta_instance).xref == old(meta_instance).xref,
        r matches Err(e) ==> (e is SchemaError || e is InvalidValue || e is InvalidPattern),
{
    match map_get(m, "application") {
        Some(v) => {
            let x = string_list(v, "meta")?;
            meta_instance.set_application(x);
        },
        None => {},
    }
    match map_get(m, "file-extension") {
        Some(v) => {
            let x = string_list(v, "meta")?;
            meta_instance.set_file_extension(x);
        },
        None => {},
    }
    match map_get(m, "license") {
        Some(YamlValue::String(s)) => meta_instance.set_license(s.clone()),
        Some(_) => {
            return Err(schema_error("meta", "license must be a string"));
        },
        None => {},
    }
    match map_get(m, "ks-version") {
        Some(v) => parse_version(meta_instance, v)?,
        None => {},
    }
    match map_get(m, "ks-opaque-types") {
        Some(YamlValue::Bool(b)) => meta_instance.set_ks_opaque_types(*b),
        Some(_) => {
            return Err(schema_error("meta", "ks-opaque-types must be a boolean"));
        },
        None => {},
    }
    match map_get(m, "imports") {
        Some(v) => {
            let x = string_list(v, "meta")?;
            proof {
                lemma_all_match_views(x@, Config::IMPORT_PATTERN@);
            }
            meta_instance.set_imports(x)?;
        },
        None => {},
    }
    match map_get(m, "encoding") {
        Some(YamlValue::String(s)) => meta_instance.set_encoding(s.clone()),
        Some(_) => {
            return Err(schema_error("meta", "encoding must be a string"));
        },
        None => {},
    }
    Ok(())
}

/// Reads a `meta` section.
pub fn parse_meta(meta_instance: &mut Meta, meta: &YamlValue) -> (r: Result<(), KaitaiError>)
    ensures
        r is Ok <==> meta_ok(*meta),
        r is Ok ==> (*meta matches YamlValue::Mapping(m) && meta_lists_from(m@, *final(meta_instance))),
        r is Ok ==> (field(*meta, "id"@) matches Some(v) ==> (as_text(v) matches Some(s) && strings_view(
            final(meta_instance).identifier.value@,
        ) == seq![s] && identifier_accepts(seq![s]))),
        r is Ok ==> (field(*meta, "title"@) matches Some(v) ==> opt_str_view(final(meta_instance).title)
            == as_text(v) && as_text(v) is Some),
        r is Ok ==> (field(*meta, "endian"@) matches Some(v) ==> (as_text(v) matches Some(s) && endian_of(
            s,
        ) matches Some(e) && final(meta_instance).endian == Some(crate::meta::Endian { endian: e }))),
        r is Ok ==> (field(*meta, "ks-debug"@) matches Some(v) ==> v == YamlValue::Bool(
            final(meta_instance).ks_debug,
        )),
        r matches Err(e) ==> (e is SchemaError || e is InvalidValue || e is InvalidPattern),
{
    let m = match meta {
        YamlValue::Mapping(m) => m,
        _ => {
            return Err(schema_error("meta", "meta must be a mapping"));
        },
    };
    let ghost before = *meta_instance;
    parse_meta_lists(meta_instance, m)?;
    let ghost lists = *meta_instance;
    match map_get(m, "xref") {
        Some(v) => parse_xref(meta_instance, v)?,
        None => {},
    }
    match map_get(m, "endian") {
        Some(v) => parse_endian(meta_instance, v)?,
        None => {},
    }
    match map_get(m, "ks-debug") {
        Some(YamlValue::Bool(b)) => meta_instance.set_ks_debug(*b),
        Some(_) => {
            return Err(schema_error("meta", "ks-debug must be a boolean"));
        },
        None => {},
    }
    match map_get(m, "title") {
        Some(YamlValue::String(s)) => meta_instance.set_title(s.clone()),
        Some(_) => {
            return Err(schema_error("meta", "title must be a string"));
        },
        None => {},
    }
    match map_get(m, "id") {
        Some(YamlValue::String(s)) => {
            meta_instance.identifier.from_string(s.as_str())?;
        },
        Some(_) => {
            return Err(schema_error("meta", "id must be a string"));
        },
        None => {},
    }
    Ok(())
}

/// Whether a `seq` section loads: a sequence of attributes that load.
pub open spec fn seq_ok(v: YamlValue) -> bool {
    match v {
        YamlValue::Sequence(items) => attributes_ok(items@),
        _ => false,
    }
}

/// Whether every attribute of a sequence loads.
pub open spec fn attributes_ok(s: Seq<YamlValue>) -> bool {
    forall|i: int| 0 <= i < s.len() ==> attribute_ok(#[trigger] s[i])
}

/// Whether the sections of a schema, or of a user type, load from the mapping `m`.
pub open spec fn struct_ok(m: Seq<(YamlValue, YamlValue)>) -> bool
    decreases m,
{
    &&& (yaml_get(m, "meta"@) matches Some(x) ==> meta_ok(x))
    &&& (yaml_get(m, "doc"@) matches Some(x) ==> as_text(x) is Some)
    &&& (yaml_get(m, "doc-ref"@) matches Some(x) ==> doc_ref_ok(x))
    &&& (yaml_get(m, "params"@) matches Some(x) ==> params_ok(x))
    &&& (yaml_get(m, "instances"@) matches Some(x) ==> instances_ok(x))
    &&& (yaml_get(m, "enums"@) matches Some(x) ==> enums_ok(x))
    &&& (yaml_get(m, "seq"@) matches Some(x) ==> seq_ok(x))
    &&& (0 <= yaml_index(m, "types"@) < m.len() ==> types_ok(m[yaml_index(m, "types"@)].1))
}

/// Whether a `types` section loads: a mapping from names to user types that load.
pub open spec fn types_ok(v: YamlValue) -> bool
    decreases v,
{
    match v {
        YamlValue::Mapping(entries) => typespecs_ok(entries@),
        _ => false,
    }
}

/// Whether every entry of a `types` mapping loads.
pub open spec fn typespecs_ok(s: Seq<(YamlValue, YamlValue)>) -> bool
    decreases s,
{
    if s.len() == 0 {
        true
    } else {
        typespecs_ok(s.drop_last()) && typespec_ok(s.last().0, s.last().1)
    }
}

/// Whether one user type loads: a name that is an identifier, and a mapping whose
/// sections load.
pub open spec fn typespec_ok(name: YamlValue, value: YamlValue) -> bool
    decreases value,
{
    &&& name matches YamlValue::String(s) && identifier_accepts(seq![s@])
    &&& match value {
        YamlValue::Mapping(m) => struct_ok(m@),
        _ => false,
    }
}

/// Reads the sections of a schema, or of a user type, from a mapping. Unknown keys
/// are ignored.
fn parse_struct_fields(m: &Vec<(YamlValue, YamlValue)>) -> (r: Result<KsyStruct, KaitaiError>)
    ensures
        r is Ok <==> struct_ok(m@),
        r matches Ok(k) ==> (yaml_get(m@, "seq"@) matches Some(v) ==> (v matches YamlValue::Sequence(
            items,
        ) && k.seq.attributes@.len() == items@.len())),
        r matches Ok(k) ==> (yaml_get(m@, "seq"@) is None ==> k.seq.attributes@.len() == 0),
        r matches Ok(k) ==> (yaml_get(m@, "meta"@) is None ==> k.meta.endian is None),
        r matches Ok(k) ==> (yaml_get(m@, "meta"@) matches Some(mv) ==> (field(mv, "endian"@) matches Some(
            v,
        ) ==> (as_text(v) matches Some(s) && endian_of(s) matches Some(e) && k.meta.endian == Some(
            crate::meta::Endian { endian: e },
        )))),
        r matches Ok(k) ==> (yaml_get(m@, "meta"@) matches Some(mv) ==> (field(mv, "id"@) matches Some(v)
            ==> (as_text(v) matches Some(s) && strings_view(k.meta.identifier.value@) == seq![s]))),
        r matches Ok(k) ==> names_unique(k.types.types@) && names_unique(k.enums.enums_specs@)
            && names_unique(k.instances.instances_spec@),
        r matches Err(e) ==> (e is SchemaError || e is InvalidValue || e is InvalidPattern),
    decreases m,
{
    let mut k = KsyStruct::new();
    match map_get(m, "meta") {
        Some(v) => parse_meta(&mut k.meta, v)?,
        None => {},
    }
    match map_get(m, "doc") {
        Some(v) => parse_doc(&mut k.doc, v)?,
        None => {},
    }
    match map_get(m, "doc-ref") {
        Some(v) => parse_doc_ref(&mut k.doc_ref, v)?,
        None => {},
    }
    match map_get(m, "params") {
        Some(v) => parse_params(&mut k.params, v)?,
        None => {},
    }
    match map_get(m, "instances") {
        Some(v) => parse_instances(&mut k.instances, v)?,
        None => {},
    }
    match map_get(m, "enums") {
        Some(v) => parse_enums(&mut k.enums, v)?,
        None => {},
    }
    proof {
        lemma_yaml_index(m@, "types"@);
    }
    match map_find(m, "types") {
        Some(j) => {
            assert(decreases_to!(m => m@[j as int].1));
            parse_types(&mut k.types, &m[j].1)?;
        },
        None => {},
    }
    match map_get(m, "seq") {
        Some(v) => {
            let mut seq = Sequence::new();
            parse_seq(&mut seq, v)?;
            k.seq = seq;
        },
        None => {},
    }
    Ok(k)
}

/// Reads one user type: a name and a schema-shaped mapping.
fn parse_typespec(types_instance: &mut Types, typespec_name: &YamlValue, typespec_values: &YamlValue) -> (r: Result<(), KaitaiError>)
    requires
        names_unique(old(types_instance).types@),
    ensures
        names_unique(final(types_instance).types@),
        r is Ok <==> typespec_ok(*typespec_name, *typespec_values),
        r is Ok ==> (*typespec_name matches YamlValue::String(s) && exists|i: int| 0 <= i < final(types_instance).types@.len()
            && strings_view(final(types_instance).types@[i].0.value@) == seq![s@]),
        r matches Err(e) ==> (e is SchemaError || e is InvalidValue || e is InvalidPattern),
    decreases typespec_values,
{
    let name = match typespec_name {
        YamlValue::String(s) => parse_identifier(s.as_str())?,
        _ => {
            return Err(schema_error("types", "a type name must be a string"));
        },
    };
    let m = match typespec_values {
        YamlValue::Mapping(m) => m,
        _ => {
            return Err(schema_error("types", "a type must be a mapping"));
        },
    };
    let k = parse_struct_fields(m)?;
    let spec = TypeSpec::new(k.meta, k.params, k.seq, k.types, k.enums, k.instances, k.doc, k.doc_ref);
    types_instance.add_typespec(name, spec)?;
    Ok(())
}

proof fn lemma_typespecs_prefix(s: Seq<(YamlValue, YamlValue)>, k: int)
    requires
        0 <= k <= s.len(),
        !typespecs_ok(s.subrange(0, k)),
    ensures
        !typespecs_ok(s),
    decreases s.len() - k,
{
    if k < s.len() {
        assert(s.subrange(0, k + 1).drop_last() =~= s.subrange(0, k));
        lemma_typespecs_prefix(s, k + 1);
    } else {
        assert(s.subrange(0, k) =~= s);
    }
}

/// Reads a `types` section: a mapping from type names to user types.
pub fn parse_types(types_instance: &mut Types, types_section: &YamlValue) -> (r: Result<(), KaitaiError>)
    requires
        names_unique(old(types_instance).types@),
    ensures
        names_unique(final(types_instance).types@),
        r is Ok <==> types_ok(*types_section),
        r matches Err(e) ==> (e is SchemaError || e is InvalidValue || e is InvalidPattern),
    decreases types_section,
{
    match types_section {
        YamlValue::Mapping(entries) => {
            let mut i: usize = 0;
            while i < entries.len()
                invariant
                    i <= entries@.len(),
                    names_unique(types_instance.types@),
                    *types_section == YamlValue::Mapping(*entries),
                    typespecs_ok(entries@.subrange(0, i as int)),
                decreases entries@.len() - i,
            {
                proof {
                    let e = entries@[i as int];
                    assert((*types_section)->Mapping_0 == *entries);
                    assert(decreases_to!(*types_section => (*types_section)->Mapping_0));
                    assert(decreases_to!(*entries => entries@));
                    assert(decreases_to!(entries@ => e));
                    assert(decreases_to!(e => e.1));
                    assert(decreases_to!(*types_section => e.1));
                }
                let ghost pre = entries@.subrange(0, i as int + 1);
                assert(pre.drop_last() =~= entries@.subrange(0, i as int));
                assert(pre.last() == entries@[i as int]);
                let r = parse_typespec(types_instance, &entries[i].0, &entries[i].1);
                if r.is_err() {
                    proof {
                        lemma_typespecs_prefix(entries@, i as int + 1);
                    }
                    return r;
                }
                i = i + 1;
            }
            assert(entries@.subrange(0, i as int) =~= entries@);
            Ok(())
        },
        _ => Err(schema_error("types", "types must be a mapping")),
    }
}

/// Whether a schema document loads: a mapping whose `meta` names the schema with an
/// `id`, and whose sections load.
pub open spec fn schema_ok(v: YamlValue) -> bool {
    match v {
        YamlValue::Mapping(m) => (yaml_get(m@, "meta"@) matches Some(mv) && field(mv, "id"@) is Some) && struct_ok(
            m@,
        ),
        _ => false,
    }
}

/// Loads a schema from its YAML document: a mapping whose `meta` section names the
/// schema with an identifier. Unknown keys are ignored.
pub fn parse_sections(yaml_value: &YamlValue) -> (r: Result<KsyStruct, KaitaiError>)
    ensures
        r is Ok <==> schema_ok(*yaml_value),
        r is Ok ==> (field(*yaml_value, "meta"@) matches Some(mv) && field(mv, "id"@) is Some),
        r matches Ok(k) ==> (field(*yaml_value, "meta"@) matches Some(mv) ==> (field(mv, "id"@) matches Some(
            v,
        ) ==> (as_text(v) matches Some(s) && strings_view(k.meta.identifier.value@) == seq![s]))),
        r matches Ok(k) ==> (field(*yaml_value, "seq"@) matches Some(v) ==> (v matches YamlValue::Sequence(
            items,
        ) && k.seq.attributes@.len() == items@.len())),
        r matches Ok(k) ==> (field(*yaml_value, "seq"@) is None ==> k.seq.attributes@.len() == 0),
        r matches Ok(k) ==> (field(*yaml_value, "meta"@) matches Some(mv) ==> (field(mv, "endian"@) matches Some(
            v,
        ) ==> (as_text(v) matches Some(s) && endian_of(s) matches Some(e) && k.meta.endian == Some(
            crate::meta::Endian { endian: e },
        )))),
        r matches Err(e) ==> (e is SchemaError || e is InvalidValue || e is InvalidPattern),
{
    let m = match yaml_value {
        YamlValue::Mapping(m) => m,
        _ => {
            return Err(schema_error("root", "a schema must be a mapping"));
        },
    };
    let has_id = match map_get(m, "meta") {
        Some(mv) => get_field(mv, "id").is_some(),
        None => false,
    };
    if !has_id {
        return Err(schema_error("meta", "meta.id is required"));
    }
    parse_struct_fields(m)
}

} // verus!
