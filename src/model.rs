use vstd::prelude::*;
use crate::attribute::Attribute;
use crate::config::Config;
use crate::errors::KaitaiError;
use crate::identifier::{identifier_eq, same_identifier, Identifier};
use crate::kaitai_type::Type;
use crate::meta::Meta;
use crate::utils::{
    all_match, opt_str_view, pattern_compiles, pattern_group, pattern_matches, regex_named_group,
    validate_values,
};

verus! {

/// A free-text description.
#[derive(Debug)]
pub struct Doc {
    pub description: Option<String>,
}

impl Doc {
    /// A description that is not set.
    pub fn new() -> (r: Self)
        ensures
            r.description is None,
    {
        Doc { description: None }
    }

    /// Sets the description.
    pub fn set_description(&mut self, description: Option<String>)
        ensures
            final(self).description == description,
    {
        self.description = description;
    }
}

/// References to outside documentation.
#[derive(Debug)]
pub struct DocRef {
    pub content: Vec<DocRefElement>,
}

/// One reference: a URL and optional free text after it.
#[derive(Debug)]
pub struct DocRefElement {
    pub url: Option<String>,
    pub arbitrary_string: Option<String>,
}

impl DocRef {
    /// No references.
    pub fn new() -> (r: Self)
        ensures
            r.content@.len() == 0,
    {
        DocRef { content: Vec::new() }
    }

    /// Splits `url` against the doc-ref pattern into its URL and free text, and appends it.
    pub fn add_docref(&mut self, url: &str) -> (r: Result<(), KaitaiError>)
        ensures
            r is Ok <==> (pattern_compiles(Config::DOCREF_PATTERN@) && pattern_matches(
                Config::DOCREF_PATTERN@,
                url@,
            )),
            r is Ok ==> final(self).content@.len() == old(self).content@.len() + 1,
            r is Ok ==> final(self).content@.drop_last() == old(self).content@,
            r is Ok ==> opt_str_view(final(self).content@.last().url) == pattern_group(
                Config::DOCREF_PATTERN@,
                url@,
                "URL"@,
            ),
            r is Ok ==> opt_str_view(final(self).content@.last().arbitrary_string)
                == pattern_group(Config::DOCREF_PATTERN@, url@, "arbitrary_string"@),
            r is Err ==> final(self).content@ == old(self).content@,
            r matches Err(e) ==> e is InvalidValue,
    {
        let u = regex_named_group(Config::DOCREF_PATTERN, url, "URL");
        let a = regex_named_group(Config::DOCREF_PATTERN, url, "arbitrary_string");
        match (u, a) {
            (Some(url_part), Some(arbitrary_part)) => {
                self.content.push(DocRefElement { url: url_part, arbitrary_string: arbitrary_part });
                proof {
                    assert(self.content@.drop_last() =~= old(self).content@);
                }
                Ok(())
            },
            _ => Err(
                KaitaiError::InvalidValue {
                    pattern: Config::DOCREF_PATTERN.to_string(),
                    value: url.to_string(),
                },
            ),
        }
    }
}

/// A named enumeration: integer values and their symbolic names.
#[derive(Debug)]
pub struct Enum {
    pub name: String,
    pub values: Vec<(u32, String)>,
}

/// Whether no key appears twice.
pub open spec fn keys_unique<K, V>(entries: Seq<(K, V)>) -> bool {
    forall|i: int, j: int| 0 <= i < j < entries.len() ==> entries[i].0 != entries[j].0
}

impl Enum {
    /// An enumeration whose name matches the enum-name pattern and whose keys are distinct.
    pub fn new(name: String, values: Vec<(u32, String)>) -> (r: Result<Self, KaitaiError>)
        ensures
            r is Ok <==> (pattern_compiles(Config::ENUM_NAME_PATTERN@) && pattern_matches(
                Config::ENUM_NAME_PATTERN@,
                name@,
            ) && keys_unique(values@)),
            r matches Ok(e) ==> e.name@ == name@ && e.values@ == values@,
            pattern_compiles(Config::ENUM_NAME_PATTERN@) && !pattern_matches(Config::ENUM_NAME_PATTERN@, name@) ==> (
            r matches Err(e) && e matches KaitaiError::InvalidValue { pattern: p, value: v } && p@
                == Config::ENUM_NAME_PATTERN@ && v@ == name@),
            r matches Err(e) ==> e is SchemaError || e is InvalidValue || e is InvalidPattern,
    {
        let names: Vec<String> = vec![name.clone()];
        assert(names@[0]@ == name@);
        proof {
            if pattern_compiles(Config::ENUM_NAME_PATTERN@) && pattern_matches(Config::ENUM_NAME_PATTERN@, name@) {
                assert(all_match(names@, Config::ENUM_NAME_PATTERN@));
            }
        }
        match validate_values(names.as_slice(), Config::ENUM_NAME_PATTERN) {
            Ok(()) => {
                assert(pattern_matches(Config::ENUM_NAME_PATTERN@, names@[0]@));
            },
            Err(e) => {
                return Err(e);
            },
        }
        let mut i: usize = 0;
        while i < values.len()
            invariant
                i <= values@.len(),
                forall|a: int, b: int| 0 <= a < b < values@.len() && a < i ==> values@[a].0 != values@[b].0,
                pattern_matches(Config::ENUM_NAME_PATTERN@, name@),
            decreases values@.len() - i,
        {
            let mut j: usize = i + 1;
            while j < values.len()
                invariant
                    i < values@.len(),
                    i < j <= values@.len(),
                    forall|a: int, b: int| 0 <= a < b < values@.len() && a < i ==> values@[a].0 != values@[b].0,
                    forall|b: int| i < b < j ==> values@[i as int].0 != values@[b].0,
                    pattern_matches(Config::ENUM_NAME_PATTERN@, name@),
                decreases values@.len() - j,
            {
                if values[i].0 == values[j].0 {
                    return Err(
                        KaitaiError::SchemaError {
                            section: "enums".to_string(),
                            reason: "duplicate enum value".to_string(),
                        },
                    );
                }
                j = j + 1;
            }
            i = i + 1;
        }
        Ok(Enum { name, values })
    }
}

/// The enumerations of a schema, by name.
#[derive(Debug)]
pub struct Enums {
    pub enums_specs: Vec<(Identifier, Enum)>,
}

/// Whether no name appears twice.
pub open spec fn names_unique<V>(entries: Seq<(Identifier, V)>) -> bool {
    forall|i: int, j: int| 0 <= i < j < entries.len() ==> !same_identifier(entries[i].0, entries[j].0)
}

/// Puts `value` under `key`: in place of the entry of that name, or at the end.
fn upsert<V>(entries: &mut Vec<(Identifier, V)>, key: Identifier, value: V) -> (r: usize)
    requires
        names_unique(old(entries)@),
    ensures
        names_unique(final(entries)@),
        r < final(entries)@.len(),
        r <= old(entries)@.len(),
        final(entries)@[r as int] == (key, value),
        r < old(entries)@.len() ==> same_identifier(old(entries)@[r as int].0, key)
            && final(entries)@ == old(entries)@.update(r as int, (key, value)),
        r == old(entries)@.len() ==> final(entries)@ == old(entries)@.push((key, value))
            && forall|j: int| 0 <= j < old(entries)@.len() ==> !same_identifier(old(entries)@[j].0, key),
{
    let mut i: usize = 0;
    while i < entries.len()
        invariant
            i <= entries@.len(),
            entries@ == old(entries)@,
            names_unique(old(entries)@),
            forall|j: int| 0 <= j < i ==> !same_identifier(entries@[j].0, key),
        decreases entries@.len() - i,
    {
        if identifier_eq(&entries[i].0, &key) {
            let ghost before = entries@;
            let ghost k = key;
            entries.set(i, (key, value));
            proof {
                assert forall|a: int, b: int| 0 <= a < b < entries@.len() implies !same_identifier(entries@[a].0, entries@[b].0) by {
                    if a == i {
                        assert(!same_identifier(before[a].0, before[b].0));
                    } else if b == i {
                        assert(!same_identifier(before[a].0, before[b].0));
                    }
                }
            }
            return i;
        }
        i = i + 1;
    }
    let n = entries.len();
    let ghost before = entries@;
    entries.push((key, value));
    proof {
        assert forall|a: int, b: int| 0 <= a < b < entries@.len() implies !same_identifier(entries@[a].0, entries@[b].0) by {
            if b == n {
                assert(!same_identifier(before[a].0, key));
            } else {
                assert(entries@[a] == before[a] && entries@[b] == before[b]);
            }
        }
    }
    n
}

impl Enums {
    /// No enumerations.
    pub fn new() -> (r: Self)
        ensures
            r.enums_specs@.len() == 0,
    {
        Enums { enums_specs: Vec::new() }
    }

    /// Puts an enumeration under its name, replacing one of the same name.
    pub fn add_enum(&mut self, identifier: Identifier, enum_instance: Enum) -> (r: Result<(), KaitaiError>)
        requires
            names_unique(old(self).enums_specs@),
        ensures
            r is Ok,
            names_unique(final(self).enums_specs@),
            exists|i: int| 0 <= i < final(self).enums_specs@.len() && final(self).enums_specs@[i] == (identifier, enum_instance),
            (exists|i: int| 0 <= i < old(self).enums_specs@.len() && same_identifier(old(self).enums_specs@[i].0, identifier)
                && final(self).enums_specs@ == old(self).enums_specs@.update(i, (identifier, enum_instance))) || ((forall|j: int|
                0 <= j < old(self).enums_specs@.len() ==> !same_identifier(#[trigger] old(self).enums_specs@[j].0, identifier))
                && final(self).enums_specs@ == old(self).enums_specs@.push((identifier, enum_instance))),
    {
        let ghost pair = (identifier, enum_instance);
        let i = upsert(&mut self.enums_specs, identifier, enum_instance);
        assert(self.enums_specs@[i as int] == pair);
        proof {
            if (i as int) < old(self).enums_specs@.len() {
                assert(same_identifier(old(self).enums_specs@[i as int].0, pair.0));
                assert(self.enums_specs@ == old(self).enums_specs@.update(i as int, pair));
            } else {
                assert(self.enums_specs@ == old(self).enums_specs@.push(pair));
            }
        }
        Ok(())
    }
}

/// Parameters of a type.
#[derive(Debug)]
pub struct Params {
    pub params_spec: Vec<ParamSpec>,
}

impl Params {
    /// No parameters.
    pub fn new() -> (r: Self)
        ensures
            r.params_spec@.len() == 0,
    {
        Params { params_spec: Vec::new() }
    }
}

/// One parameter.
#[derive(Debug)]
pub struct ParamSpec {
    pub id: Option<Identifier>,
    pub param_type: Option<Type>,
    pub doc: Doc,
    pub doc_ref: DocRef,
    pub enum_type: Option<Enum>,
}

impl ParamSpec {
    /// A parameter with nothing set.
    pub fn new() -> (r: Self)
        ensures
            r.id is None,
            r.param_type is None,
            r.doc.description is None,
            r.doc_ref.content@.len() == 0,
            r.enum_type is None,
    {
        ParamSpec { id: None, param_type: None, doc: Doc::new(), doc_ref: DocRef::new(), enum_type: None }
    }

    pub fn set_identifier(&mut self, id: Identifier)
        ensures
            *final(self) == (ParamSpec { id: Some(id), ..*old(self) }),
    {
        self.id = Some(id);
    }

    pub fn set_param_type(&mut self, param_type: Type)
        ensures
            *final(self) == (ParamSpec { param_type: Some(param_type), ..*old(self) }),
    {
        self.param_type = Some(param_type);
    }

    pub fn set_enum_type(&mut self, enum_type: Enum)
        ensures
            *final(self) == (ParamSpec { enum_type: Some(enum_type), ..*old(self) }),
    {
        self.enum_type = Some(enum_type);
    }
}

/// An ordered list of attributes.
#[derive(Debug)]
pub struct Sequence {
    pub attributes: Vec<Attribute>,
}

impl Sequence {
    /// No attributes.
    pub fn new() -> (r: Self)
        ensures
            r.attributes@.len() == 0,
    {
        Sequence { attributes: Vec::new() }
    }

    /// Appends an attribute.
    pub fn add_attribute(&mut self, attribute: Attribute)
        ensures
            final(self).attributes@ == old(self).attributes@.push(attribute),
    {
        self.attributes.push(attribute);
    }
}

/// Computed or positioned fields, by name.
#[derive(Debug)]
pub struct Instances {
    pub instances_spec: Vec<(Identifier, Attribute)>,
}

impl Instances {
    /// No instances.
    pub fn new() -> (r: Self)
        ensures
            r.instances_spec@.len() == 0,
    {
        Instances { instances_spec: Vec::new() }
    }

    /// Puts an attribute under its name, replacing one of the same name.
    pub fn add_attribute(&mut self, identifier: Identifier, attribute: Attribute)
        requires
            names_unique(old(self).instances_spec@),
        ensures
            names_unique(final(self).instances_spec@),
            exists|i: int| 0 <= i < final(self).instances_spec@.len() && final(self).instances_spec@[i] == (identifier, attribute),
            (exists|i: int| 0 <= i < old(self).instances_spec@.len() && same_identifier(old(self).instances_spec@[i].0, identifier)
                && final(self).instances_spec@ == old(self).instances_spec@.update(i, (identifier, attribute))) || ((forall|j: int|
                0 <= j < old(self).instances_spec@.len() ==> !same_identifier(#[trigger] old(self).instances_spec@[j].0, identifier))
                && final(self).instances_spec@ == old(self).instances_spec@.push((identifier, attribute))),
    {
        let ghost pair = (identifier, attribute);
        let i = upsert(&mut self.instances_spec, identifier, attribute);
        assert(self.instances_spec@[i as int] == pair);
        proof {
            if (i as int) < old(self).instances_spec@.len() {
                assert(same_identifier(old(self).instances_spec@[i as int].0, pair.0));
                assert(self.instances_spec@ == old(self).instances_spec@.update(i as int, pair));
            } else {
                assert(self.instances_spec@ == old(self).instances_spec@.push(pair));
            }
        }
    }
}

/// User types, by name.
#[derive(Debug)]
pub struct Types {
    pub types: Vec<(Identifier, TypeSpec)>,
}

/// A user type: a schema of its own, without the requirement of a meta id.
#[derive(Debug)]
pub struct TypeSpec {
    pub meta: Meta,
    pub params: Params,
    pub seq: Sequence,
    pub type_types: Types,
    pub type_enums: Enums,
    pub instances: Instances,
    pub doc: Doc,
    pub doc_ref: DocRef,
}

impl Types {
    /// No types.
    pub fn new() -> (r: Self)
        ensures
            r.types@.len() == 0,
    {
        Types { types: Vec::new() }
    }

    /// Puts a type under its name, replacing one of the same name.
    pub fn add_typespec(&mut self, identifier: Identifier, typespec_instance: TypeSpec) -> (r: Result<(), KaitaiError>)
        requires
            names_unique(old(self).types@),
        ensures
            r is Ok,
            names_unique(final(self).types@),
            exists|i: int| 0 <= i < final(self).types@.len() && final(self).types@[i] == (identifier, typespec_instance),
            (exists|i: int| 0 <= i < old(self).types@.len() && same_identifier(old(self).types@[i].0, identifier)
                && final(self).types@ == old(self).types@.update(i, (identifier, typespec_instance))) || ((forall|j: int|
                0 <= j < old(self).types@.len() ==> !same_identifier(#[trigger] old(self).types@[j].0, identifier))
                && final(self).types@ == old(self).types@.push((identifier, typespec_instance))),
    {
        let ghost pair = (identifier, typespec_instance);
        let i = upsert(&mut self.types, identifier, typespec_instance);
        assert(self.types@[i as int] == pair);
        proof {
            if (i as int) < old(self).types@.len() {
                assert(same_identifier(old(self).types@[i as int].0, pair.0));
                assert(self.types@ == old(self).types@.update(i as int, pair));
            } else {
                assert(self.types@ == old(self).types@.push(pair));
            }
        }
        Ok(())
    }
}

impl TypeSpec {
    /// A type from its parts.
    pub fn new(
        meta: Meta,
        params: Params,
        seq: Sequence,
        type_types: Types,
        type_enums: Enums,
        instances: Instances,
        doc: Doc,
        doc_ref: DocRef,
    ) -> (r: Self)
        ensures
            r == (TypeSpec { meta, params, seq, type_types, type_enums, instances, doc, doc_ref }),
    {
        TypeSpec { meta, params, seq, type_types, type_enums, instances, doc, doc_ref }
    }
}

/// A whole schema.
#[derive(Debug)]
pub struct KsyStruct {
    pub meta: Meta,
    pub doc: Doc,
    pub doc_ref: DocRef,
    pub params: Params,
    pub seq: Sequence,
    pub types: Types,
    pub instances: Instances,
    pub enums: Enums,
}

impl KsyStruct {
    /// An empty schema.
    pub fn new() -> (r: Self)
        ensures
            r.seq.attributes@.len() == 0,
            r.types.types@.len() == 0,
            r.instances.instances_spec@.len() == 0,
            r.enums.enums_specs@.len() == 0,
            r.params.params_spec@.len() == 0,
            r.meta.endian is None,
    {
        KsyStruct {
            meta: Meta::new(),
            doc: Doc::new(),
            doc_ref: DocRef::new(),
            params: Params::new(),
            seq: Sequence::new(),
            types: Types::new(),
            instances: Instances::new(),
            enums: Enums::new(),
        }
    }
}

} // verus!
