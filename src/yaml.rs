use vstd::prelude::*;
use crate::chars::str_equals_chars;

verus! {

/// A YAML document as plain values: what the schema loader reads.
#[derive(Debug)]
pub enum YamlValue {
    Null,
    Bool(bool),
    /// A whole number.
    Integer(i128),
    /// A number with a fractional part or an exponent, as written.
    Float(String),
    String(String),
    Sequence(Vec<YamlValue>),
    /// Key and value pairs, in document order.
    Mapping(Vec<(YamlValue, YamlValue)>),
}

/// Whether `k` is the string `key`.
pub open spec fn is_key(k: YamlValue, key: Seq<char>) -> bool {
    k matches YamlValue::String(s) && s@ == key
}

/// The value under the first string key `key` of a mapping.
pub open spec fn yaml_get(m: Seq<(YamlValue, YamlValue)>, key: Seq<char>) -> Option<YamlValue>
    decreases m.len(),
{
    if m.len() == 0 {
        None
    } else if is_key(m[0].0, key) {
        Some(m[0].1)
    } else {
        yaml_get(m.drop_first(), key)
    }
}

/// The index of the first string key `key` of a mapping, or -1.
pub open spec fn yaml_index(m: Seq<(YamlValue, YamlValue)>, key: Seq<char>) -> int
    decreases m.len(),
{
    if m.len() == 0 {
        -1
    } else if is_key(m[0].0, key) {
        0
    } else {
        let r = yaml_index(m.drop_first(), key);
        if r < 0 {
            -1
        } else {
            r + 1
        }
    }
}

pub proof fn lemma_yaml_index(m: Seq<(YamlValue, YamlValue)>, key: Seq<char>)
    ensures
        -1 <= yaml_index(m, key) < m.len(),
        yaml_index(m, key) >= 0 ==> yaml_get(m, key) == Some(m[yaml_index(m, key)].1),
        yaml_index(m, key) < 0 ==> yaml_get(m, key) is None,
    decreases m.len(),
{
    if m.len() > 0 {
        lemma_yaml_index(m.drop_first(), key);
    }
}

/// The value under `key` in `v`, when `v` is a mapping.
pub open spec fn field(v: YamlValue, key: Seq<char>) -> Option<YamlValue> {
    match v {
        YamlValue::Mapping(m) => yaml_get(m@, key),
        _ => None,
    }
}

proof fn lemma_yaml_get(m: Seq<(YamlValue, YamlValue)>, key: Seq<char>, i: int)
    requires
        0 <= i <= m.len(),
        forall|j: int| 0 <= j < i ==> !is_key(#[trigger] m[j].0, key),
    ensures
        i < m.len() && is_key(m[i].0, key) ==> yaml_get(m, key) == Some(m[i].1),
        i == m.len() ==> yaml_get(m, key) is None,
    decreases i,
{
    if i > 0 {
        lemma_yaml_get(m.drop_first(), key, i - 1);
    }
}

/// The value under the first string key `key` of a mapping.
pub fn map_get<'a>(m: &'a Vec<(YamlValue, YamlValue)>, key: &str) -> (r: Option<&'a YamlValue>)
    ensures
        r matches Some(v) ==> yaml_get(m@, key@) == Some(*v),
        r is None <==> yaml_get(m@, key@) is None,
{
    let mut i: usize = 0;
    while i < m.len()
        invariant
            i <= m@.len(),
            forall|j: int| 0 <= j < i ==> !is_key(#[trigger] m@[j].0, key@),
        decreases m@.len() - i,
    {
        let hit = match &m[i].0 {
            YamlValue::String(k) => {
                let c = crate::chars::chars_of(key);
                str_equals_chars(k.as_str(), &c)
            },
            _ => false,
        };
        if hit {
            proof {
                lemma_yaml_get(m@, key@, i as int);
            }
            return Some(&m[i].1);
        }
        i = i + 1;
    }
    proof {
        lemma_yaml_get(m@, key@, i as int);
    }
    None
}

/// The index of the entry of the first string key `key` of a mapping.
pub fn map_find(m: &Vec<(YamlValue, YamlValue)>, key: &str) -> (r: Option<usize>)
    ensures
        r matches Some(i) ==> i < m@.len() && yaml_get(m@, key@) == Some(m@[i as int].1),
        r is None <==> yaml_get(m@, key@) is None,
{
    let c = crate::chars::chars_of(key);
    let mut i: usize = 0;
    while i < m.len()
        invariant
            i <= m@.len(),
            c@ == key@,
            forall|j: int| 0 <= j < i ==> !is_key(#[trigger] m@[j].0, key@),
        decreases m@.len() - i,
    {
        let hit = match &m[i].0 {
            YamlValue::String(k) => str_equals_chars(k.as_str(), &c),
            _ => false,
        };
        if hit {
            proof {
                lemma_yaml_get(m@, key@, i as int);
            }
            return Some(i);
        }
        i = i + 1;
    }
    proof {
        lemma_yaml_get(m@, key@, i as int);
    }
    None
}

/// The value under `key` in `v`, when `v` is a mapping.
pub fn get_field<'a>(v: &'a YamlValue, key: &str) -> (r: Option<&'a YamlValue>)
    ensures
        r matches Some(x) ==> field(*v, key@) == Some(*x),
        r is None <==> field(*v, key@) is None,
{
    match v {
        YamlValue::Mapping(m) => map_get(m, key),
        _ => None,
    }
}

} // verus!
