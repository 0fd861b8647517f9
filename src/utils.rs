use vstd::prelude::*;
use crate::errors::KaitaiError;

verus! {

/// Whether the regular-expression engine accepts `pattern`.
pub uninterp spec fn pattern_compiles(pattern: Seq<char>) -> bool;

/// Whether the compiled `pattern` finds a match in `text`.
pub uninterp spec fn pattern_matches(pattern: Seq<char>, text: Seq<char>) -> bool;

/// The text captured by the named `group` when `pattern` matches `text`.
pub uninterp spec fn pattern_group(pattern: Seq<char>, text: Seq<char>, group: Seq<char>) -> Option<Seq<char>>;

/// The view of an optional string.
pub open spec fn opt_str_view(s: Option<String>) -> Option<Seq<char>> {
    match s {
        Some(v) => Some(v@),
        None => None,
    }
}

/// Relies on `regex::Regex::new`, which compiles `pattern` or reports it malformed,
/// and on `regex::Regex::is_match`, which says whether it matches anywhere in `text`.
#[verifier::external_body]
fn regex_is_match(pattern: &str, text: &str) -> (r: Option<bool>)
    ensures
        r.is_some() == pattern_compiles(pattern@),
        r matches Some(b) ==> b == pattern_matches(pattern@, text@),
{
    match regex::Regex::new(pattern) {
        Ok(re) => Some(re.is_match(text)),
        Err(_) => None,
    }
}

/// Relies on `regex::Regex::new`, on `regex::Regex::captures`, which finds a match
/// exactly when `is_match` does, and on `regex::Captures::name`, which gives the text
/// of a named group when that group took part in the match.
#[verifier::external_body]
pub(crate) fn regex_named_group(pattern: &str, text: &str, group: &str) -> (r: Option<Option<String>>)
    ensures
        r.is_some() == (pattern_compiles(pattern@) && pattern_matches(pattern@, text@)),
        r matches Some(g) ==> opt_str_view(g) == pattern_group(pattern@, text@, group@),
{
    match regex::Regex::new(pattern) {
        Ok(re) => match re.captures(text) {
            Some(caps) => Some(caps.name(group).map(|m| m.as_str().to_string())),
            None => None,
        },
        Err(_) => None,
    }
}

/// Whether every value matches `pattern`.
pub open spec fn all_match(values: Seq<String>, pattern: Seq<char>) -> bool {
    forall|i: int| 0 <= i < values.len() ==> pattern_matches(pattern, #[trigger] values[i]@)
}

/// Whether `e` reports the first of `values` that fails `pattern`, naming the pattern and
/// the value.
pub open spec fn rejects_first(values: Seq<String>, pattern: Seq<char>, e: KaitaiError) -> bool {
    e matches KaitaiError::InvalidValue { pattern: p, value: v } && p@ == pattern && exists|i: int|
        0 <= i < values.len() && values[i]@ == v@ && !pattern_matches(pattern, values[i]@) && all_match(
            values.subrange(0, i),
            pattern,
        )
}

/// Checks each value against `pattern`; reports the first that fails.
pub fn validate_values(values: &[String], pattern: &str) -> (r: Result<(), KaitaiError>)
    ensures
        r is Ok <==> (pattern_compiles(pattern@) && all_match(values@, pattern@)),
        (r matches Err(e) && e is InvalidPattern) <==> !pattern_compiles(pattern@),
        r matches Err(KaitaiError::InvalidPattern { pattern: p }) ==> p@ == pattern@,
        r matches Err(e) ==> (e is InvalidPattern || e is InvalidValue),
        pattern_compiles(pattern@) ==> (r matches Err(e) ==> rejects_first(values@, pattern@, e)),
        r matches Err(KaitaiError::InvalidValue { pattern: p, value: v }) ==> {
            &&& pattern_compiles(pattern@)
            &&& p@ == pattern@
            &&& exists|i: int|
                0 <= i < values@.len() && values@[i]@ == v@ && !pattern_matches(pattern@, values@[i]@)
                    && all_match(values@.subrange(0, i), pattern@)
        },
{
    let mut i: usize = 0;
    while i < values.len()
        invariant
            i <= values@.len(),
            pattern_compiles(pattern@) || i == 0,
            all_match(values@.subrange(0, i as int), pattern@),
        decreases values@.len() - i,
    {
        match regex_is_match(pattern, values[i].as_str()) {
            None => {
                return Err(KaitaiError::InvalidPattern { pattern: pattern.to_string() });
            },
            Some(false) => {
                assert(all_match(values@.subrange(0, i as int), pattern@));
                return Err(
                    KaitaiError::InvalidValue {
                        pattern: pattern.to_string(),
                        value: values[i].clone(),
                    },
                );
            },
            Some(true) => {
                assert(values@.subrange(0, i as int + 1) =~= values@.subrange(0, i as int).push(values@[i as int]));
            },
        }
        i = i + 1;
    }
    if values.len() == 0 {
        match regex_is_match(pattern, "") {
            None => {
                return Err(KaitaiError::InvalidPattern { pattern: pattern.to_string() });
            },
            Some(_) => {},
        }
    }
    assert(values@.subrange(0, values@.len() as int) =~= values@);
    Ok(())
}

} // verus!
