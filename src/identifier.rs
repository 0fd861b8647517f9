use vstd::prelude::*;
use crate::config::Config;
use crate::errors::KaitaiError;
use crate::utils::{all_match, pattern_compiles, pattern_matches, rejects_first, validate_values};

verus! {

/// The views of a sequence of strings.
pub open spec fn strings_view(s: Seq<String>) -> Seq<Seq<char>> {
    s.map_values(|v: String| v@)
}

/// A name of the schema: an ordered list of strings, each an identifier.
#[derive(Debug, PartialEq, Eq)]
pub struct Identifier {
    /// The parts of the name.
    pub value: Vec<String>,
}

/// Whether two identifiers hold the same strings.
pub open spec fn same_identifier(a: Identifier, b: Identifier) -> bool {
    strings_view(a.value@) == strings_view(b.value@)
}

/// Whether `id` would be accepted as a name: each part matches the identifier pattern.
pub open spec fn identifier_accepts(values: Seq<Seq<char>>) -> bool {
    &&& pattern_compiles(Config::IDENTIFIER_PATTERN@)
    &&& forall|i: int| 0 <= i < values.len() ==> pattern_matches(Config::IDENTIFIER_PATTERN@, #[trigger] values[i])
}

impl Identifier {
    /// An identifier with no parts.
    pub fn new() -> (r: Identifier)
        ensures
            r.value@.len() == 0,
    {
        Identifier { value: Vec::new() }
    }

    /// The parts of the name.
    pub fn get_values(&self) -> (r: &Vec<String>)
        ensures
            r@ == self.value@,
    {
        &self.value
    }

    /// Sets the name to the single string `identifier`, which must match the identifier pattern.
    pub fn from_string(&mut self, identifier: &str) -> (r: Result<(), KaitaiError>)
        ensures
            r is Ok <==> identifier_accepts(seq![identifier@]),
            r is Ok ==> strings_view(final(self).value@) == seq![identifier@],
            pattern_compiles(Config::IDENTIFIER_PATTERN@) ==> (r matches Err(e) ==> (e matches KaitaiError::InvalidValue {
                pattern: p,
                value: v,
            } && p@ == Config::IDENTIFIER_PATTERN@ && v@ == identifier@)),
            r is Err ==> final(self).value@ == old(self).value@,
            r matches Err(e) ==> (e is InvalidValue || e is InvalidPattern),
    {
        let values: Vec<String> = vec![identifier.to_string()];
        assert(strings_view(values@) =~= seq![identifier@]);
        self.from_string_vec(values)
    }

    /// Sets the name to `identifiers`, each of which must match the identifier pattern.
    pub fn from_string_vec(&mut self, identifiers: Vec<String>) -> (r: Result<(), KaitaiError>)
        ensures
            r is Ok <==> identifier_accepts(strings_view(identifiers@)),
            r is Ok ==> final(self).value@ == identifiers@,
            pattern_compiles(Config::IDENTIFIER_PATTERN@) ==> (r matches Err(e) ==> rejects_first(
                identifiers@,
                Config::IDENTIFIER_PATTERN@,
                e,
            )),
            r is Err ==> final(self).value@ == old(self).value@,
            r matches Err(e) ==> (e is InvalidValue || e is InvalidPattern),
    {
        let ghost vs = strings_view(identifiers@);
        assert forall|i: int| 0 <= i < identifiers@.len() implies #[trigger] vs[i] == identifiers@[i]@ by {}
        proof {
            if all_match(identifiers@, Config::IDENTIFIER_PATTERN@) {
                assert forall|i: int| 0 <= i < vs.len() implies pattern_matches(Config::IDENTIFIER_PATTERN@, #[trigger] vs[i]) by {
                    assert(vs[i] == identifiers@[i]@);
                }
            }
            if forall|i: int| 0 <= i < vs.len() ==> pattern_matches(Config::IDENTIFIER_PATTERN@, #[trigger] vs[i]) {
                assert forall|i: int| 0 <= i < identifiers@.len() implies pattern_matches(Config::IDENTIFIER_PATTERN@, #[trigger] identifiers@[i]@) by {
                    assert(vs[i] == identifiers@[i]@);
                }
            }
        }
        match validate_values(identifiers.as_slice(), Config::IDENTIFIER_PATTERN) {
            Ok(()) => {
                self.value = identifiers;
                Ok(())
            },
            Err(e) => Err(e),
        }
    }
}

/// Compares two identifiers part by part.
pub fn identifier_eq(a: &Identifier, b: &Identifier) -> (r: bool)
    ensures
        r == same_identifier(*a, *b),
{
    if a.value.len() != b.value.len() {
        assert(strings_view(a.value@).len() != strings_view(b.value@).len());
        return false;
    }
    let mut i: usize = 0;
    while i < a.value.len()
        invariant
            i <= a.value@.len(),
            a.value@.len() == b.value@.len(),
            forall|j: int| 0 <= j < i ==> a.value@[j]@ == b.value@[j]@,
        decreases a.value@.len() - i,
    {
        if a.value[i] != b.value[i] {
            assert(strings_view(a.value@)[i as int] != strings_view(b.value@)[i as int]);
            return false;
        }
        i = i + 1;
    }
    assert(strings_view(a.value@) =~= strings_view(b.value@));
    true
}

} // verus!
