use vstd::prelude::*;
use crate::chars::{chars_are, chars_of};
use crate::lexical::{check_digits, digits_to_int, digits_value, is_digits};

verus! {

/// A type stripped of its array suffix.
#[derive(Debug, Clone, PartialEq, Eq)]
pub enum PureType {
    UnsignedInteger(u8),
    SignedInteger(u8),
    BitSizedInteger(u8),
    FloatingPoint(u8),
    ByteArray,
    String,
    StringZ,
    Boolean,
    UserType(String),
    ArbitraryStruct,
    IOStream,
    AnyType,
}

/// The type of an attribute or a parameter.
#[derive(Debug, Clone, PartialEq, Eq)]
pub struct Type {
    /// The type without its array suffix.
    pub pure_type: PureType,
    /// Whether the type name ended in `[]`.
    pub is_array: bool,
}

/// Whether `s` ends in `[]`.
pub open spec fn has_array_suffix(s: Seq<char>) -> bool {
    s.len() >= 2 && s[s.len() - 2] == '[' && s[s.len() - 1] == ']'
}

/// `s` without its array suffix.
pub open spec fn base_type_name(s: Seq<char>) -> Seq<char> {
    if has_array_suffix(s) {
        s.subrange(0, s.len() - 2)
    } else {
        s
    }
}

/// `bx` then a width of two to 255 bits.
pub open spec fn is_bit_sized(base: Seq<char>) -> bool {
    &&& base.len() > 2
    &&& base[0] == 'b'
    &&& base[1] == 'x'
    &&& is_digits(base.subrange(2, base.len() as int), 10)
    &&& 2 <= digits_value(base.subrange(2, base.len() as int), 10) <= 255
}

/// The pure type that a type name without its suffix stands for.
pub open spec fn pure_type_matches(t: PureType, base: Seq<char>) -> bool {
    if base == "u1"@ {
        t == PureType::UnsignedInteger(1)
    } else if base == "u2"@ {
        t == PureType::UnsignedInteger(2)
    } else if base == "u4"@ {
        t == PureType::UnsignedInteger(4)
    } else if base == "u8"@ {
        t == PureType::UnsignedInteger(8)
    } else if base == "s1"@ {
        t == PureType::SignedInteger(1)
    } else if base == "s2"@ {
        t == PureType::SignedInteger(2)
    } else if base == "s4"@ {
        t == PureType::SignedInteger(4)
    } else if base == "s8"@ {
        t == PureType::SignedInteger(8)
    } else if base == "f4"@ {
        t == PureType::FloatingPoint(4)
    } else if base == "f8"@ {
        t == PureType::FloatingPoint(8)
    } else if base == "b1"@ || base == "bool"@ {
        t == PureType::Boolean
    } else if base == "str"@ {
        t == PureType::String
    } else if base == "strz"@ {
        t == PureType::StringZ
    } else if base == "struct"@ {
        t == PureType::ArbitraryStruct
    } else if base == "io"@ {
        t == PureType::IOStream
    } else if base == "any"@ {
        t == PureType::AnyType
    } else if is_bit_sized(base) {
        t == PureType::BitSizedInteger(digits_value(base.subrange(2, base.len() as int), 10) as u8)
    } else {
        t matches PureType::UserType(name) && name@ == base
    }
}

/// The pure type named by `c[0..n]`, which has no array suffix.
fn pure_type_of(c: &Vec<char>, n: usize) -> (r: PureType)
    requires
        n <= c@.len(),
    ensures
        pure_type_matches(r, c@.subrange(0, n as int)),
{
    let mut base: Vec<char> = Vec::new();
    let mut i: usize = 0;
    while i < n
        invariant
            i <= n <= c@.len(),
            base@ == c@.subrange(0, i as int),
        decreases n - i,
    {
        base.push(c[i]);
        i = i + 1;
        assert(base@ =~= c@.subrange(0, i as int));
    }
    if chars_are(&base, "u1") {
        PureType::UnsignedInteger(1)
    } else if chars_are(&base, "u2") {
        PureType::UnsignedInteger(2)
    } else if chars_are(&base, "u4") {
        PureType::UnsignedInteger(4)
    } else if chars_are(&base, "u8") {
        PureType::UnsignedInteger(8)
    } else if chars_are(&base, "s1") {
        PureType::SignedInteger(1)
    } else if chars_are(&base, "s2") {
        PureType::SignedInteger(2)
    } else if chars_are(&base, "s4") {
        PureType::SignedInteger(4)
    } else if chars_are(&base, "s8") {
        PureType::SignedInteger(8)
    } else if chars_are(&base, "f4") {
        PureType::FloatingPoint(4)
    } else if chars_are(&base, "f8") {
        PureType::FloatingPoint(8)
    } else if chars_are(&base, "b1") || chars_are(&base, "bool") {
        PureType::Boolean
    } else if chars_are(&base, "str") {
        PureType::String
    } else if chars_are(&base, "strz") {
        PureType::StringZ
    } else if chars_are(&base, "struct") {
        PureType::ArbitraryStruct
    } else if chars_are(&base, "io") {
        PureType::IOStream
    } else if chars_are(&base, "any") {
        PureType::AnyType
    } else {
        let m = base.len();
        if m > 2 && base[0] == 'b' && base[1] == 'x' && check_digits(&base, 2, m, 10) {
            match digits_to_int(&base, 2, m, 10) {
                Some(w) => {
                    if 2 <= w && w <= 255 {
                        return PureType::BitSizedInteger(w as u8);
                    }
                },
                None => {},
            }
        }
        PureType::UserType(string_of_chars_checked(&base))
    }
}

/// A string holding the characters `c`.
fn string_of_chars_checked(c: &Vec<char>) -> (r: String)
    ensures
        r@ == c@,
{
    crate::chars::string_from_chars(c)
}

/// Parses a type name: a primitive, or the name of a user type, with an optional `[]`.
pub fn parse_kaitai_type(type_str: &str) -> (r: Type)
    ensures
        r.is_array == has_array_suffix(type_str@),
        pure_type_matches(r.pure_type, base_type_name(type_str@)),
{
    let c = chars_of(type_str);
    let n = c.len();
    if n >= 2 && c[n - 2] == '[' && c[n - 1] == ']' {
        Type { pure_type: pure_type_of(&c, n - 2), is_array: true }
    } else {
        assert(c@.subrange(0, n as int) =~= c@);
        Type { pure_type: pure_type_of(&c, n), is_array: false }
    }
}

/// The index of the first `b` in `s`, or -1.
pub open spec fn byte_index(s: Seq<u8>, b: u8) -> int
    decreases s.len(),
{
    if s.len() == 0 {
        -1
    } else if s[0] == b {
        0
    } else {
        let r = byte_index(s.drop_first(), b);
        if r < 0 {
            -1
        } else {
            r + 1
        }
    }
}

pub proof fn lemma_byte_index(s: Seq<u8>, b: u8, i: int)
    requires
        0 <= i <= s.len(),
        forall|j: int| 0 <= j < i ==> s[j] != b,
    ensures
        i < s.len() && s[i] == b ==> byte_index(s, b) == i,
        i == s.len() ==> byte_index(s, b) == -1,
    decreases i,
{
    if i > 0 {
        lemma_byte_index(s.drop_first(), b, i - 1);
    }
}

/// The bytes of a terminated string read from the start of `data`.
///
/// Without a size, the read runs to the first terminator, which is kept, or to the end.
/// With a size, it covers at most that many bytes and stops before a terminator found in them.
pub open spec fn strz_spec(data: Seq<u8>, size: Option<nat>, terminator: u8) -> Seq<u8> {
    match size {
        Some(n) => {
            let region = data.subrange(0, if n < data.len() { n as int } else { data.len() as int });
            let k = byte_index(region, terminator);
            if k < 0 {
                region
            } else {
                region.subrange(0, k)
            }
        },
        None => {
            let k = byte_index(data, terminator);
            if k < 0 {
                data
            } else {
                data.subrange(0, k + 1)
            }
        },
    }
}

/// Copies `data[start..end]`.
pub fn copy_range(data: &[u8], start: usize, end: usize) -> (r: Vec<u8>)
    requires
        start <= end <= data@.len(),
    ensures
        r@ == data@.subrange(start as int, end as int),
{
    let mut out: Vec<u8> = Vec::new();
    let mut i: usize = start;
    while i < end
        invariant
            start <= i <= end,
            end <= data@.len(),
            out@ == data@.subrange(start as int, i as int),
        decreases end - i,
    {
        out.push(data[i]);
        i = i + 1;
        assert(out@ =~= data@.subrange(start as int, i as int));
    }
    out
}

/// The index of the first `b` in `data[start..end]`, if any, relative to `start`.
pub fn find_byte(data: &[u8], start: usize, end: usize, b: u8) -> (r: Option<usize>)
    requires
        start <= end <= data@.len(),
    ensures
        r matches Some(k) ==> byte_index(data@.subrange(start as int, end as int), b) == k as int,
        r is None ==> byte_index(data@.subrange(start as int, end as int), b) == -1,
        r matches Some(k) ==> start + k < end,
{
    let ghost t = data@.subrange(start as int, end as int);
    let mut i: usize = start;
    while i < end
        invariant
            start <= i <= end,
            end <= data@.len(),
            t == data@.subrange(start as int, end as int),
            forall|j: int| 0 <= j < i - start ==> t[j] != b,
        decreases end - i,
    {
        if data[i] == b {
            let k = i - start;
            proof {
                assert(t[k as int] == data@[i as int]);
                lemma_byte_index(t, b, k as int);
            }
            return Some(k);
        }
        i = i + 1;
    }
    proof {
        lemma_byte_index(t, b, i - start);
    }
    None
}

/// The first `size` bytes of `data`: the raw bytes of an unsigned integer of that width.
pub fn parse_unsigned_integer(data: &[u8], size: usize) -> (r: Vec<u8>)
    requires
        size <= data@.len(),
    ensures
        r@ == data@.subrange(0, size as int),
{
    copy_range(data, 0, size)
}

/// Reads a terminated string from the start of `data`.
pub fn parse_strz(data: &[u8], size: Option<usize>, terminator: u8) -> (r: Vec<u8>)
    ensures
        r@ == strz_spec(
            data@,
            match size {
                Some(n) => Some(n as nat),
                None => None,
            },
            terminator,
        ),
{
    let n = data.len();
    match size {
        Some(s) => {
            let m = if s < n {
                s
            } else {
                n
            };
            let ghost region = data@.subrange(0, m as int);
            match find_byte(data, 0, m, terminator) {
                Some(k) => {
                    assert(region.subrange(0, k as int) =~= data@.subrange(0, k as int));
                    copy_range(data, 0, k)
                },
                None => copy_range(data, 0, m),
            }
        },
        None => {
            assert(data@.subrange(0, n as int) =~= data@);
            match find_byte(data, 0, n, terminator) {
                Some(k) => copy_range(data, 0, k + 1),
                None => copy_range(data, 0, n),
            }
        },
    }
}

} // verus!
