use vstd::prelude::*;

verus! {

/// A lowercase ASCII letter.
pub open spec fn is_lower(c: char) -> bool {
    'a' <= c && c <= 'z'
}

/// A decimal digit.
pub open spec fn is_digit(c: char) -> bool {
    '0' <= c && c <= '9'
}

/// A character that may follow the first one of an identifier.
pub open spec fn is_ident_char(c: char) -> bool {
    is_lower(c) || is_digit(c) || c == '_'
}

/// `s` matches `^[a-z][a-z0-9_]*$`.
pub open spec fn is_identifier(s: Seq<char>) -> bool {
    &&& s.len() > 0
    &&& is_lower(s[0])
    &&& forall|i: int| 1 <= i < s.len() ==> is_ident_char(#[trigger] s[i])
}

/// The value of a digit in the given base, if it is one.
pub open spec fn digit_value(c: char, base: nat) -> Option<nat> {
    let v: int = if '0' <= c && c <= '9' {
        (c as int) - ('0' as int)
    } else if 'a' <= c && c <= 'f' {
        (c as int) - ('a' as int) + 10
    } else if 'A' <= c && c <= 'F' {
        (c as int) - ('A' as int) + 10
    } else {
        -1
    };
    if 0 <= v < base {
        Some(v as nat)
    } else {
        None
    }
}

/// A run of digits of `base`, starting with a digit, in which `_` may separate digits.
pub open spec fn is_digits(s: Seq<char>, base: nat) -> bool {
    &&& s.len() > 0
    &&& digit_value(s[0], base) is Some
    &&& forall|i: int| 0 <= i < s.len() ==> (digit_value(#[trigger] s[i], base) is Some || s[i] == '_')
}

/// The value of a run of digits, separators skipped.
pub open spec fn digits_value(s: Seq<char>, base: nat) -> nat
    decreases s.len(),
{
    if s.len() == 0 {
        0
    } else {
        match digit_value(s.last(), base) {
            Some(d) => digits_value(s.drop_last(), base) * base + d,
            None => digits_value(s.drop_last(), base),
        }
    }
}

/// `0` then `marker` then digits of `base`.
pub open spec fn is_prefixed_integer(s: Seq<char>, marker: char, base: nat) -> bool {
    &&& s.len() > 2
    &&& s[0] == '0'
    &&& s[1] == marker
    &&& is_digits(s.subrange(2, s.len() as int), base)
}

/// A decimal integer literal.
pub open spec fn is_dec_integer(s: Seq<char>) -> bool {
    is_digits(s, 10)
}

/// A hexadecimal integer literal (`0x...`).
pub open spec fn is_hex_integer(s: Seq<char>) -> bool {
    is_prefixed_integer(s, 'x', 16)
}

/// A binary integer literal (`0b...`).
pub open spec fn is_bin_integer(s: Seq<char>) -> bool {
    is_prefixed_integer(s, 'b', 2)
}

/// An octal integer literal (`0o...`).
pub open spec fn is_octal_integer(s: Seq<char>) -> bool {
    is_prefixed_integer(s, 'o', 8)
}

/// An integer literal in any of the four notations.
pub open spec fn is_integer_literal(s: Seq<char>) -> bool {
    is_dec_integer(s) || is_hex_integer(s) || is_bin_integer(s) || is_octal_integer(s)
}

/// The value of an integer literal.
pub open spec fn integer_literal_value(s: Seq<char>) -> nat {
    if is_hex_integer(s) {
        digits_value(s.subrange(2, s.len() as int), 16)
    } else if is_bin_integer(s) {
        digits_value(s.subrange(2, s.len() as int), 2)
    } else if is_octal_integer(s) {
        digits_value(s.subrange(2, s.len() as int), 8)
    } else {
        digits_value(s, 10)
    }
}

/// The index of the first `c` in `s`, or -1.
pub open spec fn index_of(s: Seq<char>, c: char) -> int
    decreases s.len(),
{
    if s.len() == 0 {
        -1
    } else if s[0] == c {
        0
    } else {
        let r = index_of(s.drop_first(), c);
        if r < 0 {
            -1
        } else {
            r + 1
        }
    }
}

/// The index of the exponent marker of a float literal's tail, or -1.
pub open spec fn exponent_index(t: Seq<char>) -> int {
    if index_of(t, 'e') >= 0 {
        index_of(t, 'e')
    } else {
        index_of(t, 'E')
    }
}

/// An exponent: decimal digits, optionally signed.
pub open spec fn is_exponent(u: Seq<char>) -> bool {
    is_digits(u, 10) || (u.len() > 0 && (u[0] == '+' || u[0] == '-') && is_digits(
        u.drop_first(),
        10,
    ))
}

/// What follows the point of a float literal.
pub open spec fn is_float_tail(t: Seq<char>) -> bool {
    let j = exponent_index(t);
    if j < 0 {
        is_digits(t, 10)
    } else {
        is_digits(t.subrange(0, j), 10) && is_exponent(t.subrange(j + 1, t.len() as int))
    }
}

/// A float literal: digits, a point, digits, and an optional exponent.
pub open spec fn is_float_literal(s: Seq<char>) -> bool {
    let k = index_of(s, '.');
    k >= 0 && is_digits(s.subrange(0, k), 10) && is_float_tail(s.subrange(k + 1, s.len() as int))
}

/// `true` or `false`.
pub open spec fn is_boolean_literal(s: Seq<char>) -> bool {
    s == "true"@ || s == "false"@
}

/// One arithmetic operator.
pub open spec fn is_arithmetic_operator(s: Seq<char>) -> bool {
    s.len() == 1 && (s[0] == '+' || s[0] == '-' || s[0] == '*' || s[0] == '/' || s[0] == '%')
}

/// A root of the user-type scope chain.
pub open spec fn is_user_defined_type(s: Seq<char>) -> bool {
    s == "_root"@ || s == "_parent"@ || s == "_io"@ || s == "io"@
}

/// `s` without its leading spaces.
pub open spec fn trim_start(s: Seq<char>) -> Seq<char>
    decreases s.len(),
{
    if s.len() > 0 && s[0] == ' ' {
        trim_start(s.drop_first())
    } else {
        s
    }
}

/// `s` without its trailing spaces.
pub open spec fn trim_end(s: Seq<char>) -> Seq<char>
    decreases s.len(),
{
    if s.len() > 0 && s.last() == ' ' {
        trim_end(s.drop_last())
    } else {
        s
    }
}

/// `s` without its leading and trailing spaces.
pub open spec fn trim_spaces(s: Seq<char>) -> Seq<char> {
    trim_end(trim_start(s))
}

/// A comma-separated list of integer literals, spaces allowed around each.
pub open spec fn is_integer_items(t: Seq<char>) -> bool
    decreases t.len(),
{
    let k = index_of(t, ',');
    if k < 0 || k >= t.len() {
        is_integer_literal(trim_spaces(t))
    } else {
        is_integer_literal(trim_spaces(t.subrange(0, k))) && is_integer_items(
            t.subrange(k + 1, t.len() as int),
        )
    }
}

/// An array of integer literals in brackets.
pub open spec fn is_integer_array(s: Seq<char>) -> bool {
    &&& s.len() >= 2
    &&& s[0] == '['
    &&& s.last() == ']'
    &&& is_integer_items(s.subrange(1, s.len() - 1))
}

pub proof fn lemma_index_of(s: Seq<char>, c: char, i: int)
    requires
        0 <= i <= s.len(),
        forall|j: int| 0 <= j < i ==> s[j] != c,
    ensures
        i < s.len() && s[i] == c ==> index_of(s, c) == i,
        i == s.len() ==> index_of(s, c) == -1,
    decreases i,
{
    if i > 0 {
        lemma_index_of(s.drop_first(), c, i - 1);
    }
}

pub proof fn lemma_index_of_bounds(s: Seq<char>, c: char)
    ensures
        -1 <= index_of(s, c) < s.len(),
        index_of(s, c) >= 0 ==> s[index_of(s, c)] == c,
        forall|j: int| 0 <= j < index_of(s, c) ==> s[j] != c,
        index_of(s, c) < 0 ==> forall|j: int| 0 <= j < s.len() ==> s[j] != c,
    decreases s.len(),
{
    if s.len() > 0 {
        lemma_index_of_bounds(s.drop_first(), c);
        if s[0] != c {
            assert forall|j: int| 0 <= j < index_of(s, c) implies s[j] != c by {
                if j > 0 {
                    assert(s[j] == s.drop_first()[j - 1]);
                }
            }
            if index_of(s, c) < 0 {
                assert forall|j: int| 0 <= j < s.len() implies s[j] != c by {
                    if j > 0 {
                        assert(s[j] == s.drop_first()[j - 1]);
                    }
                }
            }
        }
    }
}

/// The index of the first `c` in `s`, or -1.
pub fn find_char(s: &Vec<char>, start: usize, end: usize, c: char) -> (r: i64)
    requires
        start <= end <= s@.len(),
        end < 0x7fff_ffff_ffff_ffff,
    ensures
        r == index_of(s@.subrange(start as int, end as int), c),
{
    let ghost t = s@.subrange(start as int, end as int);
    let mut i: usize = start;
    while i < end
        invariant
            start <= i <= end,
            end <= s@.len(),
            end < 0x7fff_ffff_ffff_ffff,
            t == s@.subrange(start as int, end as int),
            forall|j: int| 0 <= j < i - start ==> t[j] != c,
        decreases end - i,
    {
        if s[i] == c {
            let k = i - start;
            proof {
                assert(t.len() == end - start);
                assert(t[k as int] == s@[i as int]);
                lemma_index_of(t, c, k as int);
                assert(index_of(t, c) == k);
            }
            return k as i64;
        }
        i = i + 1;
    }
    proof {
        lemma_index_of(t, c, i - start);
    }
    -1
}

/// The value of `c` as a digit of `base`.
pub fn digit_of(c: char, base: u32) -> (r: Option<u32>)
    requires
        base <= 16,
    ensures
        r matches Some(v) ==> digit_value(c, base as nat) == Some(v as nat),
        r is None <==> digit_value(c, base as nat) is None,
{
    let v: u32 = if '0' <= c && c <= '9' {
        (c as u32) - ('0' as u32)
    } else if 'a' <= c && c <= 'f' {
        (c as u32) - ('a' as u32) + 10
    } else if 'A' <= c && c <= 'F' {
        (c as u32) - ('A' as u32) + 10
    } else {
        return None;
    };
    if v < base {
        Some(v)
    } else {
        None
    }
}

/// Whether `s[start..end]` is a run of digits of `base`.
pub fn check_digits(s: &Vec<char>, start: usize, end: usize, base: u32) -> (r: bool)
    requires
        start <= end <= s@.len(),
        base <= 16,
    ensures
        r == is_digits(s@.subrange(start as int, end as int), base as nat),
{
    let ghost t = s@.subrange(start as int, end as int);
    if start == end {
        return false;
    }
    if digit_of(s[start], base).is_none() {
        return false;
    }
    let mut i: usize = start;
    while i < end
        invariant
            start <= i <= end,
            end <= s@.len(),
            base <= 16,
            t == s@.subrange(start as int, end as int),
            forall|j: int| 0 <= j < i - start ==> (digit_value(#[trigger] t[j], base as nat) is Some || t[j] == '_'),
        decreases end - i,
    {
        if digit_of(s[i], base).is_none() && s[i] != '_' {
            assert(!(digit_value(t[i - start], base as nat) is Some || t[i - start] == '_'));
            return false;
        }
        i = i + 1;
    }
    true
}

/// The value of the digit run `s[start..end]`, if it fits.
pub fn digits_to_int(s: &Vec<char>, start: usize, end: usize, base: u32) -> (r: Option<u128>)
    requires
        start <= end <= s@.len(),
        2 <= base <= 16,
    ensures
        r matches Some(v) ==> v as nat == digits_value(s@.subrange(start as int, end as int), base as nat),
        r is None ==> digits_value(s@.subrange(start as int, end as int), base as nat) > u128::MAX,
{
    let mut v: u128 = 0;
    let mut i: usize = start;
    while i < end
        invariant
            start <= i <= end,
            end <= s@.len(),
            2 <= base <= 16,
            v as nat == digits_value(s@.subrange(start as int, i as int), base as nat),
        decreases end - i,
    {
        let ghost prefix = s@.subrange(start as int, i as int + 1);
        assert(prefix.drop_last() =~= s@.subrange(start as int, i as int));
        assert(prefix.last() == s@[i as int]);
        match digit_of(s[i], base) {
            Some(d) => {
                match v.checked_mul(base as u128) {
                    Some(m) => {
                        match m.checked_add(d as u128) {
                            Some(n) => {
                                v = n;
                            },
                            None => {
                                proof {
                                    lemma_digits_value_grows(s@, start as int, i as int + 1, end as int, base as nat);
                                }
                                return None;
                            },
                        }
                    },
                    None => {
                        proof {
                            assert(digits_value(prefix, base as nat) >= v * base) by (nonlinear_arith)
                                requires digits_value(prefix, base as nat) == v * base + d;
                            lemma_digits_value_grows(s@, start as int, i as int + 1, end as int, base as nat);
                        }
                        return None;
                    },
                }
            },
            None => {},
        }
        i = i + 1;
    }
    Some(v)
}

/// A longer run of digits is worth at least as much as its prefix.
pub proof fn lemma_digits_value_grows(s: Seq<char>, start: int, mid: int, end: int, base: nat)
    requires
        0 <= start <= mid <= end <= s.len(),
        base >= 2,
    ensures
        digits_value(s.subrange(start, end), base) >= digits_value(s.subrange(start, mid), base),
    decreases end - mid,
{
    if end > mid {
        lemma_digits_value_grows(s, start, mid, end - 1, base);
        let t = s.subrange(start, end);
        assert(t.drop_last() =~= s.subrange(start, end - 1));
        let p = digits_value(s.subrange(start, end - 1), base);
        match digit_value(t.last(), base) {
            Some(d) => {
                assert(p * base + d >= p) by (nonlinear_arith)
                    requires base >= 2;
            },
            None => {},
        }
    }
}

proof fn lemma_trim_start(s: Seq<char>, start: int, a: int, end: int)
    requires
        0 <= start <= a <= end <= s.len(),
        forall|j: int| start <= j < a ==> s[j] == ' ',
        a == end || s[a] != ' ',
    ensures
        trim_start(s.subrange(start, end)) == s.subrange(a, end),
    decreases a - start,
{
    if start < a {
        assert(s.subrange(start, end).drop_first() =~= s.subrange(start + 1, end));
        lemma_trim_start(s, start + 1, a, end);
    }
}

proof fn lemma_trim_end(s: Seq<char>, a: int, b: int, end: int)
    requires
        0 <= a <= b <= end <= s.len(),
        forall|j: int| b <= j < end ==> s[j] == ' ',
        b == a || s[b - 1] != ' ',
    ensures
        trim_end(s.subrange(a, end)) == s.subrange(a, b),
    decreases end - b,
{
    if b < end {
        assert(s.subrange(a, end).drop_last() =~= s.subrange(a, end - 1));
        lemma_trim_end(s, a, b, end - 1);
    }
}

/// The bounds of `s[start..end]` without its leading and trailing spaces.
pub fn trim_range(s: &Vec<char>, start: usize, end: usize) -> (r: (usize, usize))
    requires
        start <= end <= s@.len(),
    ensures
        start <= r.0 <= r.1 <= end,
        trim_spaces(s@.subrange(start as int, end as int)) == s@.subrange(r.0 as int, r.1 as int),
{
    let mut a: usize = start;
    while a < end && s[a] == ' '
        invariant
            start <= a <= end,
            end <= s@.len(),
            forall|j: int| start <= j < a ==> s@[j] == ' ',
        decreases end - a,
    {
        a = a + 1;
    }
    let mut b: usize = end;
    while b > a && s[b - 1] == ' '
        invariant
            a <= b <= end,
            end <= s@.len(),
            forall|j: int| b <= j < end ==> s@[j] == ' ',
        decreases b - a,
    {
        b = b - 1;
    }
    proof {
        lemma_trim_start(s@, start as int, a as int, end as int);
        lemma_trim_end(s@, a as int, b as int, end as int);
    }
    (a, b)
}

/// Whether `s[start..end]` is an identifier.
pub fn check_identifier(s: &Vec<char>, start: usize, end: usize) -> (r: bool)
    requires
        start <= end <= s@.len(),
    ensures
        r == is_identifier(s@.subrange(start as int, end as int)),
{
    let ghost t = s@.subrange(start as int, end as int);
    if start == end || !('a' <= s[start] && s[start] <= 'z') {
        return false;
    }
    let mut i: usize = start + 1;
    while i < end
        invariant
            start < i <= end,
            end <= s@.len(),
            t == s@.subrange(start as int, end as int),
            forall|j: int| 1 <= j < i - start ==> is_ident_char(#[trigger] t[j]),
        decreases end - i,
    {
        let c = s[i];
        if !(('a' <= c && c <= 'z') || ('0' <= c && c <= '9') || c == '_') {
            assert(!is_ident_char(t[i - start]));
            return false;
        }
        i = i + 1;
    }
    true
}

/// Whether `s[start..end]` is `0`, `marker`, then digits of `base`.
pub fn check_prefixed(s: &Vec<char>, start: usize, end: usize, marker: char, base: u32) -> (r: bool)
    requires
        start <= end <= s@.len(),
        base <= 16,
    ensures
        r == is_prefixed_integer(s@.subrange(start as int, end as int), marker, base as nat),
{
    let ghost t = s@.subrange(start as int, end as int);
    if end - start <= 2 || s[start] != '0' || s[start + 1] != marker {
        return false;
    }
    assert(t.subrange(2, t.len() as int) =~= s@.subrange(start + 2, end as int));
    check_digits(s, start + 2, end, base)
}

/// Whether `s[start..end]` is an integer literal.
pub fn check_integer_literal(s: &Vec<char>, start: usize, end: usize) -> (r: bool)
    requires
        start <= end <= s@.len(),
    ensures
        r == is_integer_literal(s@.subrange(start as int, end as int)),
{
    check_digits(s, start, end, 10) || check_prefixed(s, start, end, 'x', 16) || check_prefixed(
        s,
        start,
        end,
        'b',
        2,
    ) || check_prefixed(s, start, end, 'o', 8)
}

/// The value of the integer literal `s[start..end]`, if it fits.
pub fn integer_literal_to_int(s: &Vec<char>, start: usize, end: usize) -> (r: Option<u128>)
    requires
        start <= end <= s@.len(),
        is_integer_literal(s@.subrange(start as int, end as int)),
    ensures
        r matches Some(v) ==> v as nat == integer_literal_value(s@.subrange(start as int, end as int)),
        r is None ==> integer_literal_value(s@.subrange(start as int, end as int)) > u128::MAX,
{
    let ghost t = s@.subrange(start as int, end as int);
    if check_prefixed(s, start, end, 'x', 16) {
        assert(t.subrange(2, t.len() as int) =~= s@.subrange(start + 2, end as int));
        digits_to_int(s, start + 2, end, 16)
    } else if check_prefixed(s, start, end, 'b', 2) {
        assert(t.subrange(2, t.len() as int) =~= s@.subrange(start + 2, end as int));
        digits_to_int(s, start + 2, end, 2)
    } else if check_prefixed(s, start, end, 'o', 8) {
        assert(t.subrange(2, t.len() as int) =~= s@.subrange(start + 2, end as int));
        digits_to_int(s, start + 2, end, 8)
    } else {
        digits_to_int(s, start, end, 10)
    }
}

/// Whether `s[start..end]` is an exponent.
fn check_exponent(s: &Vec<char>, start: usize, end: usize) -> (r: bool)
    requires
        start <= end <= s@.len(),
    ensures
        r == is_exponent(s@.subrange(start as int, end as int)),
{
    let ghost t = s@.subrange(start as int, end as int);
    if check_digits(s, start, end, 10) {
        return true;
    }
    if start < end && (s[start] == '+' || s[start] == '-') {
        assert(t.drop_first() =~= s@.subrange(start + 1, end as int));
        check_digits(s, start + 1, end, 10)
    } else {
        false
    }
}

/// Whether `s[start..end]` is a float literal.
pub fn check_float(s: &Vec<char>, start: usize, end: usize) -> (r: bool)
    requires
        start <= end <= s@.len(),
        end < 0x7fff_ffff_ffff_ffff,
    ensures
        r == is_float_literal(s@.subrange(start as int, end as int)),
{
    let ghost t = s@.subrange(start as int, end as int);
    proof {
        lemma_index_of_bounds(t, '.');
    }
    let k = find_char(s, start, end, '.');
    if k < 0 {
        return false;
    }
    let p = start + k as usize;
    assert(t.subrange(0, k as int) =~= s@.subrange(start as int, p as int));
    assert(t.subrange(k + 1, t.len() as int) =~= s@.subrange(p + 1, end as int));
    if !check_digits(s, start, p, 10) {
        return false;
    }
    let ghost u = s@.subrange(p + 1, end as int);
    proof {
        lemma_index_of_bounds(u, 'e');
        lemma_index_of_bounds(u, 'E');
    }
    let mut j = find_char(s, p + 1, end, 'e');
    if j < 0 {
        j = find_char(s, p + 1, end, 'E');
    }
    assert(j == exponent_index(u));
    if j < 0 {
        check_digits(s, p + 1, end, 10)
    } else {
        let q = p + 1 + j as usize;
        assert(u.subrange(0, j as int) =~= s@.subrange(p + 1, q as int));
        assert(u.subrange(j + 1, u.len() as int) =~= s@.subrange(q + 1, end as int));
        check_digits(s, p + 1, q, 10) && check_exponent(s, q + 1, end)
    }
}

/// Whether `s[start..end]` is a comma-separated list of integer literals.
pub fn check_integer_items(s: &Vec<char>, start: usize, end: usize) -> (r: bool)
    requires
        start <= end <= s@.len(),
        end < 0x7fff_ffff_ffff_ffff,
    ensures
        r == is_integer_items(s@.subrange(start as int, end as int)),
{
    let mut cur: usize = start;
    loop
        invariant
            start <= cur <= end,
            end <= s@.len(),
            end < 0x7fff_ffff_ffff_ffff,
            is_integer_items(s@.subrange(start as int, end as int)) == is_integer_items(
                s@.subrange(cur as int, end as int),
            ),
        decreases end - cur,
    {
        let ghost t = s@.subrange(cur as int, end as int);
        proof {
            lemma_index_of_bounds(t, ',');
        }
        let k = find_char(s, cur, end, ',');
        if k < 0 {
            let (a, b) = trim_range(s, cur, end);
            return check_integer_literal(s, a, b);
        }
        let p = cur + k as usize;
        assert(t.subrange(0, k as int) =~= s@.subrange(cur as int, p as int));
        assert(t.subrange(k + 1, t.len() as int) =~= s@.subrange(p + 1, end as int));
        let (a, b) = trim_range(s, cur, p);
        if !check_integer_literal(s, a, b) {
            return false;
        }
        cur = p + 1;
    }
}

/// Whether `s` is a bracketed array of integer literals.
pub fn check_integer_array(s: &Vec<char>) -> (r: bool)
    requires
        s@.len() < 0x7fff_ffff_ffff_ffff,
    ensures
        r == is_integer_array(s@),
{
    let n = s.len();
    if n < 2 || s[0] != '[' || s[n - 1] != ']' {
        return false;
    }
    check_integer_items(s, 1, n - 1)
}

} // verus!
