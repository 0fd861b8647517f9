use vstd::prelude::*;
use crate::ast::{first_with_id, preorder, NodeModel, AST};
use crate::chars::{chars_are, chars_of};
use crate::errors::KaitaiError;
use crate::lexical::{
    check_float, check_identifier, check_integer_array, check_integer_literal, check_prefixed,
    integer_literal_to_int, is_arithmetic_operator, is_bin_integer, is_boolean_literal,
    is_float_literal, is_hex_integer, is_identifier, is_integer_array, is_integer_literal,
    is_octal_integer, is_user_defined_type, integer_literal_value,
};

verus! {

/// The rules of the expression grammar that can be checked on their own.
#[derive(Debug, Clone, Copy, PartialEq, Eq, Structural)]
pub enum Rule {
    Identifier,
    ArithmeticOperator,
    Integer,
    HexInteger,
    BinInteger,
    OctalInteger,
    FloatingPointNumber,
    Boolean,
    IntegerArray,
    UserDefinedType,
    KaitaiExpression,
}

/// Whether the whole of `s` is derived by `rule`, for the lexical rules. The
/// whole-expression rule has no entry here: the parser's contract says what it accepts.
pub open spec fn rule_accepts(rule: Rule, s: Seq<char>) -> Option<bool> {
    match rule {
        Rule::Identifier => Some(is_identifier(s)),
        Rule::ArithmeticOperator => Some(is_arithmetic_operator(s)),
        Rule::Integer => Some(is_integer_literal(s)),
        Rule::HexInteger => Some(is_hex_integer(s)),
        Rule::BinInteger => Some(is_bin_integer(s)),
        Rule::OctalInteger => Some(is_octal_integer(s)),
        Rule::FloatingPointNumber => Some(is_float_literal(s)),
        Rule::Boolean => Some(is_boolean_literal(s)),
        Rule::IntegerArray => Some(is_integer_array(s)),
        Rule::UserDefinedType => Some(is_user_defined_type(s)),
        Rule::KaitaiExpression => None,
    }
}

/// Unary operators.
#[derive(Debug, Clone, Copy, PartialEq, Eq, Structural)]
pub enum UnaryOp {
    Neg,
    Not,
}

/// Binary operators.
#[derive(Debug, Clone, Copy, PartialEq, Eq, Structural)]
pub enum BinaryOp {
    Add,
    Sub,
    Mul,
    Div,
    Mod,
    BitAnd,
    BitOr,
    BitXor,
    Shl,
    Shr,
    Eq,
    Ne,
    Lt,
    Le,
    Gt,
    Ge,
    And,
    Or,
}

/// A parsed expression.
#[derive(Debug, PartialEq)]
pub enum Expr {
    Integer(i128),
    Float(Vec<char>),
    Boolean(bool),
    Name(Vec<char>),
    Root,
    Parent,
    Io,
    Member(Box<Expr>, Vec<char>),
    Index(Box<Expr>, Box<Expr>),
    Cast(Box<Expr>, Vec<char>),
    Unary(UnaryOp, Box<Expr>),
    Binary(BinaryOp, Box<Expr>, Box<Expr>),
    Ternary(Box<Expr>, Box<Expr>, Box<Expr>),
    Array(Vec<Expr>),
}

/// Punctuation of the expression language.
#[derive(Debug, Clone, Copy, PartialEq, Eq, Structural)]
pub enum Sym {
    Plus,
    Minus,
    Star,
    Slash,
    Percent,
    Amp,
    Pipe,
    Caret,
    Shl,
    Shr,
    EqEq,
    NotEq,
    Lt,
    Le,
    Gt,
    Ge,
    Question,
    Colon,
    Dot,
    LBracket,
    RBracket,
    LParen,
    RParen,
    Comma,
}

/// A token of the expression language.
#[derive(Debug)]
pub enum Token {
    Int(i128),
    Float(Vec<char>),
    Name(Vec<char>),
    Punct(Sym),
}

/// Checks the whole of `input` against one rule of the grammar.
pub fn parse(rule: Rule, input: &str) -> (r: Result<(), KaitaiError>)
    requires
        input@.len() < 0x7fff_ffff_ffff_ffff,
        input@.len() < usize::MAX,
    ensures
        rule_accepts(rule, input@) matches Some(b) ==> (r is Ok <==> b),
        rule_accepts(rule, input@) is None <==> rule == Rule::KaitaiExpression,
        rule == Rule::KaitaiExpression && ((is_integer_literal(input@) && integer_literal_value(
            input@,
        ) <= i128::MAX) || (is_identifier(input@) && !is_keyword(input@)) || is_boolean_literal(
            input@,
        )) ==> r is Ok,
        r matches Err(e) ==> e is ExpressionError,
{
    let c = chars_of(input);
    let n = c.len();
    assert(c@.subrange(0, n as int) =~= c@);
    let ok = match rule {
        Rule::Identifier => check_identifier(&c, 0, n),
        Rule::ArithmeticOperator => n == 1 && (c[0] == '+' || c[0] == '-' || c[0] == '*' || c[0]
            == '/' || c[0] == '%'),
        Rule::Integer => check_integer_literal(&c, 0, n),
        Rule::HexInteger => check_prefixed(&c, 0, n, 'x', 16),
        Rule::BinInteger => check_prefixed(&c, 0, n, 'b', 2),
        Rule::OctalInteger => check_prefixed(&c, 0, n, 'o', 8),
        Rule::FloatingPointNumber => check_float(&c, 0, n),
        Rule::Boolean => chars_are(&c, "true") || chars_are(&c, "false"),
        Rule::IntegerArray => check_integer_array(&c),
        Rule::UserDefinedType => chars_are(&c, "_root") || chars_are(&c, "_parent") || chars_are(
            &c,
            "_io",
        ) || chars_are(&c, "io"),
        Rule::KaitaiExpression => parse_expression_chars(&c).is_some(),
    };
    if ok {
        Ok(())
    } else {
        Err(expression_error(input, "input does not match the rule"))
    }
}

/// An expression error about `expr`.
fn expression_error(expr: &str, cause: &str) -> (r: KaitaiError)
    ensures
        r matches KaitaiError::ExpressionError { expr: e, cause: c } && e@ == expr@ && c@ == cause@,
{
    KaitaiError::ExpressionError { expr: expr.to_string(), cause: cause.to_string() }
}

/// Whether `s` is a word that the grammar reserves.
pub open spec fn is_keyword(s: Seq<char>) -> bool {
    s == "true"@ || s == "false"@ || s == "not"@ || s == "and"@ || s == "or"@
}

fn is_keyword_chars(c: &Vec<char>) -> (r: bool)
    ensures
        r == is_keyword(c@),
{
    chars_are(c, "true") || chars_are(c, "false") || chars_are(c, "not") || chars_are(c, "and")
        || chars_are(c, "or")
}

fn copy_chars_range(c: &Vec<char>, start: usize, end: usize) -> (r: Vec<char>)
    requires
        start <= end <= c@.len(),
    ensures
        r@ == c@.subrange(start as int, end as int),
{
    let mut out: Vec<char> = Vec::new();
    let mut i: usize = start;
    while i < end
        invariant
            start <= i <= end,
            end <= c@.len(),
            out@ == c@.subrange(start as int, i as int),
        decreases end - i,
    {
        out.push(c[i]);
        i = i + 1;
        assert(out@ =~= c@.subrange(start as int, i as int));
    }
    out
}

fn is_word_char(ch: char) -> bool {
    ('a' <= ch && ch <= 'z') || ('A' <= ch && ch <= 'Z') || ('0' <= ch && ch <= '9') || ch == '_'
}

/// The end of the number that starts at `start`.
fn scan_number(c: &Vec<char>, start: usize) -> (r: usize)
    requires
        c@.len() < usize::MAX,
        start < c@.len(),
    ensures
        start < r <= c@.len(),
{
    let n = c.len();
    let mut i: usize = start + 1;
    while i < n && is_word_char(c[i])
        invariant
            start < i <= n,
            n == c@.len(),
        decreases n - i,
    {
        i = i + 1;
    }
    if i + 1 < n && c[i] == '.' && '0' <= c[i + 1] && c[i + 1] <= '9' {
        i = i + 1;
        while i < n && is_word_char(c[i])
            invariant
                start < i <= n,
                n == c@.len(),
            decreases n - i,
        {
            i = i + 1;
        }
    }
    if i + 1 < n && (c[i - 1] == 'e' || c[i - 1] == 'E') && (c[i] == '+' || c[i] == '-') && '0'
        <= c[i + 1] && c[i + 1] <= '9' {
        i = i + 1;
        while i < n && is_word_char(c[i])
            invariant
                start < i <= n,
                n == c@.len(),
            decreases n - i,
        {
            i = i + 1;
        }
    }
    i
}

/// The punctuation at `i`, and its length.
fn scan_symbol(c: &Vec<char>, i: usize) -> (r: Option<(Sym, usize)>)
    requires
        c@.len() < usize::MAX,
        i < c@.len(),
    ensures
        r matches Some((_, len)) ==> 1 <= len <= 2 && i + len <= c@.len(),
{
    let ch = c[i];
    let next = if i + 1 < c.len() {
        c[i + 1]
    } else {
        ' '
    };
    if ch == '<' && next == '<' {
        Some((Sym::Shl, 2))
    } else if ch == '>' && next == '>' {
        Some((Sym::Shr, 2))
    } else if ch == '=' && next == '=' {
        Some((Sym::EqEq, 2))
    } else if ch == '!' && next == '=' {
        Some((Sym::NotEq, 2))
    } else if ch == '<' && next == '=' {
        Some((Sym::Le, 2))
    } else if ch == '>' && next == '=' {
        Some((Sym::Ge, 2))
    } else if ch == '+' {
        Some((Sym::Plus, 1))
    } else if ch == '-' {
        Some((Sym::Minus, 1))
    } else if ch == '*' {
        Some((Sym::Star, 1))
    } else if ch == '/' {
        Some((Sym::Slash, 1))
    } else if ch == '%' {
        Some((Sym::Percent, 1))
    } else if ch == '&' {
        Some((Sym::Amp, 1))
    } else if ch == '|' {
        Some((Sym::Pipe, 1))
    } else if ch == '^' {
        Some((Sym::Caret, 1))
    } else if ch == '<' {
        Some((Sym::Lt, 1))
    } else if ch == '>' {
        Some((Sym::Gt, 1))
    } else if ch == '?' {
        Some((Sym::Question, 1))
    } else if ch == ':' {
        Some((Sym::Colon, 1))
    } else if ch == '.' {
        Some((Sym::Dot, 1))
    } else if ch == '[' {
        Some((Sym::LBracket, 1))
    } else if ch == ']' {
        Some((Sym::RBracket, 1))
    } else if ch == '(' {
        Some((Sym::LParen, 1))
    } else if ch == ')' {
        Some((Sym::RParen, 1))
    } else if ch == ',' {
        Some((Sym::Comma, 1))
    } else {
        None
    }
}

/// Splits an expression into tokens.
pub fn tokenize(c: &Vec<char>) -> (r: Option<Vec<Token>>)
    requires
        c@.len() < 0x7fff_ffff_ffff_ffff,
        c@.len() < usize::MAX,
    ensures
        r matches Some(t) ==> t@.len() <= c@.len(),
{
    let n = c.len();
    let mut toks: Vec<Token> = Vec::new();
    let mut i: usize = 0;
    while i < n
        invariant
            i <= n,
            n == c@.len(),
            n < 0x7fff_ffff_ffff_ffff,
            n < usize::MAX,
            toks@.len() <= i,
        decreases n - i,
    {
        let ch = c[i];
        if ch == ' ' || ch == '\t' || ch == '\n' || ch == '\r' {
            i = i + 1;
        } else if '0' <= ch && ch <= '9' {
            let j = scan_number(c, i);
            if check_integer_literal(c, i, j) {
                match integer_literal_to_int(c, i, j) {
                    Some(v) => {
                        if v > 0x7fff_ffff_ffff_ffff_ffff_ffff_ffff_ffff {
                            return None;
                        }
                        toks.push(Token::Int(v as i128));
                    },
                    None => {
                        return None;
                    },
                }
            } else if check_float(c, i, j) {
                toks.push(Token::Float(copy_chars_range(c, i, j)));
            } else {
                return None;
            }
            i = j;
        } else if ('a' <= ch && ch <= 'z') || ch == '_' {
            let mut j: usize = i + 1;
            while j < n && (('a' <= c[j] && c[j] <= 'z') || ('0' <= c[j] && c[j] <= '9') || c[j]
                == '_')
                invariant
                    i < j <= n,
                    n == c@.len(),
                decreases n - j,
            {
                j = j + 1;
            }
            toks.push(Token::Name(copy_chars_range(c, i, j)));
            i = j;
        } else {
            match scan_symbol(c, i) {
                Some((sym, len)) => {
                    toks.push(Token::Punct(sym));
                    i = i + len;
                },
                None => {
                    return None;
                },
            }
        }
    }
    Some(toks)
}

fn punct_at(toks: &Vec<Token>, pos: usize, sym: Sym) -> (r: bool)
    ensures
        r ==> pos < toks@.len(),
{
    if pos < toks.len() {
        match &toks[pos] {
            Token::Punct(s) => *s == sym,
            _ => false,
        }
    } else {
        false
    }
}

fn name_at(toks: &Vec<Token>, pos: usize, word: &str) -> (r: bool)
    ensures
        r ==> pos < toks@.len(),
{
    if pos < toks.len() {
        match &toks[pos] {
            Token::Name(n) => chars_are(n, word),
            _ => false,
        }
    } else {
        false
    }
}

/// The binary operator at `pos` of the given precedence level, lowest first.
fn binary_op_at(toks: &Vec<Token>, pos: usize, level: u32) -> (r: Option<BinaryOp>)
    ensures
        r is Some ==> pos < toks@.len(),
{
    if pos >= toks.len() {
        return None;
    }
    if level == 0 {
        if name_at(toks, pos, "or") {
            return Some(BinaryOp::Or);
        }
        return None;
    }
    if level == 1 {
        if name_at(toks, pos, "and") {
            return Some(BinaryOp::And);
        }
        return None;
    }
    match &toks[pos] {
        Token::Punct(s) => {
            let s = *s;
            if level == 2 {
                if s == Sym::EqEq {
                    Some(BinaryOp::Eq)
                } else if s == Sym::NotEq {
                    Some(BinaryOp::Ne)
                } else if s == Sym::Lt {
                    Some(BinaryOp::Lt)
                } else if s == Sym::Le {
                    Some(BinaryOp::Le)
                } else if s == Sym::Gt {
                    Some(BinaryOp::Gt)
                } else if s == Sym::Ge {
                    Some(BinaryOp::Ge)
                } else {
                    None
                }
            } else if level == 3 && s == Sym::Pipe {
                Some(BinaryOp::BitOr)
            } else if level == 4 && s == Sym::Caret {
                Some(BinaryOp::BitXor)
            } else if level == 5 && s == Sym::Amp {
                Some(BinaryOp::BitAnd)
            } else if level == 6 && s == Sym::Shl {
                Some(BinaryOp::Shl)
            } else if level == 6 && s == Sym::Shr {
                Some(BinaryOp::Shr)
            } else if level == 7 && s == Sym::Plus {
                Some(BinaryOp::Add)
            } else if level == 7 && s == Sym::Minus {
                Some(BinaryOp::Sub)
            } else if level == 8 && s == Sym::Star {
                Some(BinaryOp::Mul)
            } else if level == 8 && s == Sym::Slash {
                Some(BinaryOp::Div)
            } else if level == 8 && s == Sym::Percent {
                Some(BinaryOp::Mod)
            } else {
                None
            }
        },
        _ => None,
    }
}

/// `cond ? a : b`, or a binary expression.
fn parse_ternary(toks: &Vec<Token>, pos: usize) -> (r: Option<(Expr, usize)>)
    requires
        pos <= toks@.len(),
        toks@.len() < usize::MAX,
    ensures
        r matches Some((_, end)) ==> pos < end <= toks@.len(),
    decreases toks@.len() - pos, 13nat,
{
    let (cond, p) = parse_binary(toks, pos, 0)?;
    if punct_at(toks, p, Sym::Question) {
        let (a, q) = parse_ternary(toks, p + 1)?;
        if !punct_at(toks, q, Sym::Colon) {
            return None;
        }
        let (b, e) = parse_ternary(toks, q + 1)?;
        Some((Expr::Ternary(Box::new(cond), Box::new(a), Box::new(b)), e))
    } else {
        Some((cond, p))
    }
}

/// Operands joined by the operators of `level` and above.
fn parse_binary(toks: &Vec<Token>, pos: usize, level: u32) -> (r: Option<(Expr, usize)>)
    requires
        pos <= toks@.len(),
        toks@.len() < usize::MAX,
        level <= 9,
    ensures
        r matches Some((_, end)) ==> pos < end <= toks@.len(),
    decreases toks@.len() - pos, 12 - level,
{
    if level == 9 {
        return parse_unary(toks, pos);
    }
    let (first, p) = parse_binary(toks, pos, level + 1)?;
    let mut left = first;
    let mut cur = p;
    loop
        invariant
            pos < cur <= toks@.len(),
            toks@.len() < usize::MAX,
            level < 9,
        decreases toks@.len() - cur,
    {
        match binary_op_at(toks, cur, level) {
            Some(op) => {
                let (right, e) = parse_binary(toks, cur + 1, level + 1)?;
                left = Expr::Binary(op, Box::new(left), Box::new(right));
                cur = e;
            },
            None => {
                return Some((left, cur));
            },
        }
    }
}

/// A prefix operator applied to an operand, or an operand.
fn parse_unary(toks: &Vec<Token>, pos: usize) -> (r: Option<(Expr, usize)>)
    requires
        pos <= toks@.len(),
        toks@.len() < usize::MAX,
    ensures
        r matches Some((_, end)) ==> pos < end <= toks@.len(),
    decreases toks@.len() - pos, 2nat,
{
    if punct_at(toks, pos, Sym::Minus) {
        let (e, end) = parse_unary(toks, pos + 1)?;
        return Some((Expr::Unary(UnaryOp::Neg, Box::new(e)), end));
    }
    if name_at(toks, pos, "not") {
        let (e, end) = parse_unary(toks, pos + 1)?;
        return Some((Expr::Unary(UnaryOp::Not, Box::new(e)), end));
    }
    parse_postfix(toks, pos)
}

/// An operand followed by member accesses, casts and indexing.
fn parse_postfix(toks: &Vec<Token>, pos: usize) -> (r: Option<(Expr, usize)>)
    requires
        pos <= toks@.len(),
        toks@.len() < usize::MAX,
    ensures
        r matches Some((_, end)) ==> pos < end <= toks@.len(),
    decreases toks@.len() - pos, 1nat,
{
    let (first, p) = parse_primary(toks, pos)?;
    let mut e = first;
    let mut cur = p;
    loop
        invariant
            pos < cur <= toks@.len(),
            toks@.len() < usize::MAX,
        decreases toks@.len() - cur,
    {
        if punct_at(toks, cur, Sym::Dot) {
            if cur + 1 >= toks.len() {
                return None;
            }
            let member = match &toks[cur + 1] {
                Token::Name(n) => copy_chars_range(n, 0, n.len()),
                _ => {
                    return None;
                },
            };
            if chars_are(&member, "as") && punct_at(toks, cur + 2, Sym::Lt) {
                if cur + 3 >= toks.len() {
                    return None;
                }
                let target = match &toks[cur + 3] {
                    Token::Name(n) => copy_chars_range(n, 0, n.len()),
                    _ => {
                        return None;
                    },
                };
                if !punct_at(toks, cur + 4, Sym::Gt) {
                    return None;
                }
                e = Expr::Cast(Box::new(e), target);
                cur = cur + 5;
            } else {
                e = Expr::Member(Box::new(e), member);
                cur = cur + 2;
            }
        } else if punct_at(toks, cur, Sym::LBracket) {
            let (idx, q) = parse_ternary(toks, cur + 1)?;
            if !punct_at(toks, q, Sym::RBracket) {
                return None;
            }
            e = Expr::Index(Box::new(e), Box::new(idx));
            cur = q + 1;
        } else {
            return Some((e, cur));
        }
    }
}

/// A literal, a name, a parenthesised expression or an array.
fn parse_primary(toks: &Vec<Token>, pos: usize) -> (r: Option<(Expr, usize)>)
    requires
        pos <= toks@.len(),
        toks@.len() < usize::MAX,
    ensures
        r matches Some((_, end)) ==> pos < end <= toks@.len(),
    decreases toks@.len() - pos, 0nat,
{
    if pos >= toks.len() {
        return None;
    }
    match &toks[pos] {
        Token::Int(v) => Some((Expr::Integer(*v), pos + 1)),
        Token::Float(f) => Some((Expr::Float(copy_chars_range(f, 0, f.len())), pos + 1)),
        Token::Name(n) => {
            let e = if chars_are(n, "true") {
                Expr::Boolean(true)
            } else if chars_are(n, "false") {
                Expr::Boolean(false)
            } else if chars_are(n, "_root") {
                Expr::Root
            } else if chars_are(n, "_parent") {
                Expr::Parent
            } else if chars_are(n, "_io") {
                Expr::Io
            } else if is_keyword_chars(n) {
                return None;
            } else {
                Expr::Name(copy_chars_range(n, 0, n.len()))
            };
            Some((e, pos + 1))
        },
        Token::Punct(Sym::LParen) => {
            let (e, q) = parse_ternary(toks, pos + 1)?;
            if !punct_at(toks, q, Sym::RParen) {
                return None;
            }
            Some((e, q + 1))
        },
        Token::Punct(Sym::LBracket) => {
            let mut items: Vec<Expr> = Vec::new();
            let mut cur = pos + 1;
            if punct_at(toks, cur, Sym::RBracket) {
                return Some((Expr::Array(items), cur + 1));
            }
            loop
                invariant
                    pos < cur <= toks@.len(),
                    toks@.len() < usize::MAX,
                decreases toks@.len() - cur,
            {
                let (item, q) = parse_ternary(toks, cur)?;
                items.push(item);
                if punct_at(toks, q, Sym::Comma) {
                    cur = q + 1;
                } else if punct_at(toks, q, Sym::RBracket) {
                    return Some((Expr::Array(items), q + 1));
                } else {
                    return None;
                }
            }
        },
        _ => None,
    }
}

/// Parses a whole expression.
pub fn parse_expression_chars(c: &Vec<char>) -> (r: Option<Expr>)
    requires
        c@.len() < 0x7fff_ffff_ffff_ffff,
        c@.len() < usize::MAX,
    ensures
        is_integer_literal(c@) ==> (integer_literal_value(c@) <= i128::MAX <==> r is Some),
        is_integer_literal(c@) && r is Some ==> (r matches Some(Expr::Integer(v)) && v
            == integer_literal_value(c@)),
        is_identifier(c@) && !is_keyword(c@) ==> (r matches Some(Expr::Name(n)) && n@ == c@),
        c@ == "true"@ ==> r == Some(Expr::Boolean(true)),
        c@ == "false"@ ==> r == Some(Expr::Boolean(false)),
{
    proof {
        reveal_strlit("true");
        reveal_strlit("false");
    }
    let n = c.len();
    assert(c@.subrange(0, n as int) =~= c@);
    if check_integer_literal(c, 0, n) {
        return match integer_literal_to_int(c, 0, n) {
            Some(v) => {
                if v > 0x7fff_ffff_ffff_ffff_ffff_ffff_ffff_ffff {
                    None
                } else {
                    Some(Expr::Integer(v as i128))
                }
            },
            None => None,
        };
    }
    if chars_are(c, "true") {
        return Some(Expr::Boolean(true));
    }
    if chars_are(c, "false") {
        return Some(Expr::Boolean(false));
    }
    if check_identifier(c, 0, n) && !is_keyword_chars(c) {
        return Some(Expr::Name(copy_chars_range(c, 0, n)));
    }
    let toks = tokenize(c)?;
    let (e, end) = parse_ternary(&toks, 0)?;
    if end == toks.len() {
        Some(e)
    } else {
        None
    }
}

/// The little-endian unsigned value of `d`.
pub open spec fn le_value(d: Seq<u8>) -> nat
    decreases d.len(),
{
    if d.len() == 0 {
        0
    } else {
        d[0] as nat + 256 * le_value(d.drop_first())
    }
}

/// A byte width that an integer field can have.
pub open spec fn is_int_width(n: int) -> bool {
    n == 1 || n == 2 || n == 4 || n == 8
}

/// The integer that a node's bytes stand for, when they have an integer width.
pub open spec fn node_integer(m: NodeModel) -> Option<int> {
    match m.data {
        Some(d) => if is_int_width(d.len() as int) {
            Some(le_value(d) as int)
        } else {
            None
        },
        None => None,
    }
}

/// The integer of the first node, depth first from `root`, whose id is `name`.
pub open spec fn lookup_value(root: NodeModel, name: Seq<char>) -> Option<int> {
    match first_with_id(preorder(root), name) {
        Some(m) => node_integer(m),
        None => None,
    }
}

/// `a` doubled `b` times.
pub open spec fn shl_spec(a: int, b: nat) -> int
    decreases b,
{
    if b == 0 {
        a
    } else {
        shl_spec(a, (b - 1) as nat) * 2
    }
}

/// `a` halved `b` times.
pub open spec fn shr_spec(a: int, b: nat) -> int
    decreases b,
{
    if b == 0 {
        a
    } else {
        shr_spec(a, (b - 1) as nat) / 2
    }
}

/// Whether `v` fits in an `i128`.
pub open spec fn in_i128(v: int) -> bool {
    i128::MIN <= v <= i128::MAX
}

/// `v`, if it fits in an `i128`.
pub open spec fn fit(v: int) -> Option<int> {
    if in_i128(v) {
        Some(v)
    } else {
        None
    }
}

/// Whether `v` fits in a `u64`.
pub open spec fn in_u64(v: int) -> bool {
    0 <= v <= u64::MAX
}

/// 1 for true, 0 for false.
pub open spec fn flag(b: bool) -> int {
    if b {
        1
    } else {
        0
    }
}

/// The value of a binary operation on two integers, where it is defined.
pub open spec fn apply_binary(op: BinaryOp, a: int, b: int) -> Option<int> {
    match op {
        BinaryOp::Add => fit(a + b),
        BinaryOp::Sub => fit(a - b),
        BinaryOp::Mul => fit(a * b),
        BinaryOp::Div => if a >= 0 && b > 0 {
            Some(a / b)
        } else {
            None
        },
        BinaryOp::Mod => if a >= 0 && b > 0 {
            Some(a % b)
        } else {
            None
        },
        BinaryOp::BitAnd => if in_u64(a) && in_u64(b) {
            Some((a as u64 & b as u64) as int)
        } else {
            None
        },
        BinaryOp::BitOr => if in_u64(a) && in_u64(b) {
            Some((a as u64 | b as u64) as int)
        } else {
            None
        },
        BinaryOp::BitXor => if in_u64(a) && in_u64(b) {
            Some((a as u64 ^ b as u64) as int)
        } else {
            None
        },
        BinaryOp::Shl => if a >= 0 && 0 <= b < 128 {
            fit(shl_spec(a, b as nat))
        } else {
            None
        },
        BinaryOp::Shr => if a >= 0 && 0 <= b < 128 {
            Some(shr_spec(a, b as nat))
        } else {
            None
        },
        BinaryOp::Eq => Some(flag(a == b)),
        BinaryOp::Ne => Some(flag(a != b)),
        BinaryOp::Lt => Some(flag(a < b)),
        BinaryOp::Le => Some(flag(a <= b)),
        BinaryOp::Gt => Some(flag(a > b)),
        BinaryOp::Ge => Some(flag(a >= b)),
        BinaryOp::And => Some(flag(a != 0 && b != 0)),
        BinaryOp::Or => Some(flag(a != 0 || b != 0)),
    }
}

/// The integer value of `e` against the tree under `root`, where it has one.
pub open spec fn eval_spec(root: NodeModel, e: Expr) -> Option<int>
    decreases e,
{
    match e {
        Expr::Integer(v) => Some(v as int),
        Expr::Boolean(b) => Some(flag(b)),
        Expr::Name(n) => lookup_value(root, n@),
        Expr::Member(base, n) => match *base {
            Expr::Root => lookup_value(root, n@),
            _ => None,
        },
        Expr::Unary(UnaryOp::Neg, a) => match eval_spec(root, *a) {
            Some(x) => fit(-x),
            None => None,
        },
        Expr::Unary(UnaryOp::Not, a) => match eval_spec(root, *a) {
            Some(x) => Some(flag(x == 0)),
            None => None,
        },
        Expr::Binary(op, a, b) => match (eval_spec(root, *a), eval_spec(root, *b)) {
            (Some(x), Some(y)) => apply_binary(op, x, y),
            _ => None,
        },
        Expr::Ternary(c, a, b) => match eval_spec(root, *c) {
            Some(x) => if x != 0 {
                eval_spec(root, *a)
            } else {
                eval_spec(root, *b)
            },
            None => None,
        },
        _ => None,
    }
}

proof fn lemma_shl_nonneg(a: int, k: nat)
    requires
        a >= 0,
    ensures
        shl_spec(a, k) >= 0,
    decreases k,
{
    if k > 0 {
        lemma_shl_nonneg(a, (k - 1) as nat);
    }
}

proof fn lemma_shl_grows(a: int, k: nat, j: nat)
    requires
        a >= 0,
        k <= j,
    ensures
        shl_spec(a, k) <= shl_spec(a, j),
        shl_spec(a, k) >= 0,
    decreases j,
{
    lemma_shl_nonneg(a, k);
    if j > k {
        lemma_shl_grows(a, k, (j - 1) as nat);
        lemma_shl_nonneg(a, (j - 1) as nat);
    }
}

/// 256 to the power `k`.
pub open spec fn pow256(k: nat) -> nat
    decreases k,
{
    if k == 0 {
        1
    } else {
        256 * pow256((k - 1) as nat)
    }
}

proof fn lemma_pow256_le(k: nat)
    requires
        k <= 8,
    ensures
        pow256(k) <= 0x1_0000_0000_0000_0000,
        pow256(k) >= 1,
{
    reveal_with_fuel(pow256, 9);
}

proof fn lemma_le_value_below(s: Seq<u8>)
    ensures
        le_value(s) < pow256(s.len()),
    decreases s.len(),
{
    if s.len() > 0 {
        lemma_le_value_below(s.drop_first());
        let rest = le_value(s.drop_first());
        let p = pow256(s.drop_first().len());
        assert(s[0] as nat + 256 * rest < 256 * p) by (nonlinear_arith)
            requires
                rest < p,
                s[0] < 256,
        ;
    }
}

proof fn lemma_le_value_step(d: Seq<u8>, i: int, n: int)
    requires
        0 <= i < n <= d.len(),
    ensures
        le_value(d.subrange(i, n)) == d[i] as nat + 256 * le_value(d.subrange(i + 1, n)),
{
    assert(d.subrange(i, n).drop_first() =~= d.subrange(i + 1, n));
}

/// The little-endian value of `d`, when its length is an integer width.
pub fn decode_le(d: &Vec<u8>) -> (r: Option<u64>)
    ensures
        r is Some <==> is_int_width(d@.len() as int),
        r matches Some(v) ==> v as nat == le_value(d@),
{
    let n = d.len();
    if !(n == 1 || n == 2 || n == 4 || n == 8) {
        return None;
    }
    let mut v: u128 = 0;
    let mut i: usize = n;
    assert(d@.subrange(n as int, n as int) =~= Seq::<u8>::empty());
    while i > 0
        invariant
            i <= n,
            n == d@.len(),
            n <= 8,
            v as nat == le_value(d@.subrange(i as int, n as int)),
            v < 0x1_0000_0000_0000_0000,
        decreases i,
    {
        i = i - 1;
        proof {
            lemma_le_value_step(d@, i as int, n as int);
            lemma_le_value_below(d@.subrange(i as int, n as int));
            lemma_pow256_le((n - i) as nat);
        }
        assert(v * 256 + 255 < 0x1_0000_0000_0000_0000_0000_0000) by (nonlinear_arith)
            requires
                v < 0x1_0000_0000_0000_0000,
        ;
        v = v * 256 + d[i] as u128;
    }
    assert(d@.subrange(0, n as int) =~= d@);
    Some(v as u64)
}

/// The integer of the first node named `name`.
fn lookup(ast: &AST, name: &Vec<char>) -> (r: Option<i128>)
    ensures
        r matches Some(v) ==> lookup_value(ast.root@, name@) == Some(v as int),
        r is None <==> lookup_value(ast.root@, name@) is None,
{
    match ast.get_node_by_name(name) {
        Some(node) => match &node.data {
            Some(d) => match decode_le(d) {
                Some(v) => Some(v as i128),
                None => None,
            },
            None => None,
        },
        None => None,
    }
}

fn apply_binary_exec(op: BinaryOp, a: i128, b: i128) -> (r: Option<i128>)
    ensures
        r matches Some(v) ==> apply_binary(op, a as int, b as int) == Some(v as int),
        r is None <==> apply_binary(op, a as int, b as int) is None,
{
    match op {
        BinaryOp::Add => a.checked_add(b),
        BinaryOp::Sub => a.checked_sub(b),
        BinaryOp::Mul => a.checked_mul(b),
        BinaryOp::Div => if a >= 0 && b > 0 {
            Some(((a as u128) / (b as u128)) as i128)
        } else {
            None
        },
        BinaryOp::Mod => if a >= 0 && b > 0 {
            Some(((a as u128) % (b as u128)) as i128)
        } else {
            None
        },
        BinaryOp::BitAnd => if 0 <= a && a <= 0xffff_ffff_ffff_ffff && 0 <= b && b <= 0xffff_ffff_ffff_ffff {
            Some(((a as u64) & (b as u64)) as i128)
        } else {
            None
        },
        BinaryOp::BitOr => if 0 <= a && a <= 0xffff_ffff_ffff_ffff && 0 <= b && b <= 0xffff_ffff_ffff_ffff {
            Some(((a as u64) | (b as u64)) as i128)
        } else {
            None
        },
        BinaryOp::BitXor => if 0 <= a && a <= 0xffff_ffff_ffff_ffff && 0 <= b && b <= 0xffff_ffff_ffff_ffff {
            Some(((a as u64) ^ (b as u64)) as i128)
        } else {
            None
        },
        BinaryOp::Shl => {
            if !(a >= 0 && 0 <= b && b < 128) {
                return None;
            }
            let mut v: i128 = a;
            let mut k: i128 = 0;
            while k < b
                invariant
                    0 <= k <= b < 128,
                    a >= 0,
                    op == BinaryOp::Shl,
                    v as int == shl_spec(a as int, k as nat),
                decreases b - k,
            {
                match v.checked_mul(2) {
                    Some(w) => {
                        v = w;
                    },
                    None => {
                        proof {
                            lemma_shl_nonneg(a as int, k as nat);
                            assert(shl_spec(a as int, (k + 1) as nat) == v * 2);
                            lemma_shl_grows(a as int, (k + 1) as nat, b as nat);
                        }
                        return None;
                    },
                }
                k = k + 1;
            }
            Some(v)
        },
        BinaryOp::Shr => {
            if !(a >= 0 && 0 <= b && b < 128) {
                return None;
            }
            let mut v: i128 = a;
            let mut k: i128 = 0;
            while k < b
                invariant
                    0 <= k <= b < 128,
                    v >= 0,
                    v as int == shr_spec(a as int, k as nat),
                decreases b - k,
            {
                v = v / 2;
                k = k + 1;
            }
            Some(v)
        },
        BinaryOp::Eq => Some(if a == b { 1 } else { 0 }),
        BinaryOp::Ne => Some(if a != b { 1 } else { 0 }),
        BinaryOp::Lt => Some(if a < b { 1 } else { 0 }),
        BinaryOp::Le => Some(if a <= b { 1 } else { 0 }),
        BinaryOp::Gt => Some(if a > b { 1 } else { 0 }),
        BinaryOp::Ge => Some(if a >= b { 1 } else { 0 }),
        BinaryOp::And => Some(if a != 0 && b != 0 { 1 } else { 0 }),
        BinaryOp::Or => Some(if a != 0 || b != 0 { 1 } else { 0 }),
    }
}

/// The integer value of a parsed expression against the tree, where it has one.
pub fn eval_expr(ast: &AST, e: &Expr) -> (r: Option<i128>)
    ensures
        r matches Some(v) ==> eval_spec(ast.root@, *e) == Some(v as int),
        r is None <==> eval_spec(ast.root@, *e) is None,
    decreases e,
{
    match e {
        Expr::Integer(v) => Some(*v),
        Expr::Boolean(b) => Some(if *b { 1 } else { 0 }),
        Expr::Name(n) => lookup(ast, n),
        Expr::Member(base, n) => match &**base {
            Expr::Root => lookup(ast, n),
            _ => None,
        },
        Expr::Unary(UnaryOp::Neg, a) => match eval_expr(ast, a) {
            Some(x) => if x == i128::MIN {
                None
            } else {
                Some(-x)
            },
            None => None,
        },
        Expr::Unary(UnaryOp::Not, a) => match eval_expr(ast, a) {
            Some(x) => Some(if x == 0 { 1 } else { 0 }),
            None => None,
        },
        Expr::Binary(op, a, b) => {
            let x = eval_expr(ast, a);
            let y = eval_expr(ast, b);
            match (x, y) {
                (Some(x), Some(y)) => apply_binary_exec(*op, x, y),
                _ => None,
            }
        },
        Expr::Ternary(c, a, b) => match eval_expr(ast, c) {
            Some(x) => if x != 0 {
                eval_expr(ast, a)
            } else {
                eval_expr(ast, b)
            },
            None => None,
        },
        _ => None,
    }
}

/// Evaluates an expression of the schema to an integer against the tree built so far.
pub fn evaluate(ast: &AST, expr: &str) -> (r: Result<i128, KaitaiError>)
    requires
        expr@.len() < 0x7fff_ffff_ffff_ffff,
        expr@.len() < usize::MAX,
    ensures
        is_integer_literal(expr@) && integer_literal_value(expr@) <= i128::MAX ==> r == Ok::<
            i128,
            KaitaiError,
        >(integer_literal_value(expr@) as i128),
        is_identifier(expr@) && !is_keyword(expr@) ==> (r is Ok <==> lookup_value(
            ast.root@,
            expr@,
        ) is Some),
        is_identifier(expr@) && !is_keyword(expr@) ==> (r matches Ok(v) ==> lookup_value(
            ast.root@,
            expr@,
        ) == Some(v as int)),
        r matches Err(e) ==> e is ExpressionError,
{
    let c = chars_of(expr);
    match parse_expression_chars(&c) {
        Some(e) => match eval_expr(ast, &e) {
            Some(v) => Ok(v),
            None => Err(expression_error(expr, "expression has no integer value")),
        },
        None => Err(expression_error(expr, "expression does not parse")),
    }
}

} // verus!
