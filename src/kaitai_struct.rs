use vstd::prelude::*;
use crate::ast::AST;
use crate::attribute::{Attribute, Repeat};
use crate::chars::chars_of;
use crate::errors::KaitaiError;
use crate::ast::NodeModel;
use crate::expression::{is_int_width, is_keyword, parse_expression_chars, Expr};
use crate::interpreter::FailKind;
use crate::laws::{step_widths_ok, tags_correct, tree_tags_ok, widths_ok};
use crate::lexical::{integer_literal_value, is_identifier, is_integer_literal};
use crate::interpreter::{interpret, kind_of, run_spec, Body, RepeatPlan, Step};
use crate::kaitai_type::{copy_range, PureType};
use crate::meta::EndianEnum;
use crate::identifier::strings_view;
use crate::model::{KsyStruct, TypeSpec, Types};
use crate::utils::opt_str_view;

verus! {

/// Whether the attribute names something that can be read.
pub open spec fn readable(attr: Attribute) -> bool {
    if attr.size_eos {
        true
    } else if attr.seq_type is Some {
        match attr.seq_type.unwrap().pure_type {
            PureType::UnsignedInteger(w) => is_int_width(w as int),
            PureType::SignedInteger(w) => is_int_width(w as int),
            PureType::FloatingPoint(_) | PureType::StringZ => true,
            PureType::String => attr.size is Some,
            PureType::UserType(_) => attr.repeat is None,
            _ => false,
        }
    } else {
        attr.contents is Some || attr.size is Some
    }
}

/// Whether `body` reads what `attr` describes, by the precedence size-eos, type,
/// contents, size.
pub open spec fn body_for(attr: Attribute, big_endian: bool, body: Body) -> bool {
    if attr.size_eos {
        body is SizeEos
    } else if attr.seq_type is Some {
        match attr.seq_type.unwrap().pure_type {
            PureType::UnsignedInteger(w) => body == (Body::Fixed { width: w as usize, big_endian, integer: true }),
            PureType::SignedInteger(w) => body == (Body::Fixed { width: w as usize, big_endian, integer: true }),
            PureType::FloatingPoint(w) => body == (Body::Fixed { width: w as usize, big_endian, integer: false }),
            PureType::StringZ => body matches Body::StrZ { terminator, size } && terminator == (match attr.terminator {
                Some(t) => t,
                None => 0u8,
            }) && opt_expr_for(attr.size, size),
            PureType::String => body matches Body::Str { size } && expr_for(attr.size, size),
            PureType::UserType(_) => body is User,
            _ => false,
        }
    } else if attr.contents is Some {
        body matches Body::Contents(c) && c@ == attr.contents.unwrap()@
    } else {
        body matches Body::Sized(e) && expr_for(attr.size, e)
    }
}

/// Whether `text` is an expression whose parse this contract fixes: an integer literal
/// that fits, or a name that is not a keyword.
pub open spec fn simple_text(text: Seq<char>) -> bool {
    &&& text.len() < 0x7fff_ffff_ffff_ffff
    &&& text.len() < usize::MAX
    &&& ((is_integer_literal(text) && integer_literal_value(text) <= i128::MAX) || (is_identifier(text)
        && !is_keyword(text)))
}

/// Whether `e` is what `text` parses to, where the literal or name forms fix it.
pub open spec fn expr_text_fixes(text: Seq<char>, e: Expr) -> bool {
    &&& (is_integer_literal(text) && integer_literal_value(text) <= i128::MAX ==> e == Expr::Integer(
        integer_literal_value(text) as i128,
    ))
    &&& (is_identifier(text) && !is_keyword(text) ==> (e matches Expr::Name(n) && n@ == text))
}

/// Whether `e` is the parse of the text in `text`.
pub open spec fn expr_for(text: Option<String>, e: Expr) -> bool {
    text matches Some(t) && expr_text_fixes(t@, e)
}

/// Whether `e` is the parse of the optional text.
pub open spec fn opt_expr_for(text: Option<String>, e: Option<Expr>) -> bool {
    match (text, e) {
        (Some(t), Some(x)) => expr_text_fixes(t@, x),
        (None, None) => true,
        _ => false,
    }
}

/// Whether `plan` repeats as `attr` says.
pub open spec fn repeat_for(attr: Attribute, plan: RepeatPlan) -> bool {
    match attr.repeat {
        None => plan is Once,
        Some(Repeat::Eos) => plan is Eos,
        Some(Repeat::Expr) => plan matches RepeatPlan::Count(e) && expr_for(attr.repeat_expr, e),
        Some(Repeat::Until) => plan matches RepeatPlan::Until(e) && expr_for(attr.repeat_until, e),
    }
}

/// Whether every expression text of `attr` is a literal or a name, and the texts its
/// repetition needs are there.
pub open spec fn exprs_simple(attr: Attribute) -> bool {
    &&& (attr.optional_if matches Some(t) ==> simple_text(t@))
    &&& (attr.size matches Some(t) ==> simple_text(t@))
    &&& (attr.repeat_expr matches Some(t) ==> simple_text(t@))
    &&& (attr.repeat_until matches Some(t) ==> simple_text(t@))
    &&& (attr.repeat == Some(Repeat::Expr) ==> attr.repeat_expr is Some)
    &&& (attr.repeat == Some(Repeat::Until) ==> attr.repeat_until is Some)
}

/// Whether `attr` is readable without a user type and its expressions are literals or
/// names: such an attribute always compiles.
pub open spec fn simple_attr(attr: Attribute) -> bool {
    &&& readable(attr)
    &&& exprs_simple(attr)
    &&& !(attr.seq_type matches Some(t) && t.pure_type is UserType && !attr.size_eos)
}

/// Whether each step of `plan` is what the attribute at its place compiles to.
pub open spec fn plan_for(attrs: Seq<Attribute>, big_endian: bool, plan: Seq<Step>) -> bool {
    &&& plan.len() == attrs.len()
    &&& forall|i: int| 0 <= i < attrs.len() ==> step_for(#[trigger] attrs[i], big_endian, plan[i])
}

/// Whether `step` is what `attr` compiles to.
pub open spec fn step_for(attr: Attribute, big_endian: bool, step: Step) -> bool {
    &&& opt_str_view(step.id) == opt_str_view(attr.id)
    &&& step.eos_error == attr.eos_error
    &&& opt_expr_for(attr.optional_if, step.cond)
    &&& repeat_for(attr, step.repeat)
    &&& body_for(attr, big_endian, step.body)
}

/// Parses an expression of the schema.
pub fn parse_expr_string(s: &String) -> (r: Result<Expr, KaitaiError>)
    ensures
        r matches Ok(e) ==> expr_text_fixes(s@, e),
        simple_text(s@) ==> r is Ok,
        r matches Err(e) ==> e is ExpressionError,
{
    let c = chars_of(s.as_str());
    if c.len() as u64 >= 0x7fff_ffff_ffff_ffff || c.len() == usize::MAX {
        return Err(KaitaiError::ExpressionError { expr: s.clone(), cause: "expression too long".to_string() });
    }
    match parse_expression_chars(&c) {
        Some(e) => Ok(e),
        None => Err(KaitaiError::ExpressionError { expr: s.clone(), cause: "expression does not parse".to_string() }),
    }
}

fn optional_expr(s: &Option<String>) -> (r: Result<Option<Expr>, KaitaiError>)
    ensures
        r matches Ok(e) ==> opt_expr_for(*s, e),
        (s matches Some(t) ==> simple_text(t@)) ==> r is Ok,
        r matches Err(e) ==> e is ExpressionError,
{
    match s {
        Some(t) => Ok(Some(parse_expr_string(t)?)),
        None => Ok(None),
    }
}

fn required_expr(s: &Option<String>, what: &str) -> (r: Result<Expr, KaitaiError>)
    ensures
        r matches Ok(e) ==> expr_for(*s, e),
        (s matches Some(t) && simple_text(t@)) ==> r is Ok,
        r matches Err(e) ==> e is ExpressionError || e is SchemaError,
{
    match s {
        Some(t) => parse_expr_string(t),
        None => Err(KaitaiError::SchemaError { section: "seq".to_string(), reason: what.to_string() }),
    }
}

fn schema_error(reason: &str) -> (r: KaitaiError)
    ensures
        r is SchemaError,
{
    KaitaiError::SchemaError { section: "seq".to_string(), reason: reason.to_string() }
}

/// The user type named `name` in `types`.
fn find_type<'a>(types: &'a Types, name: &String) -> (r: Option<&'a TypeSpec>)
    ensures
        r matches Some(t) ==> exists|i: int| 0 <= i < types.types@.len() && types.types@[i].1 == *t
            && strings_view(types.types@[i].0.value@) == seq![name@],
{
    let mut i: usize = 0;
    while i < types.types.len()
        invariant
            i <= types.types@.len(),
        decreases types.types@.len() - i,
    {
        let entry = &types.types[i];
        if entry.0.value.len() == 1 && entry.0.value[0] == *name {
            assert(strings_view(entry.0.value@) =~= seq![name@]);
            return Some(&entry.1);
        }
        i = i + 1;
    }
    None
}

/// Prepares an attribute for interpretation. A user type is looked up in `local`, the
/// types of the enclosing type, then in `global`, the types of the schema; user types
/// may nest `depth` deep.
pub fn compile_attribute(attr: &Attribute, big_endian: bool, local: &Types, global: &Types, depth: u32) -> (r: Result<Step, KaitaiError>)
    ensures
        r matches Ok(step) ==> step_for(*attr, big_endian, step) && step_widths_ok(step),
        !readable(*attr) ==> r is Err,
        simple_attr(*attr) ==> r is Ok,
        r matches Err(e) ==> e is ExpressionError || e is SchemaError || e is UnknownType,
    decreases depth, 0nat,
{
    let body = if attr.size_eos {
        Body::SizeEos
    } else if let Some(t) = &attr.seq_type {
        match &t.pure_type {
            PureType::UnsignedInteger(w) | PureType::SignedInteger(w) => {
                if !(*w == 1 || *w == 2 || *w == 4 || *w == 8) {
                    return Err(schema_error("an integer is 1, 2, 4 or 8 bytes wide"));
                }
                Body::Fixed { width: *w as usize, big_endian, integer: true }
            },
            PureType::FloatingPoint(w) => Body::Fixed { width: *w as usize, big_endian, integer: false },
            PureType::StringZ => {
                let terminator = match attr.terminator {
                    Some(b) => b,
                    None => 0u8,
                };
                Body::StrZ { terminator, size: optional_expr(&attr.size)? }
            },
            PureType::String => Body::Str { size: required_expr(&attr.size, "a string needs a size")? },
            PureType::UserType(name) => {
                if attr.repeat.is_some() {
                    return Err(schema_error("a user type cannot be repeated"));
                }
                if depth == 0 {
                    return Err(schema_error("user types nest too deeply"));
                }
                let spec = match find_type(local, name) {
                    Some(t) => t,
                    None => match find_type(global, name) {
                        Some(t) => t,
                        None => {
                            return Err(KaitaiError::UnknownType { name: name.clone() });
                        },
                    },
                };
                let sub = compile_seq(&spec.seq.attributes, big_endian, &spec.type_types, global, depth - 1)?;
                Body::User(sub)
            },
            _ => {
                return Err(schema_error("this type cannot be read"));
            },
        }
    } else if let Some(c) = &attr.contents {
        let copied = copy_range(c.as_slice(), 0, c.len());
        assert(copied@ =~= c@);
        Body::Contents(copied)
    } else if attr.size.is_some() {
        Body::Sized(required_expr(&attr.size, "size")?)
    } else {
        return Err(schema_error("the attribute has nothing to read"));
    };
    let repeat = match attr.repeat {
        None => RepeatPlan::Once,
        Some(Repeat::Eos) => RepeatPlan::Eos,
        Some(Repeat::Expr) => RepeatPlan::Count(required_expr(&attr.repeat_expr, "repeat-expr is missing")?),
        Some(Repeat::Until) => RepeatPlan::Until(required_expr(&attr.repeat_until, "repeat-until is missing")?),
    };
    let cond = optional_expr(&attr.optional_if)?;
    let id = match &attr.id {
        Some(s) => Some(s.clone()),
        None => None,
    };
    Ok(Step { id, cond, repeat, body, eos_error: attr.eos_error })
}

/// Prepares every attribute of a sequence, in order.
pub fn compile_seq(attrs: &Vec<Attribute>, big_endian: bool, local: &Types, global: &Types, depth: u32) -> (r: Result<Vec<Step>, KaitaiError>)
    ensures
        r matches Ok(steps) ==> steps@.len() == attrs@.len() && forall|i: int| 0 <= i < attrs@.len() ==> step_for(
            #[trigger] attrs@[i],
            big_endian,
            steps@[i],
        ),
        r matches Ok(steps) ==> widths_ok(steps@),
        (exists|i: int| 0 <= i < attrs@.len() && !readable(#[trigger] attrs@[i])) ==> r is Err,
        (forall|i: int| 0 <= i < attrs@.len() ==> simple_attr(#[trigger] attrs@[i])) ==> r is Ok,
        r matches Err(e) ==> e is ExpressionError || e is SchemaError || e is UnknownType,
    decreases depth, 1nat,
{
    let mut steps: Vec<Step> = Vec::new();
    let mut i: usize = 0;
    while i < attrs.len()
        invariant
            i <= attrs@.len(),
            steps@.len() == i,
            forall|j: int| 0 <= j < i ==> step_for(#[trigger] attrs@[j], big_endian, steps@[j]),
            forall|j: int| 0 <= j < i ==> readable(#[trigger] attrs@[j]),
            widths_ok(steps@),
        decreases attrs@.len() - i,
    {
        let step = compile_attribute(&attrs[i], big_endian, local, global, depth)?;
        let ghost before = steps@;
        steps.push(step);
        assert(steps@.drop_last() =~= before);
        i = i + 1;
    }
    Ok(steps)
}

/// How deep user types may nest inside one another.
pub const MAX_TYPE_DEPTH: u32 = 32;

/// A schema together with the bytes it was last run on and the tree that came out.
pub struct KaitaiStruct {
    /// The bytes of the last successful parse.
    pub data: Vec<u8>,
    /// The tree built by the last successful parse.
    pub ast: AST,
    /// The schema.
    pub format_description: KsyStruct,
    /// The top-level sequence, prepared, as of the last successful parse.
    pub plan: Vec<Step>,
}

impl KaitaiStruct {
    /// An interpreter for the schema, with no data and an empty tree.
    pub fn new(format_description: KsyStruct) -> (r: Self)
        ensures
            r.data@.len() == 0,
            r.plan@.len() == 0,
            r.ast.root@ == crate::interpreter::empty_root(),
    {
        proof {
            reveal_strlit("root");
        }
        KaitaiStruct { data: Vec::new(), ast: AST::new(), format_description, plan: Vec::new() }
    }

    /// The bytes of the last successful parse.
    pub fn get_data(&self) -> (r: &[u8])
        ensures
            r@ == self.data@,
    {
        self.data.as_slice()
    }

    /// The schema.
    pub fn get_format_description(&self) -> (r: &KsyStruct)
        ensures
            *r == self.format_description,
    {
        &self.format_description
    }

    /// The attributes of the top-level sequence, prepared, as of the last successful parse.
    pub fn get_plan(&self) -> (r: &Vec<Step>)
        ensures
            *r == self.plan,
    {
        &self.plan
    }

    /// Whether the schema asks for big-endian reads.
    pub open spec fn big_endian_spec(&self) -> bool {
        self.format_description.meta.endian matches Some(e) && e.endian == EndianEnum::Be
    }

    /// Parses `data` by the top-level sequence of the schema into `ast`.
    ///
    /// When the sequence compiles, the prepared steps are kept in `plan` and the outcome
    /// is the interpretation by them; on failure the tree and the data are left as they were.
    pub fn parse_bytes(&mut self, data: Vec<u8>) -> (r: Result<(), KaitaiError>)
        ensures
            final(self).format_description == old(self).format_description,
            (forall|i: int| 0 <= i < old(self).format_description.seq.attributes@.len() ==> simple_attr(
                #[trigger] old(self).format_description.seq.attributes@[i],
            )) ==> plan_for(old(self).format_description.seq.attributes@, old(self).big_endian_spec(), final(self).plan@)
                && (r is Ok <==> run_spec(data@, final(self).plan@) is Ok),
            (forall|i: int| 0 <= i < old(self).format_description.seq.attributes@.len() ==> simple_attr(
                #[trigger] old(self).format_description.seq.attributes@[i],
            )) ==> (r matches Err(e) ==> kind_of(e) is Some && run_spec(data@, final(self).plan@) == Err::<
                (NodeModel, nat),
                FailKind,
            >(kind_of(e).unwrap())),
            r is Ok ==> final(self).data@ == data@,
            r is Ok ==> plan_for(old(self).format_description.seq.attributes@, old(self).big_endian_spec(), final(self).plan@),
            r is Ok ==> (run_spec(data@, final(self).plan@) matches Ok((root, _)) && final(self).ast.root@ == root),
            r is Ok ==> tree_tags_ok(final(self).ast.root@),
            r is Err ==> final(self).ast == old(self).ast && final(self).data == old(self).data,
            r matches Err(e) ==> e is ExpressionError || e is SchemaError || e is UnknownType || kind_of(e) is Some,
    {
        let big_endian = match &self.format_description.meta.endian {
            Some(e) => e.endian == EndianEnum::Be,
            None => false,
        };
        let steps = compile_seq(
            &self.format_description.seq.attributes,
            big_endian,
            &self.format_description.types,
            &self.format_description.types,
            MAX_TYPE_DEPTH,
        )?;
        let result = interpret(&steps, data.as_slice());
        proof {
            tags_correct(data@, steps@);
        }
        self.plan = steps;
        let ast = result?;
        self.ast = ast;
        self.data = data;
        Ok(())
    }
}

} // verus!
