use vstd::prelude::*;
use crate::ast::{node_models, Node, NodeModel, NodeType, AST};
use crate::errors::KaitaiError;
use crate::expression::{eval_expr, eval_spec, Expr};
use crate::kaitai_type::{copy_range, find_byte, strz_spec};
use crate::utils::opt_str_view;

verus! {

/// What one reading of an attribute consumes.
#[derive(Debug)]
pub enum Body {
    /// The rest of the stream.
    SizeEos,
    /// A fixed number of bytes, stored as read; an integer when `integer`, in the byte
    /// order `big_endian` names.
    Fixed { width: usize, big_endian: bool, integer: bool },
    /// A terminated string, bounded by a size when one is given.
    StrZ { terminator: u8, size: Option<Expr> },
    /// A string of the given size.
    Str { size: Expr },
    /// Fixed contents that must come next.
    Contents(Vec<u8>),
    /// Raw bytes of the given size.
    Sized(Expr),
    /// A user type: its own sequence, read from the cursor in a scope of its own.
    User(Vec<Step>),
}

/// How often an attribute is read.
#[derive(Debug)]
pub enum RepeatPlan {
    Once,
    /// Until the end of the stream.
    Eos,
    /// As many times as the expression says.
    Count(Expr),
    /// Until the expression holds of the item just read, which it names `_`.
    Until(Expr),
}

/// An attribute made ready for interpretation: its expressions parsed.
#[derive(Debug)]
pub struct Step {
    pub id: Option<String>,
    pub cond: Option<Expr>,
    pub repeat: RepeatPlan,
    pub body: Body,
    pub eos_error: bool,
}

/// The failures of interpretation, with what they report.
pub ghost enum FailKind {
    /// A read wanted `needed` bytes (at most `usize::MAX`) where `available` were left.
    EndOfStream { needed: nat, available: nat },
    /// Fixed contents `expected` met the bytes `got`.
    ContentsMismatch { expected: Seq<u8>, got: Seq<u8> },
    Expression,
    Integrity,
}

/// `n`, or `usize::MAX` when it is larger.
pub open spec fn clamp_usize(n: nat) -> nat {
    if n <= usize::MAX {
        n
    } else {
        usize::MAX as nat
    }
}

/// The end-of-stream failure of a read of `n` bytes at `cur`.
pub open spec fn short_read(len: nat, cur: nat, n: nat) -> FailKind {
    FailKind::EndOfStream { needed: clamp_usize(n), available: (len - cur) as nat }
}

/// The kind of an interpretation error.
pub open spec fn kind_of(e: KaitaiError) -> Option<FailKind> {
    match e {
        KaitaiError::EndOfStream { needed, available, .. } => Some(
            FailKind::EndOfStream { needed: needed as nat, available: available as nat },
        ),
        KaitaiError::ContentsMismatch { expected, got, .. } => Some(
            FailKind::ContentsMismatch { expected: expected@, got: got@ },
        ),
        KaitaiError::ExpressionError { .. } => Some(FailKind::Expression),
        KaitaiError::IntegrityError { .. } => Some(FailKind::Integrity),
        _ => None,
    }
}

/// How many of `n` wanted bytes at `cur` can be taken; `None` when the stream is too
/// short and that is an error.
pub open spec fn take_len(len: nat, cur: nat, n: nat, eos_error: bool) -> Option<nat> {
    if cur + n <= len {
        Some(n)
    } else if eos_error {
        None
    } else {
        Some((len - cur) as nat)
    }
}

/// A node with an id, bytes and a tag.
pub open spec fn leaf(id: Option<Seq<char>>, bytes: Seq<u8>, tag: NodeType) -> NodeModel {
    NodeModel { id, node_type: Some(tag), data: Some(bytes), children: Seq::empty() }
}

/// A node with an id and children.
pub open spec fn parent(id: Option<Seq<char>>, children: Seq<NodeModel>) -> NodeModel {
    NodeModel { id, node_type: None, data: None, children }
}

/// `root` with `n` appended to its children.
pub open spec fn with_child(root: NodeModel, n: NodeModel) -> NodeModel {
    NodeModel { children: root.children.push(n), ..root }
}

/// The size an expression gives, if it has a non-negative value.
pub open spec fn size_of(root: NodeModel, e: Expr) -> Option<nat> {
    match eval_spec(root, e) {
        Some(v) => if v >= 0 {
            Some(v as nat)
        } else {
            None
        },
        None => None,
    }
}

/// One reading of `body` at `cur`: its bytes, their tag and the new cursor.
pub open spec fn item_spec(root: NodeModel, data: Seq<u8>, cur: nat, body: Body, eos_error: bool) -> Result<
    (Seq<u8>, NodeType, nat),
    FailKind,
> {
    let len = data.len();
    if cur > len {
        Err(FailKind::Integrity)
    } else {
        match body {
            Body::SizeEos => Ok((data.subrange(cur as int, len as int), NodeType::Array, len)),
            Body::Fixed { width, integer, .. } => match take_len(len, cur, width as nat, eos_error) {
                None => Err(short_read(len, cur, width as nat)),
                Some(k) => {
                    let bytes = data.subrange(cur as int, (cur + k) as int);
                    let tag = if integer && k == width {
                        NodeType::Integer
                    } else {
                        NodeType::Array
                    };
                    Ok((bytes, tag, cur + k))
                },
            },
            Body::StrZ { terminator, size: None } => {
                let bytes = strz_spec(data.subrange(cur as int, len as int), None, terminator);
                Ok((bytes, NodeType::String, (cur + bytes.len()) as nat))
            },
            Body::StrZ { terminator, size: Some(e) } => match size_of(root, e) {
                None => Err(FailKind::Expression),
                Some(n) => match take_len(len, cur, n, eos_error) {
                    None => Err(short_read(len, cur, n)),
                    Some(k) => Ok(
                        (
                            strz_spec(data.subrange(cur as int, (cur + k) as int), Some(k), terminator),
                            NodeType::String,
                            cur + k,
                        ),
                    ),
                },
            },
            Body::Str { size: e } => match size_of(root, e) {
                None => Err(FailKind::Expression),
                Some(n) => match take_len(len, cur, n, eos_error) {
                    None => Err(short_read(len, cur, n)),
                    Some(k) => Ok((data.subrange(cur as int, (cur + k) as int), NodeType::String, cur + k)),
                },
            },
            Body::Contents(c) => if cur + c@.len() > len {
                Err(short_read(len, cur, c@.len()))
            } else if data.subrange(cur as int, (cur + c@.len()) as int) == c@ {
                Ok((c@, NodeType::Array, (cur + c@.len()) as nat))
            } else {
                Err(
                    FailKind::ContentsMismatch {
                        expected: c@,
                        got: data.subrange(cur as int, (cur + c@.len()) as int),
                    },
                )
            },
            Body::Sized(e) => match size_of(root, e) {
                None => Err(FailKind::Expression),
                Some(n) => match take_len(len, cur, n, eos_error) {
                    None => Err(short_read(len, cur, n)),
                    Some(k) => Ok((data.subrange(cur as int, (cur + k) as int), NodeType::Array, cur + k)),
                },
            },
            Body::User(_) => Err(FailKind::Integrity),
        }
    }
}

/// `n` readings of `body` from `cur`, as anonymous nodes.
pub open spec fn items_spec(root: NodeModel, data: Seq<u8>, cur: nat, body: Body, eos_error: bool, n: nat) -> Result<
    (Seq<NodeModel>, nat),
    FailKind,
>
    decreases n,
{
    if n == 0 {
        Ok((Seq::empty(), cur))
    } else {
        match items_spec(root, data, cur, body, eos_error, (n - 1) as nat) {
            Err(k) => Err(k),
            Ok((acc, c)) => match item_spec(root, data, c, body, eos_error) {
                Err(k) => Err(k),
                Ok((b, t, c2)) => Ok((acc.push(leaf(None, b, t)), c2)),
            },
        }
    }
}

/// Readings of `body` from `cur` until the end of the stream, after `acc`.
pub open spec fn eos_spec(root: NodeModel, data: Seq<u8>, cur: nat, body: Body, eos_error: bool, acc: Seq<NodeModel>) -> Result<
    (Seq<NodeModel>, nat),
    FailKind,
>
    decreases data.len() - cur,
{
    if cur >= data.len() {
        Ok((acc, cur))
    } else {
        match item_spec(root, data, cur, body, eos_error) {
            Err(k) => Err(k),
            Ok((b, t, c2)) => if c2 <= cur || c2 > data.len() {
                Err(FailKind::Integrity)
            } else {
                eos_spec(root, data, c2, body, eos_error, acc.push(leaf(None, b, t)))
            },
        }
    }
}

/// The tree against which the condition of a repetition is evaluated: `root` with the
/// repetition so far, the item just read named `_`.
pub open spec fn until_scope(root: NodeModel, id: Option<Seq<char>>, acc: Seq<NodeModel>, b: Seq<u8>, t: NodeType) -> NodeModel {
    with_child(root, parent(id, acc.push(leaf(Some(seq!['_']), b, t))))
}

/// Readings of `body` from `cur`, after `acc`, until `cond` holds of the last one.
pub open spec fn until_spec(
    root: NodeModel,
    data: Seq<u8>,
    cur: nat,
    id: Option<Seq<char>>,
    body: Body,
    eos_error: bool,
    cond: Expr,
    acc: Seq<NodeModel>,
) -> Result<(Seq<NodeModel>, nat), FailKind>
    decreases data.len() - cur,
{
    match item_spec(root, data, cur, body, eos_error) {
        Err(k) => Err(k),
        Ok((b, t, c2)) => match eval_spec(until_scope(root, id, acc, b, t), cond) {
            None => Err(FailKind::Expression),
            Some(v) => if v != 0 {
                Ok((acc.push(leaf(None, b, t)), c2))
            } else if c2 <= cur || c2 > data.len() {
                Err(FailKind::Integrity)
            } else {
                until_spec(root, data, c2, id, body, eos_error, cond, acc.push(leaf(None, b, t)))
            },
        },
    }
}

/// One attribute at `cur`: the node it adds, if any, and the new cursor.
pub open spec fn step_spec(root: NodeModel, data: Seq<u8>, cur: nat, step: Step) -> Result<
    (Option<NodeModel>, nat),
    FailKind,
>
    decreases step,
{
    let id = opt_str_view(step.id);
    let present = match step.cond {
        Some(e) => match eval_spec(root, e) {
            None => Err(FailKind::Expression),
            Some(v) => Ok(v != 0),
        },
        None => Ok(true),
    };
    match present {
        Err(k) => Err(k),
        Ok(false) => Ok((None, cur)),
        Ok(true) => match step.repeat {
            RepeatPlan::Once => match step.body {
                Body::User(sub) => match run_from(data, cur, sub@) {
                    Err(k) => Err(k),
                    Ok((r, c2)) => Ok((Some(parent(id, r.children)), c2)),
                },
                _ => match item_spec(root, data, cur, step.body, step.eos_error) {
                    Err(k) => Err(k),
                    Ok((b, t, c2)) => Ok((Some(leaf(id, b, t)), c2)),
                },
            },
            RepeatPlan::Count(e) => match size_of(root, e) {
                None => Err(FailKind::Expression),
                Some(n) => match items_spec(root, data, cur, step.body, step.eos_error, n) {
                    Err(k) => Err(k),
                    Ok((cs, c2)) => Ok((Some(parent(id, cs)), c2)),
                },
            },
            RepeatPlan::Eos => match eos_spec(root, data, cur, step.body, step.eos_error, Seq::empty()) {
                Err(k) => Err(k),
                Ok((cs, c2)) => Ok((Some(parent(id, cs)), c2)),
            },
            RepeatPlan::Until(e) => match until_spec(root, data, cur, id, step.body, step.eos_error, e, Seq::empty()) {
                Err(k) => Err(k),
                Ok((cs, c2)) => Ok((Some(parent(id, cs)), c2)),
            },
        },
    }
}

/// The empty root of a fresh tree.
pub open spec fn empty_root() -> NodeModel {
    NodeModel { id: Some("root"@), node_type: None, data: None, children: Seq::empty() }
}

/// Interpretation of `data` by `steps` from `cur`, in a scope of its own: the root of
/// that scope, and the cursor at the end.
pub open spec fn run_from(data: Seq<u8>, cur: nat, steps: Seq<Step>) -> Result<(NodeModel, nat), FailKind>
    decreases steps,
{
    if steps.len() == 0 {
        Ok((empty_root(), cur))
    } else {
        match run_from(data, cur, steps.drop_last()) {
            Err(k) => Err(k),
            Ok((root, cur)) => match step_spec(root, data, cur, steps.last()) {
                Err(k) => Err(k),
                Ok((None, c2)) => Ok((root, c2)),
                Ok((Some(n), c2)) => Ok((with_child(root, n), c2)),
            },
        }
    }
}

/// Interpretation of `data` by `steps`: the root of the tree, and the cursor at the end.
pub open spec fn run_spec(data: Seq<u8>, steps: Seq<Step>) -> Result<(NodeModel, nat), FailKind> {
    run_from(data, 0, steps)
}

/// The name of the attribute for error reports.
fn attr_name(id: &Option<String>) -> String {
    match id {
        Some(s) => s.clone(),
        None => String::new(),
    }
}

fn end_of_stream(id: &Option<String>, needed: u128, available: usize) -> (r: KaitaiError)
    ensures
        kind_of(r) == Some(FailKind::EndOfStream { needed: clamp_usize(needed as nat), available: available as nat }),
{
    let needed = if needed <= usize::MAX as u128 {
        needed as usize
    } else {
        usize::MAX
    };
    KaitaiError::EndOfStream { attr: attr_name(id), needed, available }
}

fn bad_expression(cause: &str) -> (r: KaitaiError)
    ensures
        kind_of(r) == Some(FailKind::Expression),
{
    KaitaiError::ExpressionError { expr: String::new(), cause: cause.to_string() }
}

fn integrity(reason: &str) -> (r: KaitaiError)
    ensures
        kind_of(r) == Some(FailKind::Integrity),
{
    KaitaiError::IntegrityError { reason: reason.to_string() }
}

/// How many of `n` wanted bytes at `cur` can be taken.
fn take(len: usize, cur: usize, n: u128, eos_error: bool) -> (r: Option<usize>)
    requires
        cur <= len,
    ensures
        r matches Some(k) ==> take_len(len as nat, cur as nat, n as nat, eos_error) == Some(k as nat),
        r is None <==> take_len(len as nat, cur as nat, n as nat, eos_error) is None,
{
    if n <= (len - cur) as u128 {
        Some(n as usize)
    } else if eos_error {
        None
    } else {
        Some(len - cur)
    }
}

/// The size that `e` gives against the tree.
fn eval_size(ast: &AST, e: &Expr) -> (r: Result<u128, KaitaiError>)
    ensures
        r matches Ok(n) ==> size_of(ast.root@, *e) == Some(n as nat),
        r matches Err(err) ==> size_of(ast.root@, *e) is None && kind_of(err) == Some(FailKind::Expression),
{
    match eval_expr(ast, e) {
        Some(v) => if v >= 0 {
            Ok(v as u128)
        } else {
            Err(bad_expression("size or count is negative"))
        },
        None => Err(bad_expression("expression has no integer value")),
    }
}

/// Whether `data[cur..cur + c.len()]` equals `c`.
fn bytes_match_at(data: &[u8], cur: usize, c: &Vec<u8>) -> (r: bool)
    requires
        cur + c@.len() <= data@.len(),
    ensures
        r == (data@.subrange(cur as int, cur + c@.len()) == c@),
{
    let n = data.len();
    let mut i: usize = 0;
    while i < c.len()
        invariant
            i <= c@.len(),
            n == data@.len(),
            cur + c@.len() <= data@.len(),
            forall|j: int| 0 <= j < i ==> data@[cur + j] == c@[j],
        decreases c@.len() - i,
    {
        if data[cur + i] != c[i] {
            assert(data@.subrange(cur as int, cur + c@.len())[i as int] != c@[i as int]);
            return false;
        }
        i = i + 1;
    }
    assert(data@.subrange(cur as int, cur + c@.len()) =~= c@);
    true
}

/// Reads fixed contents `c` at `cur`.
fn read_contents(data: &[u8], cur: usize, c: &Vec<u8>, id: &Option<String>) -> (r: Result<
    (Vec<u8>, NodeType, usize),
    KaitaiError,
>)
    requires
        cur <= data@.len(),
    ensures
        cur + c@.len() > data@.len() ==> (r matches Err(e) && kind_of(e) == Some(
            short_read(data@.len(), cur as nat, c@.len()),
        )),
        cur + c@.len() <= data@.len() && data@.subrange(cur as int, cur + c@.len()) == c@ ==> (r matches Ok(x)
            && x.0@ == c@ && x.1 == NodeType::Array && x.2 == cur + c@.len()),
        cur + c@.len() <= data@.len() && data@.subrange(cur as int, cur + c@.len()) != c@ ==> (r matches Err(e)
            && kind_of(e) == Some(
            FailKind::ContentsMismatch { expected: c@, got: data@.subrange(cur as int, cur + c@.len()) },
        )),
{
    let len = data.len();
    if c.len() > len - cur {
        return Err(end_of_stream(id, c.len() as u128, len - cur));
    }
    if bytes_match_at(data, cur, c) {
        Ok((copy_range(data, cur, cur + c.len()), NodeType::Array, cur + c.len()))
    } else {
        let expected = copy_range(c.as_slice(), 0, c.len());
        assert(expected@ =~= c@);
        Err(
            KaitaiError::ContentsMismatch {
                attr: attr_name(id),
                expected,
                got: copy_range(data, cur, cur + c.len()),
            },
        )
    }
}

/// Reads `body` once at `cur`.
pub fn read_item(ast: &AST, data: &[u8], cur: usize, body: &Body, eos_error: bool, id: &Option<String>) -> (r: Result<
    (Vec<u8>, NodeType, usize),
    KaitaiError,
>)
    ensures
        r matches Ok(x) ==> item_spec(ast.root@, data@, cur as nat, *body, eos_error) == Ok::<
            (Seq<u8>, NodeType, nat),
            FailKind,
        >((x.0@, x.1, x.2 as nat)),
        r matches Err(e) ==> kind_of(e) is Some && item_spec(ast.root@, data@, cur as nat, *body, eos_error)
            == Err::<(Seq<u8>, NodeType, nat), FailKind>(kind_of(e).unwrap()),
{
    let len = data.len();
    if cur > len {
        return Err(integrity("cursor past the end of the stream"));
    }
    match body {
        Body::SizeEos => Ok((copy_range(data, cur, len), NodeType::Array, len)),
        Body::Fixed { width, integer, .. } => match take(len, cur, *width as u128, eos_error) {
            None => Err(end_of_stream(id, *width as u128, len - cur)),
            Some(k) => {
                let bytes = copy_range(data, cur, cur + k);
                let tag = if *integer && k == *width {
                    NodeType::Integer
                } else {
                    NodeType::Array
                };
                Ok((bytes, tag, cur + k))
            },
        },
        Body::StrZ { terminator, size: None } => {
            let ghost rest = data@.subrange(cur as int, len as int);
            match find_byte(data, cur, len, *terminator) {
                Some(k) => {
                    assert(rest.subrange(0, k + 1) =~= data@.subrange(cur as int, cur + k + 1));
                    Ok((copy_range(data, cur, cur + k + 1), NodeType::String, cur + k + 1))
                },
                None => Ok((copy_range(data, cur, len), NodeType::String, len)),
            }
        },
        Body::StrZ { terminator, size: Some(e) } => {
            let n = eval_size(ast, e)?;
            match take(len, cur, n, eos_error) {
                None => Err(end_of_stream(id, n, len - cur)),
                Some(k) => {
                    let ghost region = data@.subrange(cur as int, cur + k);
                    assert(region.subrange(0, k as int) =~= region);
                    match find_byte(data, cur, cur + k, *terminator) {
                        Some(j) => {
                            assert(region.subrange(0, j as int) =~= data@.subrange(cur as int, cur + j));
                            Ok((copy_range(data, cur, cur + j), NodeType::String, cur + k))
                        },
                        None => Ok((copy_range(data, cur, cur + k), NodeType::String, cur + k)),
                    }
                },
            }
        },
        Body::Str { size: e } => {
            let n = eval_size(ast, e)?;
            match take(len, cur, n, eos_error) {
                None => Err(end_of_stream(id, n, len - cur)),
                Some(k) => Ok((copy_range(data, cur, cur + k), NodeType::String, cur + k)),
            }
        },
        Body::Contents(c) => read_contents(data, cur, c, id),
        Body::Sized(e) => {
            let n = eval_size(ast, e)?;
            match take(len, cur, n, eos_error) {
                None => Err(end_of_stream(id, n, len - cur)),
                Some(k) => Ok((copy_range(data, cur, cur + k), NodeType::Array, cur + k)),
            }
        },
        Body::User(_) => Err(integrity("a user type is read once per attribute")),
    }
}

/// A node with an id, bytes and a tag.
fn make_leaf(id: Option<String>, bytes: Vec<u8>, tag: NodeType) -> (r: Node)
    ensures
        r@ == leaf(opt_str_view(id), bytes@, tag),
{
    let mut n = Node::new(id);
    n.set_data(bytes);
    n.set_node_type(tag);
    n
}

/// A node with an id and the given children.
fn make_parent(id: Option<String>, children: Vec<Node>) -> (r: Node)
    ensures
        r@ == parent(opt_str_view(id), node_models(children@)),
        r.children == children,
{
    Node { id, parent: None, children, data: None, node_type: None }
}

fn copy_id(id: &Option<String>) -> (r: Option<String>)
    ensures
        opt_str_view(r) == opt_str_view(*id),
{
    match id {
        Some(s) => Some(s.clone()),
        None => None,
    }
}

proof fn lemma_items_err(root: NodeModel, data: Seq<u8>, cur: nat, body: Body, eos_error: bool, i: nat, n: nat)
    requires
        i <= n,
        items_spec(root, data, cur, body, eos_error, i) is Err,
    ensures
        items_spec(root, data, cur, body, eos_error, n) == items_spec(root, data, cur, body, eos_error, i),
    decreases n,
{
    if n > i {
        lemma_items_err(root, data, cur, body, eos_error, i, (n - 1) as nat);
    }
}

proof fn lemma_node_models_push(s: Seq<Node>, n: Node)
    ensures
        node_models(s.push(n)) == node_models(s).push(n@),
{
    assert(s.push(n).drop_last() =~= s);
}

/// Reads `body` `n` times from `cur`.
fn read_count(ast: &AST, data: &[u8], cur: usize, body: &Body, eos_error: bool, n: u128, id: &Option<String>) -> (r: Result<
    (Vec<Node>, usize),
    KaitaiError,
>)
    ensures
        r matches Ok(x) ==> items_spec(ast.root@, data@, cur as nat, *body, eos_error, n as nat) == Ok::<
            (Seq<NodeModel>, nat),
            FailKind,
        >((node_models(x.0@), x.1 as nat)),
        r matches Err(e) ==> kind_of(e) is Some && items_spec(ast.root@, data@, cur as nat, *body, eos_error, n as nat)
            == Err::<(Seq<NodeModel>, nat), FailKind>(kind_of(e).unwrap()),
{
    let mut cs: Vec<Node> = Vec::new();
    let mut c: usize = cur;
    let mut i: u128 = 0;
    assert(node_models(cs@) =~= Seq::<NodeModel>::empty());
    while i < n
        invariant
            i <= n,
            items_spec(ast.root@, data@, cur as nat, *body, eos_error, i as nat) == Ok::<
                (Seq<NodeModel>, nat),
                FailKind,
            >((node_models(cs@), c as nat)),
        decreases n - i,
    {
        match read_item(ast, data, c, body, eos_error, id) {
            Ok((b, t, c2)) => {
                let ghost before = cs@;
                cs.push(make_leaf(None, b, t));
                proof {
                    lemma_node_models_push(before, cs@.last());
                    assert(cs@ == before.push(cs@.last()));
                }
                c = c2;
            },
            Err(e) => {
                proof {
                    lemma_items_err(ast.root@, data@, cur as nat, *body, eos_error, (i + 1) as nat, n as nat);
                }
                return Err(e);
            },
        }
        i = i + 1;
    }
    Ok((cs, c))
}

/// Reads `body` from `cur` until the end of the stream.
fn read_eos(ast: &AST, data: &[u8], cur: usize, body: &Body, eos_error: bool, id: &Option<String>) -> (r: Result<
    (Vec<Node>, usize),
    KaitaiError,
>)
    ensures
        r matches Ok(x) ==> eos_spec(ast.root@, data@, cur as nat, *body, eos_error, Seq::empty()) == Ok::<
            (Seq<NodeModel>, nat),
            FailKind,
        >((node_models(x.0@), x.1 as nat)),
        r matches Err(e) ==> kind_of(e) is Some && eos_spec(ast.root@, data@, cur as nat, *body, eos_error, Seq::empty())
            == Err::<(Seq<NodeModel>, nat), FailKind>(kind_of(e).unwrap()),
{
    let mut cs: Vec<Node> = Vec::new();
    let mut c: usize = cur;
    let len = data.len();
    assert(node_models(cs@) =~= Seq::<NodeModel>::empty());
    while c < len
        invariant
            len == data@.len(),
            eos_spec(ast.root@, data@, cur as nat, *body, eos_error, Seq::empty()) == eos_spec(
                ast.root@,
                data@,
                c as nat,
                *body,
                eos_error,
                node_models(cs@),
            ),
        decreases len - c,
    {
        match read_item(ast, data, c, body, eos_error, id) {
            Ok((b, t, c2)) => {
                if c2 <= c || c2 > len {
                    return Err(integrity("repetition made no progress"));
                }
                let ghost before = cs@;
                cs.push(make_leaf(None, b, t));
                proof {
                    lemma_node_models_push(before, cs@.last());
                    assert(cs@ == before.push(cs@.last()));
                }
                c = c2;
            },
            Err(e) => {
                return Err(e);
            },
        }
    }
    Ok((cs, c))
}

/// Reads `body` from `cur` until `cond` holds of the item just read.
fn read_until(
    ast: &mut AST,
    data: &[u8],
    cur: usize,
    body: &Body,
    eos_error: bool,
    cond: &Expr,
    id: &Option<String>,
) -> (r: Result<(Vec<Node>, usize), KaitaiError>)
    ensures
        final(ast).root@ == old(ast).root@,
        r matches Ok(x) ==> until_spec(old(ast).root@, data@, cur as nat, opt_str_view(*id), *body, eos_error, *cond, Seq::empty())
            == Ok::<(Seq<NodeModel>, nat), FailKind>((node_models(x.0@), x.1 as nat)),
        r matches Err(e) ==> kind_of(e) is Some && until_spec(old(ast).root@, data@, cur as nat, opt_str_view(*id), *body, eos_error, *cond, Seq::empty())
            == Err::<(Seq<NodeModel>, nat), FailKind>(kind_of(e).unwrap()),
{
    let ghost root = ast.root@;
    let ghost idv = opt_str_view(*id);
    let mut cs: Vec<Node> = Vec::new();
    let mut c: usize = cur;
    let len = data.len();
    assert(node_models(cs@) =~= Seq::<NodeModel>::empty());
    proof {
        reveal_strlit("_");
    }
    loop
        invariant
            len == data@.len(),
            ast.root@ == root,
            root == old(ast).root@,
            idv == opt_str_view(*id),
            until_spec(root, data@, cur as nat, idv, *body, eos_error, *cond, Seq::empty()) == until_spec(
                root,
                data@,
                c as nat,
                idv,
                *body,
                eos_error,
                *cond,
                node_models(cs@),
            ),
        decreases len - c,
    {
        proof {
            reveal_strlit("_");
        }
        let (b, t, c2) = match read_item(&*ast, data, c, body, eos_error, id) {
            Ok(x) => x,
            Err(e) => {
                return Err(e);
            },
        };
        let ghost bv = b@;
        let ghost acc = node_models(cs@);
        let marked = make_leaf(Some(String::from_str("_")), b, t);
        let mut scope_children = cs;
        let ghost sc_before = scope_children@;
        scope_children.push(marked);
        let ghost sc_after = scope_children@;
        proof {
            lemma_node_models_push(sc_before, scope_children@.last());
            assert("_"@ =~= seq!['_']);
            assert(sc_after.drop_last() =~= sc_before);
        }
        let holder = make_parent(copy_id(id), scope_children);
        let ghost root_children = ast.root.children@;
        let ghost holder_model = holder@;
        assert(holder_model == parent(idv, acc.push(leaf(Some(seq!['_']), bv, t))));
        ast.root.children.push(holder);
        proof {
            lemma_node_models_push(root_children, ast.root.children@.last());
            assert(ast.root.children@.last()@ == holder_model);
            assert(node_models(ast.root.children@) == root.children.push(holder_model));
            assert(ast.root@ == until_scope(root, idv, acc, bv, t));
        }
        let v = eval_expr(&*ast, cond);
        let popped = ast.root.children.pop();
        proof {
            assert(ast.root.children@ =~= root_children);
            assert(ast.root@ == root);
        }
        let mut holder = match popped {
            Some(h) => h,
            None => {
                return Err(integrity("scope lost"));
            },
        };
        let item = match holder.children.pop() {
            Some(m) => m,
            None => {
                return Err(integrity("scope lost"));
            },
        };
        proof {
            assert(holder.children@ =~= sc_before);
        }
        cs = holder.children;
        proof {
            assert(node_models(cs@) == acc);
        }
        let plain = make_leaf(None, match item.data {
            Some(d) => d,
            None => Vec::new(),
        }, t);
        assert(plain@ == leaf(None, bv, t));
        let ghost before = cs@;
        cs.push(plain);
        proof {
            lemma_node_models_push(before, cs@.last());
        }
        match v {
            None => {
                return Err(bad_expression("repeat-until has no integer value"));
            },
            Some(x) => {
                if x != 0 {
                    return Ok((cs, c2));
                }
                if c2 <= c || c2 > len {
                    return Err(integrity("repetition made no progress"));
                }
                c = c2;
            },
        }
    }
}

/// `root` after a step that added `n`, if it added a node.
pub open spec fn apply_node(root: NodeModel, n: Option<NodeModel>) -> NodeModel {
    match n {
        Some(m) => with_child(root, m),
        None => root,
    }
}

/// Interprets one attribute at `cur`, adding its node to the root.
pub fn run_step(ast: &mut AST, data: &[u8], cur: usize, step: &Step) -> (r: Result<usize, KaitaiError>)
    ensures
        r matches Ok(c) ==> step_spec(old(ast).root@, data@, cur as nat, *step) matches Ok((n, c2)) && c2
            == c as nat && final(ast).root@ == apply_node(old(ast).root@, n),
        r matches Err(e) ==> kind_of(e) is Some && step_spec(old(ast).root@, data@, cur as nat, *step)
            == Err::<(Option<NodeModel>, nat), FailKind>(kind_of(e).unwrap()),
    decreases step,
{
    let ghost root = ast.root@;
    match &step.cond {
        Some(e) => match eval_expr(&*ast, e) {
            None => {
                return Err(bad_expression("if has no integer value"));
            },
            Some(v) => {
                if v == 0 {
                    return Ok(cur);
                }
            },
        },
        None => {},
    }
    let node = match &step.repeat {
        RepeatPlan::Once => match &step.body {
            Body::User(sub) => {
                assert(decreases_to!(*step => step.body));
                assert(decreases_to!(step.body => *sub));
                let (scope, c2) = interpret_from(sub, data, cur)?;
                (make_parent(copy_id(&step.id), scope.root.children), c2)
            },
            _ => {
                let (b, t, c2) = read_item(&*ast, data, cur, &step.body, step.eos_error, &step.id)?;
                (make_leaf(copy_id(&step.id), b, t), c2)
            },
        },
        RepeatPlan::Count(e) => {
            let n = eval_size(&*ast, e)?;
            let (cs, c2) = read_count(&*ast, data, cur, &step.body, step.eos_error, n, &step.id)?;
            (make_parent(copy_id(&step.id), cs), c2)
        },
        RepeatPlan::Eos => {
            let (cs, c2) = read_eos(&*ast, data, cur, &step.body, step.eos_error, &step.id)?;
            (make_parent(copy_id(&step.id), cs), c2)
        },
        RepeatPlan::Until(e) => {
            let (cs, c2) = read_until(ast, data, cur, &step.body, step.eos_error, e, &step.id)?;
            (make_parent(copy_id(&step.id), cs), c2)
        },
    };
    let (n, c2) = node;
    let ghost children = ast.root.children@;
    ast.root.children.push(n);
    proof {
        lemma_node_models_push(children, ast.root.children@.last());
    }
    Ok(c2)
}

proof fn lemma_run_err(data: Seq<u8>, cur: nat, steps: Seq<Step>, i: int)
    requires
        0 <= i <= steps.len(),
        run_from(data, cur, steps.subrange(0, i)) is Err,
    ensures
        run_from(data, cur, steps) == run_from(data, cur, steps.subrange(0, i)),
    decreases steps.len() - i,
{
    if i < steps.len() {
        assert(steps.subrange(0, i + 1).drop_last() =~= steps.subrange(0, i));
        lemma_run_err(data, cur, steps, i + 1);
    } else {
        assert(steps.subrange(0, i) =~= steps);
    }
}

/// Interprets `data` by the given steps from `cur`, in a scope of its own.
pub fn interpret_from(steps: &Vec<Step>, data: &[u8], start: usize) -> (r: Result<(AST, usize), KaitaiError>)
    ensures
        r is Ok <==> run_from(data@, start as nat, steps@) is Ok,
        r matches Ok((ast, c)) ==> run_from(data@, start as nat, steps@) == Ok::<(NodeModel, nat), FailKind>(
            (ast.root@, c as nat),
        ),
        r matches Err(e) ==> kind_of(e) is Some && run_from(data@, start as nat, steps@) == Err::<
            (NodeModel, nat),
            FailKind,
        >(kind_of(e).unwrap()),
    decreases steps,
{
    let mut ast = AST::new();
    proof {
        reveal_strlit("root");
    }
    assert(ast.root@ == empty_root());
    let mut cur: usize = start;
    let mut i: usize = 0;
    assert(steps@.subrange(0, 0) =~= Seq::<Step>::empty());
    while i < steps.len()
        invariant
            i <= steps@.len(),
            run_from(data@, start as nat, steps@.subrange(0, i as int)) == Ok::<(NodeModel, nat), FailKind>(
                (ast.root@, cur as nat),
            ),
        decreases steps@.len() - i,
    {
        let ghost prefix = steps@.subrange(0, i as int + 1);
        assert(prefix.drop_last() =~= steps@.subrange(0, i as int));
        assert(prefix.last() == steps@[i as int]);
        assert(decreases_to!(*steps => steps@[i as int]));
        match run_step(&mut ast, data, cur, &steps[i]) {
            Ok(c) => {
                cur = c;
            },
            Err(e) => {
                proof {
                    lemma_run_err(data@, start as nat, steps@, i as int + 1);
                }
                return Err(e);
            },
        }
        i = i + 1;
    }
    assert(steps@.subrange(0, steps@.len() as int) =~= steps@);
    Ok((ast, cur))
}

/// Interprets `data` by the given steps, in order, into a tree.
pub fn interpret(steps: &Vec<Step>, data: &[u8]) -> (r: Result<AST, KaitaiError>)
    ensures
        r is Ok <==> run_spec(data@, steps@) is Ok,
        r matches Ok(ast) ==> (run_spec(data@, steps@) matches Ok((root, _)) && ast.root@ == root),
        r matches Err(e) ==> kind_of(e) is Some && run_spec(data@, steps@) == Err::<(NodeModel, nat), FailKind>(
            kind_of(e).unwrap(),
        ),
{
    match interpret_from(steps, data, 0) {
        Ok((ast, _)) => Ok(ast),
        Err(e) => Err(e),
    }
}

} // verus!
