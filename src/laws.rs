use vstd::prelude::*;
use crate::ast::{preorder, preorder_list, NodeModel, NodeType};
use crate::expression::{eval_spec, is_int_width, Expr};
use crate::interpreter::{
    eos_spec, item_spec, items_spec, leaf, parent, run_from, run_spec, size_of, step_spec, until_spec,
    with_child, Body, RepeatPlan, Step,
};
use crate::kaitai_type::byte_index;

verus! {

proof fn lemma_byte_index_bounds(s: Seq<u8>, b: u8)
    ensures
        -1 <= byte_index(s, b) < s.len(),
    decreases s.len(),
{
    if s.len() > 0 {
        lemma_byte_index_bounds(s.drop_first(), b);
    }
}

/// A reading never moves the cursor back, nor past the end of the data.
pub proof fn item_within_data(root: NodeModel, data: Seq<u8>, cur: nat, body: Body, eos_error: bool)
    ensures
        item_spec(root, data, cur, body, eos_error) matches Ok((b, t, c2)) ==> cur <= c2 <= data.len(),
{
    if cur <= data.len() {
        match body {
            Body::StrZ { terminator, size: None } => {
                lemma_byte_index_bounds(data.subrange(cur as int, data.len() as int), terminator);
            },
            Body::StrZ { terminator, size: Some(e) } => {},
            _ => {},
        }
    }
}

proof fn lemma_items_within(root: NodeModel, data: Seq<u8>, cur: nat, body: Body, eos_error: bool, n: nat)
    requires
        cur <= data.len(),
    ensures
        items_spec(root, data, cur, body, eos_error, n) matches Ok((cs, c2)) ==> cur <= c2 <= data.len()
            && cs.len() == n,
    decreases n,
{
    if n > 0 {
        lemma_items_within(root, data, cur, body, eos_error, (n - 1) as nat);
        match items_spec(root, data, cur, body, eos_error, (n - 1) as nat) {
            Ok((acc, c)) => {
                item_within_data(root, data, c, body, eos_error);
            },
            Err(_) => {},
        }
    }
}

proof fn lemma_eos_within(root: NodeModel, data: Seq<u8>, cur: nat, body: Body, eos_error: bool, acc: Seq<NodeModel>)
    requires
        cur <= data.len(),
    ensures
        eos_spec(root, data, cur, body, eos_error, acc) matches Ok((cs, c2)) ==> cur <= c2 <= data.len(),
    decreases data.len() - cur,
{
    if cur < data.len() {
        match item_spec(root, data, cur, body, eos_error) {
            Ok((b, t, c2)) => {
                if c2 > cur && c2 <= data.len() {
                    lemma_eos_within(root, data, c2, body, eos_error, acc.push(leaf(None, b, t)));
                }
            },
            Err(_) => {},
        }
    }
}

proof fn lemma_until_within(
    root: NodeModel,
    data: Seq<u8>,
    cur: nat,
    id: Option<Seq<char>>,
    body: Body,
    eos_error: bool,
    cond: Expr,
    acc: Seq<NodeModel>,
)
    requires
        cur <= data.len(),
    ensures
        until_spec(root, data, cur, id, body, eos_error, cond, acc) matches Ok((cs, c2)) ==> cur <= c2
            <= data.len(),
    decreases data.len() - cur,
{
    item_within_data(root, data, cur, body, eos_error);
    match item_spec(root, data, cur, body, eos_error) {
        Ok((b, t, c2)) => {
            if c2 > cur && c2 <= data.len() {
                lemma_until_within(root, data, c2, id, body, eos_error, cond, acc.push(leaf(None, b, t)));
            }
        },
        Err(_) => {},
    }
}

/// An attribute never moves the cursor back, nor past the end of the data.
pub proof fn step_within_data(root: NodeModel, data: Seq<u8>, cur: nat, step: Step)
    requires
        cur <= data.len(),
    ensures
        step_spec(root, data, cur, step) matches Ok((n, c2)) ==> cur <= c2 <= data.len(),
    decreases step,
{
    item_within_data(root, data, cur, step.body, step.eos_error);
    match step.repeat {
        RepeatPlan::Count(e) => match size_of(root, e) {
            Some(n) => lemma_items_within(root, data, cur, step.body, step.eos_error, n),
            None => {},
        },
        RepeatPlan::Eos => lemma_eos_within(root, data, cur, step.body, step.eos_error, Seq::empty()),
        RepeatPlan::Until(e) => lemma_until_within(
            root,
            data,
            cur,
            crate::utils::opt_str_view(step.id),
            step.body,
            step.eos_error,
            e,
            Seq::empty(),
        ),
        RepeatPlan::Once => match step.body {
            Body::User(sub) => {
                assert(decreases_to!(step => step.body));
                run_from_within(data, cur, sub@);
            },
            _ => {},
        },
    }
}

/// A sequence read from `cur` never moves the cursor back, nor past the end of the data.
pub proof fn run_from_within(data: Seq<u8>, cur: nat, steps: Seq<Step>)
    requires
        cur <= data.len(),
    ensures
        run_from(data, cur, steps) matches Ok((root, c)) ==> cur <= c <= data.len(),
    decreases steps,
{
    if steps.len() > 0 {
        run_from_within(data, cur, steps.drop_last());
        match run_from(data, cur, steps.drop_last()) {
            Ok((root, c)) => {
                step_within_data(root, data, c, steps.last());
            },
            Err(_) => {},
        }
    }
}

/// No over-read: after every attribute of a successful interpretation, the cursor is
/// within the data.
pub proof fn no_over_read(data: Seq<u8>, steps: Seq<Step>, k: int)
    requires
        0 <= k <= steps.len(),
    ensures
        run_spec(data, steps.subrange(0, k)) matches Ok((root, cur)) ==> cur <= data.len(),
{
    run_from_within(data, 0, steps.subrange(0, k));
}

/// Contents match: fixed contents are read exactly when the next bytes equal them, and
/// the bytes stored are those contents.
pub proof fn contents_match(root: NodeModel, data: Seq<u8>, cur: nat, c: Vec<u8>, eos_error: bool)
    requires
        cur <= data.len(),
    ensures
        item_spec(root, data, cur, Body::Contents(c), eos_error) is Ok <==> (cur + c@.len() <= data.len()
            && data.subrange(cur as int, (cur + c@.len()) as int) == c@),
        item_spec(root, data, cur, Body::Contents(c), eos_error) matches Ok((b, t, c2)) ==> b == c@ && c2
            == cur + c@.len(),
{
}

/// Repetition count: an attribute repeated by an expression has exactly as many
/// children as the expression's value.
pub proof fn repetition_count(root: NodeModel, data: Seq<u8>, cur: nat, step: Step, e: Expr)
    requires
        cur <= data.len(),
        step.repeat == RepeatPlan::Count(e),
    ensures
        step_spec(root, data, cur, step) matches Ok((Some(p), c2)) ==> size_of(root, e) == Some(
            p.children.len(),
        ) && eval_spec(root, e) == Some(p.children.len() as int),
{
    match size_of(root, e) {
        Some(n) => lemma_items_within(root, data, cur, step.body, step.eos_error, n),
        None => {},
    }
}

/// Whether a node is tagged `Integer` only when it holds one, two, four or eight bytes.
pub open spec fn tag_ok(m: NodeModel) -> bool {
    m.node_type == Some(NodeType::Integer) ==> (m.data matches Some(d) && is_int_width(d.len() as int))
}

/// Whether every node of the tree under `m` is tagged correctly.
pub open spec fn tree_tags_ok(m: NodeModel) -> bool {
    forall|i: int| 0 <= i < preorder(m).len() ==> tag_ok(#[trigger] preorder(m)[i])
}

/// Whether every integer read of the step, and of the user types it reads, has an
/// integer width.
pub open spec fn step_widths_ok(step: Step) -> bool
    decreases step,
{
    match step.body {
        Body::Fixed { width, integer, .. } => integer ==> is_int_width(width as int),
        Body::User(sub) => widths_ok(sub@),
        _ => true,
    }
}

/// Whether every integer read of the steps has an integer width.
pub open spec fn widths_ok(steps: Seq<Step>) -> bool
    decreases steps,
{
    if steps.len() == 0 {
        true
    } else {
        widths_ok(steps.drop_last()) && step_widths_ok(steps.last())
    }
}

proof fn lemma_item_tag(root: NodeModel, data: Seq<u8>, cur: nat, body: Body, eos_error: bool, id: Option<Seq<char>>)
    requires
        body matches Body::Fixed { width, integer, .. } ==> (integer ==> is_int_width(width as int)),
    ensures
        item_spec(root, data, cur, body, eos_error) matches Ok((b, t, c2)) ==> tag_ok(leaf(id, b, t)),
{
}

proof fn lemma_preorder_leaf(m: NodeModel)
    requires
        m.children.len() == 0,
    ensures
        preorder(m) == seq![m],
{
    assert(preorder_list(m.children) =~= Seq::<NodeModel>::empty());
    assert(seq![m] + Seq::<NodeModel>::empty() =~= seq![m]);
}

proof fn lemma_leaves_tags(cs: Seq<NodeModel>)
    requires
        forall|i: int| 0 <= i < cs.len() ==> (#[trigger] cs[i]).children.len() == 0 && tag_ok(cs[i]),
    ensures
        forall|i: int| 0 <= i < preorder_list(cs).len() ==> tag_ok(#[trigger] preorder_list(cs)[i]),
        preorder_list(cs) == cs,
    decreases cs.len(),
{
    if cs.len() > 0 {
        lemma_leaves_tags(cs.drop_last());
        lemma_preorder_leaf(cs.last());
        assert(cs.drop_last().push(cs.last()) =~= cs);
        assert(cs.drop_last() + seq![cs.last()] =~= cs);
    } else {
        assert(preorder_list(cs) =~= cs);
    }
}

proof fn lemma_items_leaves(root: NodeModel, data: Seq<u8>, cur: nat, body: Body, eos_error: bool, n: nat)
    requires
        body matches Body::Fixed { width, integer, .. } ==> (integer ==> is_int_width(width as int)),
    ensures
        items_spec(root, data, cur, body, eos_error, n) matches Ok((cs, c2)) ==> forall|i: int|
            0 <= i < cs.len() ==> (#[trigger] cs[i]).children.len() == 0 && tag_ok(cs[i]),
    decreases n,
{
    if n > 0 {
        lemma_items_leaves(root, data, cur, body, eos_error, (n - 1) as nat);
        match items_spec(root, data, cur, body, eos_error, (n - 1) as nat) {
            Ok((acc, c)) => lemma_item_tag(root, data, c, body, eos_error, None),
            Err(_) => {},
        }
    }
}

proof fn lemma_eos_leaves(root: NodeModel, data: Seq<u8>, cur: nat, body: Body, eos_error: bool, acc: Seq<NodeModel>)
    requires
        body matches Body::Fixed { width, integer, .. } ==> (integer ==> is_int_width(width as int)),
        forall|i: int| 0 <= i < acc.len() ==> (#[trigger] acc[i]).children.len() == 0 && tag_ok(acc[i]),
    ensures
        eos_spec(root, data, cur, body, eos_error, acc) matches Ok((cs, c2)) ==> forall|i: int|
            0 <= i < cs.len() ==> (#[trigger] cs[i]).children.len() == 0 && tag_ok(cs[i]),
    decreases data.len() - cur,
{
    if cur < data.len() {
        match item_spec(root, data, cur, body, eos_error) {
            Ok((b, t, c2)) => {
                if c2 > cur && c2 <= data.len() {
                    lemma_item_tag(root, data, cur, body, eos_error, None);
                    lemma_eos_leaves(root, data, c2, body, eos_error, acc.push(leaf(None, b, t)));
                }
            },
            Err(_) => {},
        }
    }
}

proof fn lemma_until_leaves(
    root: NodeModel,
    data: Seq<u8>,
    cur: nat,
    id: Option<Seq<char>>,
    body: Body,
    eos_error: bool,
    cond: Expr,
    acc: Seq<NodeModel>,
)
    requires
        body matches Body::Fixed { width, integer, .. } ==> (integer ==> is_int_width(width as int)),
        forall|i: int| 0 <= i < acc.len() ==> (#[trigger] acc[i]).children.len() == 0 && tag_ok(acc[i]),
    ensures
        until_spec(root, data, cur, id, body, eos_error, cond, acc) matches Ok((cs, c2)) ==> forall|i: int|
            0 <= i < cs.len() ==> (#[trigger] cs[i]).children.len() == 0 && tag_ok(cs[i]),
    decreases data.len() - cur,
{
    lemma_item_tag(root, data, cur, body, eos_error, None);
    match item_spec(root, data, cur, body, eos_error) {
        Ok((b, t, c2)) => {
            if c2 > cur && c2 <= data.len() {
                lemma_until_leaves(root, data, c2, id, body, eos_error, cond, acc.push(leaf(None, b, t)));
            }
        },
        Err(_) => {},
    }
}

proof fn lemma_parent_tags(id: Option<Seq<char>>, cs: Seq<NodeModel>)
    requires
        forall|i: int| 0 <= i < cs.len() ==> (#[trigger] cs[i]).children.len() == 0 && tag_ok(cs[i]),
    ensures
        tree_tags_ok(parent(id, cs)),
{
    lemma_leaves_tags(cs);
    let p = parent(id, cs);
    assert forall|i: int| 0 <= i < preorder(p).len() implies tag_ok(#[trigger] preorder(p)[i]) by {
        if i > 0 {
            assert(preorder(p)[i] == preorder_list(cs)[i - 1]);
        }
    }
}

proof fn lemma_with_child_tags(root: NodeModel, n: NodeModel)
    requires
        tree_tags_ok(root),
        tree_tags_ok(n),
    ensures
        tree_tags_ok(with_child(root, n)),
{
    let w = with_child(root, n);
    assert(w.children.drop_last() =~= root.children);
    assert(preorder_list(w.children) == preorder_list(root.children) + preorder(n));
    assert(preorder(w) =~= seq![w] + (preorder_list(root.children) + preorder(n)));
    assert(tag_ok(preorder(root)[0]));
    assert forall|i: int| 0 <= i < preorder(w).len() implies tag_ok(#[trigger] preorder(w)[i]) by {
        if i == 0 {
        } else if i < preorder(root).len() {
            assert(preorder(w)[i] == preorder(root)[i]);
        } else {
            assert(preorder(w)[i] == preorder(n)[i - preorder(root).len()]);
        }
    }
}

proof fn lemma_scope_tags(id: Option<Seq<char>>, r: NodeModel)
    requires
        tree_tags_ok(r),
    ensures
        tree_tags_ok(parent(id, r.children)),
{
    let p = parent(id, r.children);
    assert forall|i: int| 0 <= i < preorder(p).len() implies tag_ok(#[trigger] preorder(p)[i]) by {
        if i > 0 {
            assert(preorder(p)[i] == preorder_list(r.children)[i - 1]);
            assert(preorder(r)[i] == preorder_list(r.children)[i - 1]);
        }
    }
}

/// The node an attribute adds is tagged correctly throughout.
pub proof fn step_tags_correct(root: NodeModel, data: Seq<u8>, cur: nat, step: Step)
    requires
        step_widths_ok(step),
    ensures
        step_spec(root, data, cur, step) matches Ok((Some(n), c2)) ==> tree_tags_ok(n),
    decreases step,
{
    let id = crate::utils::opt_str_view(step.id);
    if !(step.body is User) {
        lemma_item_tag(root, data, cur, step.body, step.eos_error, id);
    }
    match step.repeat {
        RepeatPlan::Once => {
            match step.body {
                Body::User(sub) => {
                    assert(decreases_to!(step => step.body));
                    run_from_tags(data, cur, sub@);
                    match run_from(data, cur, sub@) {
                        Ok((r, c3)) => lemma_scope_tags(id, r),
                        Err(_) => {},
                    }
                },
                _ => {
                    match item_spec(root, data, cur, step.body, step.eos_error) {
                        Ok((b, t, c3)) => lemma_preorder_leaf(leaf(id, b, t)),
                        Err(_) => {},
                    }
                },
            }
        },
        RepeatPlan::Count(e) => {
            match size_of(root, e) {
                Some(k) => {
                    lemma_items_leaves(root, data, cur, step.body, step.eos_error, k);
                    match items_spec(root, data, cur, step.body, step.eos_error, k) {
                        Ok((cs, c3)) => lemma_parent_tags(id, cs),
                        Err(_) => {},
                    }
                },
                None => {},
            }
        },
        RepeatPlan::Eos => {
            lemma_eos_leaves(root, data, cur, step.body, step.eos_error, Seq::empty());
            match eos_spec(root, data, cur, step.body, step.eos_error, Seq::empty()) {
                Ok((cs, c3)) => lemma_parent_tags(id, cs),
                Err(_) => {},
            }
        },
        RepeatPlan::Until(e) => {
            lemma_until_leaves(root, data, cur, id, step.body, step.eos_error, e, Seq::empty());
            match until_spec(root, data, cur, id, step.body, step.eos_error, e, Seq::empty()) {
                Ok((cs, c3)) => lemma_parent_tags(id, cs),
                Err(_) => {},
            }
        },
    }
}

/// A sequence read in a scope of its own builds a correctly tagged tree.
pub proof fn run_from_tags(data: Seq<u8>, cur: nat, steps: Seq<Step>)
    requires
        widths_ok(steps),
    ensures
        run_from(data, cur, steps) matches Ok((root, c)) ==> tree_tags_ok(root),
    decreases steps,
{
    if steps.len() == 0 {
        lemma_preorder_leaf(crate::interpreter::empty_root());
    } else {
        run_from_tags(data, cur, steps.drop_last());
        match run_from(data, cur, steps.drop_last()) {
            Ok((root, c)) => {
                step_tags_correct(root, data, c, steps.last());
                match step_spec(root, data, c, steps.last()) {
                    Ok((Some(n), c2)) => lemma_with_child_tags(root, n),
                    _ => {},
                }
            },
            Err(_) => {},
        }
    }
}

/// Tag correctness: after a successful interpretation by steps whose integer reads have
/// integer widths, every node tagged `Integer` holds one, two, four or eight bytes.
pub proof fn tags_correct(data: Seq<u8>, steps: Seq<Step>)
    requires
        widths_ok(steps),
    ensures
        run_spec(data, steps) matches Ok((root, cur)) ==> tree_tags_ok(root),
{
    run_from_tags(data, 0, steps);
}

/// Deterministic parse: interpretation is a function of the steps and the data, so two
/// runs that both succeed build equal trees.
pub proof fn deterministic_parse(data: Seq<u8>, steps: Seq<Step>, first: NodeModel, second: NodeModel)
    requires
        run_spec(data, steps) matches Ok((root, _)) && first == root,
        run_spec(data, steps) matches Ok((root, _)) && second == root,
    ensures
        first == second,
{
}

} // verus!
