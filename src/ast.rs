use vstd::prelude::*;
use crate::utils::opt_str_view;
use crate::chars::{chars_of, str_equals_chars};

verus! {

/// The semantic tag of a node's bytes.
#[derive(Debug, Clone, Copy, PartialEq, Eq, Structural)]
pub enum NodeType {
    String,
    Integer,
    Array,
}

/// A node of the tree that interpretation builds: an optional id, optional bytes
/// with their tag, and the children in parse order.
#[derive(Debug, PartialEq)]
pub struct Node {
    /// The id of this node (the attribute it was parsed from), if any.
    pub id: Option<String>,
    /// A copy of the enclosing node, when one was recorded.
    pub parent: Option<Box<Node>>,
    /// The children, in parse order.
    pub children: Vec<Node>,
    /// The bytes this node stands for, if any.
    pub data: Option<Vec<u8>>,
    /// How the bytes are to be read.
    pub node_type: Option<NodeType>,
}

/// The mathematical content of a node: everything but the recorded parent.
pub ghost struct NodeModel {
    pub id: Option<Seq<char>>,
    pub node_type: Option<NodeType>,
    pub data: Option<Seq<u8>>,
    pub children: Seq<NodeModel>,
}

/// The view of optional bytes.
pub open spec fn opt_bytes_view(d: Option<Vec<u8>>) -> Option<Seq<u8>> {
    match d {
        Some(v) => Some(v@),
        None => None,
    }
}

/// The model of a node.
pub open spec fn node_model(n: Node) -> NodeModel
    decreases n,
{
    NodeModel {
        id: opt_str_view(n.id),
        node_type: n.node_type,
        data: opt_bytes_view(n.data),
        children: node_models(n.children@),
    }
}

/// The models of a sequence of nodes.
pub open spec fn node_models(s: Seq<Node>) -> Seq<NodeModel>
    decreases s,
{
    if s.len() == 0 {
        Seq::empty()
    } else {
        node_models(s.drop_last()).push(node_model(s.last()))
    }
}

impl View for Node {
    type V = NodeModel;

    open spec fn view(&self) -> NodeModel {
        node_model(*self)
    }
}

/// A node, then the nodes below it, depth first, children in order.
pub open spec fn preorder(m: NodeModel) -> Seq<NodeModel>
    decreases m,
{
    seq![m] + preorder_list(m.children)
}

/// The depth-first sequences of the given nodes, one after the other.
pub open spec fn preorder_list(s: Seq<NodeModel>) -> Seq<NodeModel>
    decreases s,
{
    if s.len() == 0 {
        Seq::empty()
    } else {
        preorder_list(s.drop_last()) + preorder(s.last())
    }
}

/// The first node of `s` whose id is `id`.
pub open spec fn first_with_id(s: Seq<NodeModel>, id: Seq<char>) -> Option<NodeModel>
    decreases s.len(),
{
    if s.len() == 0 {
        None
    } else if s[0].id == Some(id) {
        Some(s[0])
    } else {
        first_with_id(s.drop_first(), id)
    }
}

/// The views of a sequence of byte vectors.
pub open spec fn bytes_views(s: Seq<Vec<u8>>) -> Seq<Seq<u8>> {
    s.map_values(|v: Vec<u8>| v@)
}

/// The bytes of the nodes of `s` that carry bytes, in order.
pub open spec fn collect_data(s: Seq<NodeModel>) -> Seq<Seq<u8>>
    decreases s.len(),
{
    if s.len() == 0 {
        Seq::empty()
    } else {
        let rest = collect_data(s.drop_last());
        match s.last().data {
            Some(d) => rest.push(d),
            None => rest,
        }
    }
}

proof fn lemma_node_models_len(s: Seq<Node>)
    ensures
        node_models(s).len() == s.len(),
        forall|i: int| 0 <= i < s.len() ==> #[trigger] node_models(s)[i] == node_model(s[i]),
    decreases s.len(),
{
    if s.len() > 0 {
        lemma_node_models_len(s.drop_last());
        assert forall|i: int| 0 <= i < s.len() implies #[trigger] node_models(s)[i] == node_model(s[i]) by {
            if i < s.len() - 1 {
                assert(s.drop_last()[i] == s[i]);
            }
        }
    }
}

proof fn lemma_node_models_ext(a: Seq<Node>, b: Seq<Node>)
    requires
        a.len() == b.len(),
        forall|i: int| 0 <= i < a.len() ==> node_model(#[trigger] a[i]) == node_model(b[i]),
    ensures
        node_models(a) == node_models(b),
{
    lemma_node_models_len(a);
    lemma_node_models_len(b);
    assert(node_models(a) =~= node_models(b));
}

proof fn lemma_first_with_id_append(a: Seq<NodeModel>, b: Seq<NodeModel>, id: Seq<char>)
    ensures
        first_with_id(a + b, id) == (match first_with_id(a, id) {
            Some(m) => Some(m),
            None => first_with_id(b, id),
        }),
    decreases a.len(),
{
    if a.len() > 0 {
        assert((a + b).drop_first() =~= a.drop_first() + b);
        lemma_first_with_id_append(a.drop_first(), b, id);
    } else {
        assert(a + b =~= b);
    }
}

proof fn lemma_collect_data_append(a: Seq<NodeModel>, b: Seq<NodeModel>)
    ensures
        collect_data(a + b) == collect_data(a) + collect_data(b),
    decreases b.len(),
{
    if b.len() == 0 {
        assert(a + b =~= a);
        assert(collect_data(a) + collect_data(b) =~= collect_data(a));
    } else {
        assert((a + b).drop_last() =~= a + b.drop_last());
        lemma_collect_data_append(a, b.drop_last());
        match b.last().data {
            Some(d) => {
                assert(collect_data(a) + collect_data(b.drop_last()).push(d) =~= (collect_data(a)
                    + collect_data(b.drop_last())).push(d));
            },
            None => {},
        }
    }
}

proof fn lemma_preorder_list_push(s: Seq<NodeModel>, m: NodeModel)
    ensures
        preorder_list(s.push(m)) == preorder_list(s) + preorder(m),
{
    assert(s.push(m).drop_last() =~= s);
}

/// Compares an optional id with a string.
fn id_is(id: &Option<String>, target: &Vec<char>) -> (r: bool)
    ensures
        r == (opt_str_view(*id) == Some(target@)),
{
    match id {
        Some(s) => str_equals_chars(s.as_str(), target),
        None => false,
    }
}

/// Copies optional bytes.
fn copy_bytes(d: &Option<Vec<u8>>) -> (r: Option<Vec<u8>>)
    ensures
        opt_bytes_view(r) == opt_bytes_view(*d),
{
    match d {
        Some(v) => {
            let mut out: Vec<u8> = Vec::new();
            let mut i: usize = 0;
            while i < v.len()
                invariant
                    i <= v@.len(),
                    out@ == v@.subrange(0, i as int),
                decreases v@.len() - i,
            {
                out.push(v[i]);
                i = i + 1;
                assert(out@ =~= v@.subrange(0, i as int));
            }
            assert(v@.subrange(0, v@.len() as int) =~= v@);
            Some(out)
        },
        None => None,
    }
}

/// Copies an optional string.
fn copy_id(id: &Option<String>) -> (r: Option<String>)
    ensures
        opt_str_view(r) == opt_str_view(*id),
{
    match id {
        Some(s) => Some(s.clone()),
        None => None,
    }
}

impl Node {
    /// A node with the given id and no type, parent, children or data.
    pub fn new(id: Option<String>) -> (r: Node)
        ensures
            r@ == (NodeModel {
                id: opt_str_view(id),
                node_type: None,
                data: None,
                children: Seq::empty(),
            }),
            r.parent is None,
    {
        let r = Node { id, parent: None, children: Vec::new(), data: None, node_type: None };
        assert(r.children@ =~= Seq::<Node>::empty());
        r
    }

    /// A copy of this node and everything below it, without the recorded parent.
    pub fn copy(&self) -> (r: Node)
        ensures
            r@ == self@,
        decreases self,
    {
        let mut children: Vec<Node> = Vec::new();
        let mut i: usize = 0;
        while i < self.children.len()
            invariant
                i <= self.children@.len(),
                children@.len() == i,
                forall|j: int| 0 <= j < i ==> node_model(#[trigger] children@[j]) == node_model(self.children@[j]),
            decreases self.children@.len() - i,
        {
            assert(decreases_to!(self => self.children@[i as int]));
            let c = self.children[i].copy();
            children.push(c);
            i = i + 1;
        }
        proof {
            lemma_node_models_ext(children@, self.children@);
        }
        Node {
            id: copy_id(&self.id),
            parent: None,
            children,
            data: copy_bytes(&self.data),
            node_type: self.node_type,
        }
    }

    /// Sets the id.
    pub fn set_id(&mut self, id: Option<String>)
        ensures
            final(self)@ == (NodeModel { id: opt_str_view(id), ..old(self)@ }),
            final(self).parent == old(self).parent,
    {
        self.id = id;
    }

    /// Sets the bytes.
    pub fn set_data(&mut self, data: Vec<u8>)
        ensures
            final(self)@ == (NodeModel { data: Some(data@), ..old(self)@ }),
            final(self).parent == old(self).parent,
    {
        self.data = Some(data);
    }

    /// The bytes, if any.
    pub fn get_data(&self) -> (r: Option<&Vec<u8>>)
        ensures
            r matches Some(d) ==> self@.data == Some(d@),
            r is None <==> self@.data is None,
    {
        self.data.as_ref()
    }

    /// Records a copy of the enclosing node.
    pub fn set_parent(&mut self, parent: Node)
        ensures
            final(self)@ == old(self)@,
            final(self).parent == Some(Box::new(parent)),
    {
        self.parent = Some(Box::new(parent));
    }

    /// The recorded enclosing node, if any.
    pub fn get_parent(&self) -> (r: Option<&Node>)
        ensures
            r matches Some(p) ==> self.parent == Some(Box::new(*p)),
            r is None <==> self.parent is None,
    {
        match &self.parent {
            Some(p) => Some(&**p),
            None => None,
        }
    }

    /// Appends a child.
    pub fn add_child(&mut self, child: Node)
        ensures
            final(self)@ == (NodeModel { children: old(self)@.children.push(child@), ..old(self)@ }),
            final(self).parent == old(self).parent,
    {
        self.children.push(child);
        proof {
            assert(self.children@.drop_last() =~= old(self).children@);
        }
    }

    /// The children, in order.
    pub fn get_children(&self) -> (r: &Vec<Node>)
        ensures
            node_models(r@) == self@.children,
            r@ == self.children@,
    {
        &self.children
    }

    /// The id.
    pub fn get_id(&self) -> (r: &Option<String>)
        ensures
            opt_str_view(*r) == self@.id,
    {
        &self.id
    }

    /// Sets the tag.
    pub fn set_node_type(&mut self, node_type: NodeType)
        ensures
            final(self)@ == (NodeModel { node_type: Some(node_type), ..old(self)@ }),
            final(self).parent == old(self).parent,
    {
        self.node_type = Some(node_type);
    }

    /// The tag, if any.
    pub fn get_node_type(&self) -> (r: Option<&NodeType>)
        ensures
            r matches Some(t) ==> self@.node_type == Some(*t),
            r is None <==> self@.node_type is None,
    {
        self.node_type.as_ref()
    }

    /// The bytes of every node below this one, depth first.
    pub fn get_data_from_children(&self) -> (r: Vec<Vec<u8>>)
        ensures
            bytes_views(r@) == collect_data(preorder_list(self@.children)),
        decreases self,
    {
        let mut data: Vec<Vec<u8>> = Vec::new();
        let mut i: usize = 0;
        proof {
            lemma_node_models_len(self.children@);
        }
        while i < self.children.len()
            invariant
                i <= self.children@.len(),
                node_models(self.children@).len() == self.children@.len(),
                forall|j: int| 0 <= j < self.children@.len() ==> #[trigger] node_models(self.children@)[j] == node_model(self.children@[j]),
                bytes_views(data@) == collect_data(preorder_list(self@.children.subrange(0, i as int))),
            decreases self.children@.len() - i,
        {
            let ghost before = bytes_views(data@);
            let child = &self.children[i];
            assert(decreases_to!(self => self.children@[i as int]));
            match copy_bytes(&child.data) {
                Some(d) => data.push(d),
                None => {},
            }
            let below = child.get_data_from_children();
            let mut k: usize = 0;
            let ghost mid = bytes_views(data@);
            while k < below.len()
                invariant
                    k <= below@.len(),
                    bytes_views(data@) == mid + bytes_views(below@).subrange(0, k as int),
                decreases below@.len() - k,
            {
                let b = copy_bytes_vec(&below[k]);
                let ghost prev = data@;
                data.push(b);
                proof {
                    assert(data@ =~= prev.push(b));
                    assert(bytes_views(data@) =~= bytes_views(prev).push(below@[k as int]@));
                    assert(bytes_views(below@).subrange(0, k as int + 1) =~= bytes_views(below@).subrange(0, k as int).push(below@[k as int]@));
                }
                k = k + 1;
                assert(bytes_views(data@) =~= mid + bytes_views(below@).subrange(0, k as int));
            }
            proof {
                let cm = child@;
                assert(self@.children.subrange(0, i as int + 1) =~= self@.children.subrange(0, i as int).push(cm));
                lemma_preorder_list_push(self@.children.subrange(0, i as int), cm);
                lemma_collect_data_append(preorder_list(self@.children.subrange(0, i as int)), preorder(cm));
                lemma_collect_data_append(seq![cm], preorder_list(cm.children));
                assert(seq![cm].drop_last() =~= Seq::<NodeModel>::empty());
                assert(bytes_views(below@).subrange(0, below@.len() as int) =~= bytes_views(below@));
                reveal_with_fuel(collect_data, 2);
                match cm.data {
                    Some(dd) => {
                        assert(collect_data(seq![cm]) =~= seq![dd]);
                        assert(mid =~= before.push(dd));
                    },
                    None => {
                        assert(collect_data(seq![cm]) =~= Seq::<Seq<u8>>::empty());
                        assert(mid =~= before);
                    },
                }
                assert(bytes_views(data@) =~= before + collect_data(preorder(cm)));
            }
            i = i + 1;
        }
        assert(self@.children.subrange(0, self@.children.len() as int) =~= self@.children);
        data
    }
}

impl Clone for Node {
    /// A copy of the node and everything below it, without the recorded parent.
    fn clone(&self) -> (r: Self)
        ensures
            r@ == self@,
    {
        self.copy()
    }
}

/// The model of an optional node.
pub open spec fn opt_node_model(o: Option<Node>) -> Option<NodeModel> {
    match o {
        Some(n) => Some(n@),
        None => None,
    }
}

proof fn lemma_preorder_list_split(s: Seq<NodeModel>, j: int)
    requires
        0 <= j <= s.len(),
    ensures
        preorder_list(s) == preorder_list(s.subrange(0, j)) + preorder_list(s.subrange(j, s.len() as int)),
    decreases s.len(),
{
    if j == s.len() {
        assert(s.subrange(0, j) =~= s);
        assert(s.subrange(j, s.len() as int) =~= Seq::<NodeModel>::empty());
        assert(preorder_list(s) + Seq::<NodeModel>::empty() =~= preorder_list(s));
    } else {
        lemma_preorder_list_split(s.drop_last(), j);
        assert(s.drop_last().subrange(0, j) =~= s.subrange(0, j));
        assert(s.subrange(j, s.len() as int).drop_last() =~= s.drop_last().subrange(j, s.drop_last().len() as int));
        assert(s.subrange(j, s.len() as int).last() == s.last());
        assert(preorder_list(s.subrange(0, j)) + preorder_list(s.drop_last().subrange(j, s.drop_last().len() as int)) + preorder(s.last())
            =~= preorder_list(s.subrange(0, j)) + (preorder_list(s.drop_last().subrange(j, s.drop_last().len() as int)) + preorder(s.last())));
    }
}

/// The first node, depth first from `n`, whose id is `id`.
fn find_by_id(n: &Node, id: &Vec<char>) -> (r: Option<Node>)
    ensures
        opt_node_model(r) == first_with_id(preorder(n@), id@),
    decreases n,
{
    let ghost m = n@;
    proof {
        lemma_node_models_len(n.children@);
    }
    if id_is(&n.id, id) {
        return Some(n.copy());
    }
    assert((seq![m] + preorder_list(m.children)).drop_first() =~= preorder_list(m.children));
    let mut i: usize = 0;
    while i < n.children.len()
        invariant
            i <= n.children@.len(),
            m == n@,
            m.children.len() == n.children@.len(),
            forall|j: int| 0 <= j < n.children@.len() ==> #[trigger] m.children[j] == node_model(n.children@[j]),
            first_with_id(preorder_list(m.children.subrange(0, i as int)), id@) is None,
            first_with_id(preorder(m), id@) == first_with_id(preorder_list(m.children), id@),
        decreases n.children@.len() - i,
    {
        assert(decreases_to!(n => n.children@[i as int]));
        let found = find_by_id(&n.children[i], id);
        proof {
            let c = m.children[i as int];
            assert(m.children.subrange(0, i as int + 1) =~= m.children.subrange(0, i as int).push(c));
            lemma_preorder_list_push(m.children.subrange(0, i as int), c);
            lemma_first_with_id_append(preorder_list(m.children.subrange(0, i as int)), preorder(c), id@);
            lemma_preorder_list_split(m.children, i as int + 1);
            lemma_first_with_id_append(preorder_list(m.children.subrange(0, i as int + 1)),
                preorder_list(m.children.subrange(i as int + 1, m.children.len() as int)), id@);
        }
        if found.is_some() {
            return found;
        }
        i = i + 1;
    }
    assert(m.children.subrange(0, i as int) =~= m.children);
    None
}

/// Appends the nodes of `n`, depth first, to `out`.
fn collect_preorder(n: &Node, out: &mut Vec<Node>)
    ensures
        node_models(final(out)@) == node_models(old(out)@) + preorder(n@),
    decreases n,
{
    let ghost m = n@;
    let ghost start = node_models(out@);
    proof {
        lemma_node_models_len(n.children@);
    }
    out.push(n.copy());
    proof {
        assert(out@.drop_last() =~= old(out)@);
    }
    let mut i: usize = 0;
    while i < n.children.len()
        invariant
            i <= n.children@.len(),
            m == n@,
            m.children.len() == n.children@.len(),
            forall|j: int| 0 <= j < n.children@.len() ==> #[trigger] m.children[j] == node_model(n.children@[j]),
            node_models(out@) == start + seq![m] + preorder_list(m.children.subrange(0, i as int)),
        decreases n.children@.len() - i,
    {
        assert(decreases_to!(n => n.children@[i as int]));
        collect_preorder(&n.children[i], out);
        proof {
            let c = m.children[i as int];
            assert(m.children.subrange(0, i as int + 1) =~= m.children.subrange(0, i as int).push(c));
            lemma_preorder_list_push(m.children.subrange(0, i as int), c);
            assert(start + seq![m] + preorder_list(m.children.subrange(0, i as int)) + preorder(c)
                =~= start + seq![m] + (preorder_list(m.children.subrange(0, i as int)) + preorder(c)));
        }
        i = i + 1;
    }
    assert(m.children.subrange(0, i as int) =~= m.children);
    assert(start + seq![m] + preorder_list(m.children) =~= start + preorder(m));
}

/// The tree that interpretation builds, held by its root.
#[derive(Debug, Clone)]
pub struct AST {
    /// The root node.
    pub root: Node,
}

impl AST {
    /// A tree whose root is an empty node with the id `root`.
    pub fn new() -> (r: AST)
        ensures
            r.root@ == (NodeModel {
                id: Some("root"@),
                node_type: None,
                data: None,
                children: Seq::empty(),
            }),
    {
        let root = Node::new(Some(String::from_str("root")));
        AST { root }
    }

    /// Replaces the root.
    pub fn set_root(&mut self, root: Node)
        ensures
            final(self).root == root,
    {
        self.root = root;
    }

    /// The root.
    pub fn get_root(&self) -> (r: &Node)
        ensures
            *r == self.root,
    {
        &self.root
    }

    /// The first node, depth first from the root, whose id is `id`.
    pub fn get_node_by_id(&self, id: &str) -> (r: Option<Node>)
        ensures
            opt_node_model(r) == first_with_id(preorder(self.root@), id@),
    {
        let name = chars_of(id);
        find_by_id(&self.root, &name)
    }

    /// The first node, depth first from the root, whose id is spelled by `name`.
    pub fn get_node_by_name(&self, name: &Vec<char>) -> (r: Option<Node>)
        ensures
            opt_node_model(r) == first_with_id(preorder(self.root@), name@),
    {
        find_by_id(&self.root, name)
    }

    /// Every node of the tree, depth first, children in order.
    pub fn traverse(&self) -> (r: Vec<Node>)
        ensures
            node_models(r@) == preorder(self.root@),
    {
        let mut out: Vec<Node> = Vec::new();
        collect_preorder(&self.root, &mut out);
        assert(node_models(Seq::<Node>::empty()) =~= Seq::<NodeModel>::empty());
        assert(Seq::<NodeModel>::empty() + preorder(self.root@) =~= preorder(self.root@));
        out
    }
}

/// Copies bytes.
fn copy_bytes_vec(v: &Vec<u8>) -> (r: Vec<u8>)
    ensures
        r@ == v@,
{
    let mut out: Vec<u8> = Vec::new();
    let mut i: usize = 0;
    while i < v.len()
        invariant
            i <= v@.len(),
            out@ == v@.subrange(0, i as int),
        decreases v@.len() - i,
    {
        out.push(v[i]);
        i = i + 1;
        assert(out@ =~= v@.subrange(0, i as int));
    }
    assert(v@.subrange(0, v@.len() as int) =~= v@);
    out
}

} // verus!
