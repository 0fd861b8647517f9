use kaitai_rs::ast::Node;
use kaitai_rs::ast::NodeType;
use kaitai_rs::ast::AST;

// Unit tests for the Node and AST types: creating nodes, adding children, setting data,
// and walking the tree depth first.

#[test]
// A new node has no parent, children or data
fn test_node_new() {
    let node = Node::new(Some("test_node".to_string()));
    assert!(node.get_parent().is_none());
    assert_eq!(node.get_children().len(), 0);
    assert!(node.get_data().is_none());
}

#[test]
// Setting data on a node
fn test_node_set_data() {
    let mut node = Node::new(Some("test_node".to_string()));
    node.set_data(vec![42]);
    assert_eq!(node.get_data(), Some(&vec![42]));
}

#[test]
// The data of every node below a node, depth first
fn test_node_get_data_from_children() {
    let mut parent = Node::new(Some("test_node".to_string()));
    let mut child1 = Node::new(Some("test_child1_node".to_string()));
    let mut child2 = Node::new(Some("test_child2_node".to_string()));
    let mut grandchild1 = Node::new(Some("test_grandchild1_node".to_string()));
    let mut grandchild2 = Node::new(Some("test_grandchild2_node".to_string()));

    child1.set_data(vec![1]);
    child2.set_data(vec![2]);
    grandchild1.set_data(vec![3]);
    grandchild2.set_data(vec![4]);

    child1.add_child(grandchild1.clone());
    child2.add_child(grandchild2.clone());
    parent.add_child(child1.clone());
    parent.add_child(child2.clone());

    let data = parent.get_data_from_children();
    assert_eq!(data, vec![vec![1], vec![3], vec![2], vec![4]]);
}

#[test]
// Recording the parent of a node
fn test_node_set_parent() {
    let parent = Node::new(Some("test_node".to_string()));
    let mut child = Node::new(Some("test_child_node".to_string()));
    child.set_parent(parent.clone());
    assert_eq!(child.get_parent(), Some(&parent));
}

#[test]
// Adding children to a node
fn test_node_add_child() {
    let mut parent = Node::new(Some("test_node".to_string()));
    let child1 = Node::new(Some("test_child1_node".to_string()));
    let child2 = Node::new(Some("test_child2_node".to_string()));
    parent.add_child(child1.clone());
    parent.add_child(child2.clone());
    assert_eq!(parent.get_children().len(), 2);
    assert_eq!(parent.get_children()[0], child1);
    assert_eq!(parent.get_children()[1], child2);
}

#[test]
// A new tree has an empty root
fn test_ast_new() {
    let ast = AST::new();
    let root = ast.get_root().clone();
    assert_eq!(root.get_children().len(), 0);
    assert_eq!(root.get_data(), None);
}

#[test]
// Walking a tree depth first
fn test_ast_traverse() {
    let mut root = Node::new(Some("test_node".to_string()));
    let child1 = Node::new(Some("test_child1_node".to_string()));
    let child2 = Node::new(Some("test_child2_node".to_string()));
    root.add_child(child1.clone());
    root.add_child(child2.clone());
    let mut ast = AST::new();
    ast.set_root(root.clone());
    let nodes = ast.traverse();
    assert_eq!(nodes.len(), 3);
    assert_eq!(nodes[0], root);
    assert_eq!(nodes[1], child1);
    assert_eq!(nodes[2], child2);
}

#[test]
// Finding a node by its id
fn test_ast_get_node_by_id() {
    let mut root = Node::new(Some("root".to_string()));
    let mut child1 = Node::new(Some("child1".to_string()));
    let mut child2 = Node::new(Some("child2".to_string()));
    let grandchild1 = Node::new(Some("grandchild1".to_string()));
    let grandchild2 = Node::new(Some("grandchild2".to_string()));

    child1.add_child(grandchild1.clone());
    child2.add_child(grandchild2.clone());
    root.add_child(child1.clone());
    root.add_child(child2.clone());

    let mut ast = AST::new();
    ast.set_root(root.clone());

    assert_eq!(ast.get_node_by_id("root"), Some(root.clone()));
    assert_eq!(ast.get_node_by_id("child1"), Some(child1.clone()));
    assert_eq!(ast.get_node_by_id("child2"), Some(child2.clone()));
    assert_eq!(ast.get_node_by_id("grandchild1"), Some(grandchild1.clone()));
    assert_eq!(ast.get_node_by_id("grandchild2"), Some(grandchild2.clone()));
    assert_eq!(ast.get_node_by_id("nonexistent"), None);
}

#[test]
// Setting and reading the tag of a node
fn test_node_type() {
    let mut node = Node::new(Some("test_node".to_string()));

    node.set_node_type(NodeType::Integer);
    assert_eq!(node.get_node_type(), Some(&NodeType::Integer));

    node.set_node_type(NodeType::String);
    assert_eq!(node.get_node_type(), Some(&NodeType::String));

    node.set_node_type(NodeType::Array);
    assert_eq!(node.get_node_type(), Some(&NodeType::Array));
}

#[test]
// The first match in depth-first order wins when ids repeat
fn test_ast_first_match_wins() {
    let mut root = Node::new(Some("root".to_string()));
    let mut a = Node::new(Some("a".to_string()));
    let mut dup_deep = Node::new(Some("x".to_string()));
    dup_deep.set_data(vec![1]);
    a.add_child(dup_deep);
    let mut dup_shallow = Node::new(Some("x".to_string()));
    dup_shallow.set_data(vec![2]);
    root.add_child(a);
    root.add_child(dup_shallow);
    let mut ast = AST::new();
    ast.set_root(root);
    assert_eq!(ast.get_node_by_id("x").unwrap().get_data(), Some(&vec![1]));
}
