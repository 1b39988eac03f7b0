//! Tests of the node arena: adding, attaching without cycles, and removing
//! subtrees.

use css_syntax::arena::NodeArena;
use css_syntax::dom::Document;
use css_syntax::dom::ElementAttributes;
use css_syntax::dom::Node;
use css_syntax::dom::NodeId;
use css_syntax::dom::HTML_NAMESPACE;

fn element(name: &str) -> Node {
    let document = Document::shared();
    Node::new_element(&document, name, ElementAttributes::new(), HTML_NAMESPACE)
}

#[test]
fn add_node() {
    let mut arena = NodeArena::new();
    let node = element("test");
    let id = arena.add_node(node);
    assert_eq!(arena.node_count(), 1);
    assert_eq!(id, NodeId::default());
}

#[test]
fn get_node() {
    let mut arena = NodeArena::new();
    let node = element("test");
    let id = arena.add_node(node);
    let node = arena.get_node(id);
    assert!(node.is_some());
    assert_eq!(node.unwrap().name, "test");
}

#[test]
fn get_mut_node() {
    let mut arena = NodeArena::new();

    let node = element("test");
    let id = arena.add_node(node);

    let node = arena.get_mut_node(id);
    assert!(node.is_some());
    assert_eq!(node.unwrap().name, "test");
}

#[test]
fn attach_node() {
    let mut arena = NodeArena::new();

    let parent = element("parent");
    let parent_id = arena.add_node(parent);
    let child = element("child");
    let child_id = arena.add_node(child);

    assert!(arena.attach_node(parent_id, child_id));

    let parent = arena.get_node(parent_id);
    assert!(parent.is_some());
    assert_eq!(parent.unwrap().children.len(), 1);
    assert_eq!(parent.unwrap().children[0], child_id);

    let child = arena.get_node(child_id);
    assert!(child.is_some());
    assert_eq!(child.unwrap().parent, Some(parent_id));
}

#[test]
fn attach_node_to_itself() {
    let mut arena = NodeArena::new();

    let node = element("some_node");
    let node_id = arena.add_node(node);

    assert!(!arena.attach_node(node_id, node_id));

    let node = arena.get_node(node_id);
    assert!(node.is_some());
    assert_eq!(node.unwrap().children.len(), 0);
}

#[test]
fn attach_node_with_loop_pointer() {
    let mut arena = NodeArena::new();
    let parent = element("parent");
    let mut child = element("child");

    // Push the parent into the child's own child list first.
    let parent_id = arena.add_node(parent);
    child.children.push(parent_id);

    // Then try to attach the child below the parent.
    let child_id = arena.add_node(child);
    assert!(!arena.attach_node(parent_id, child_id));

    let parent = arena.get_node(parent_id);
    let child = arena.get_node(child_id);
    assert!(parent.is_some());
    assert!(child.is_some());
    assert_eq!(parent.unwrap().children.len(), 0);
    assert_eq!(child.unwrap().children.len(), 1);
}

#[test]
fn attach_node_with_indirect_loop_pointer() {
    let mut arena = NodeArena::new();
    let parent = element("parent");
    let child1 = element("child1");
    let child2 = element("child2");

    let parent_id = arena.add_node(parent);
    let child1_id = arena.add_node(child1);
    let child2_id = arena.add_node(child2);

    assert!(arena.attach_node(parent_id, child1_id));
    assert!(arena.attach_node(child1_id, child2_id));

    let parent = arena.get_node(parent_id);
    let child1 = arena.get_node(child1_id);
    let child2 = arena.get_node(child2_id);
    assert_eq!(parent.unwrap().children.len(), 1);
    assert_eq!(child1.unwrap().children.len(), 1);
    assert_eq!(child2.unwrap().children.len(), 0);

    // Attaching the parent below its own grandchild would build a cycle.
    assert!(!arena.attach_node(child2_id, parent_id));

    let parent = arena.get_node(parent_id);
    let child1 = arena.get_node(child1_id);
    let child2 = arena.get_node(child2_id);
    assert_eq!(parent.unwrap().children.len(), 1);
    assert_eq!(child1.unwrap().children.len(), 1);
    assert_eq!(child2.unwrap().children.len(), 0);
}

#[test]
fn remove_node() {
    let mut arena = NodeArena::new();

    let parent = element("parent");
    let parent_id = arena.add_node(parent);
    let child = element("child");
    let child_id = arena.add_node(child);

    arena.attach_node(parent_id, child_id);
    arena.remove_node(child_id);

    let parent = arena.get_node(parent_id);
    assert!(parent.is_some());
    assert_eq!(parent.unwrap().children.len(), 0);

    let child = arena.get_node(child_id);
    assert!(child.is_none());
}

#[test]
fn remove_child_node() {
    let mut arena = NodeArena::new();

    let parent = element("parent");
    let parent_id = arena.add_node(parent);
    let child1 = element("child1");
    let child1_id = arena.add_node(child1);
    let child2 = element("child2");
    let child2_id = arena.add_node(child2);

    arena.attach_node(parent_id, child1_id);
    arena.attach_node(parent_id, child2_id);
    let parent = arena.get_node(parent_id);
    assert!(parent.is_some());
    assert_eq!(parent.unwrap().children.len(), 2);

    arena.remove_node(child1_id);

    let child = arena.get_node(child1_id);
    assert!(child.is_none());
    let child = arena.get_node(child2_id);
    assert!(child.is_some());
    assert_eq!(child.unwrap().parent, Some(parent_id));

    let parent = arena.get_node(parent_id);
    assert_eq!(parent.unwrap().children.len(), 1);
}

#[test]
fn remove_node_with_children() {
    let mut arena = NodeArena::new();

    let parent = element("parent");
    let parent_id = arena.add_node(parent);
    let child = element("child");
    let child_id = arena.add_node(child);

    arena.attach_node(parent_id, child_id);
    arena.remove_node(parent_id);

    let parent = arena.get_node(parent_id);
    assert!(parent.is_none());
    let child = arena.get_node(child_id);
    assert!(child.is_none());
}

#[test]
fn remove_node_with_children_and_parent() {
    let mut arena = NodeArena::new();

    let parent = element("parent");
    let parent_id = arena.add_node(parent);
    let child = element("child");
    let child_id = arena.add_node(child);

    arena.attach_node(parent_id, child_id);
    arena.remove_node(child_id);
    arena.remove_node(parent_id);

    let parent = arena.get_node(parent_id);
    assert!(parent.is_none());
    let child = arena.get_node(child_id);
    assert!(child.is_none());
}

#[test]
fn remove_node_with_children_and_parent_and_grandchildren() {
    let mut arena = NodeArena::new();

    let parent = element("parent");
    let parent_id = arena.add_node(parent);
    let child = element("child");
    let child_id = arena.add_node(child);
    let grandchild = element("grandchild");
    let grandchild_id = arena.add_node(grandchild);

    arena.attach_node(parent_id, child_id);
    arena.attach_node(child_id, grandchild_id);
    arena.remove_node(child_id);
    arena.remove_node(parent_id);

    let parent = arena.get_node(parent_id);
    assert!(parent.is_none());
    let child = arena.get_node(child_id);
    assert!(child.is_none());
    let grandchild = arena.get_node(grandchild_id);
    assert!(grandchild.is_none());
}

#[test]
fn remove_node_with_children_and_parent_and_grandchildren_and_siblings() {
    let mut arena = NodeArena::new();

    let parent = element("parent");
    let parent_id = arena.add_node(parent);
    let child = element("child");
    let child_id = arena.add_node(child);
    let grandchild = element("grandchild");
    let grandchild_id = arena.add_node(grandchild);
    let sibling = element("sibling");
    let sibling_id = arena.add_node(sibling);

    arena.attach_node(parent_id, child_id);
    arena.attach_node(child_id, grandchild_id);
    arena.attach_node(parent_id, sibling_id);
    arena.remove_node(child_id);
    arena.remove_node(parent_id);

    let parent = arena.get_node(parent_id);
    assert!(parent.is_none());
    let child = arena.get_node(child_id);
    assert!(child.is_none());
    let grandchild = arena.get_node(grandchild_id);
    assert!(grandchild.is_none());
    let sibling = arena.get_node(sibling_id);
    assert!(sibling.is_none());
}
