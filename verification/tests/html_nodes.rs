//! Tests of the DOM node structures: constructors, node types, the special
//! and formatting element tables, and element attributes.

use css_syntax::dom::Document;
use css_syntax::dom::ElementAttributes;
use css_syntax::dom::Node;
use css_syntax::dom::NodeData;
use css_syntax::dom::NodeId;
use css_syntax::dom::NodeTrait;
use css_syntax::dom::NodeType;
use css_syntax::dom::HTML_NAMESPACE;
use css_syntax::dom::MATHML_NAMESPACE;
use css_syntax::dom::SVG_NAMESPACE;

fn attrs(pairs: &[(&str, &str)]) -> ElementAttributes {
    let mut a = ElementAttributes::new();
    for (k, v) in pairs {
        a.insert(k, v);
    }
    a
}

#[test]
fn new_document() {
    let document = Document::shared();
    let node = Node::new_document(&document);
    assert_eq!(node.id, NodeId::default());
    assert_eq!(node.parent, None);
    assert!(node.children.is_empty());
    assert_eq!(node.name, "".to_string());
    assert_eq!(node.namespace, None);
    match &node.data {
        NodeData::Document(_) => (),
        _ => panic!(),
    }
}

#[test]
fn new_element() {
    let document = Document::shared();
    let node = Node::new_element(&document, "div", attrs(&[("id", "test")]), HTML_NAMESPACE);
    assert_eq!(node.id, NodeId::default());
    assert_eq!(node.parent, None);
    assert!(node.children.is_empty());
    assert_eq!(node.name, "div".to_string());
    assert_eq!(node.namespace, Some(HTML_NAMESPACE.into()));
    let NodeData::Element(element) = &node.data else {
        panic!()
    };
    assert_eq!(element.name, "div");
    assert!(element.attributes.contains("id"));
    assert_eq!(element.attributes.get("id").unwrap(), "test");
}

#[test]
fn new_comment() {
    let document = Document::shared();
    let node = Node::new_comment(&document, "test");
    assert_eq!(node.id, NodeId::default());
    assert_eq!(node.parent, None);
    assert!(node.children.is_empty());
    assert_eq!(node.name, "".to_string());
    assert_eq!(node.namespace, None);
    let NodeData::Comment(comment) = &node.data else {
        panic!()
    };
    assert_eq!(comment.value, "test");
}

#[test]
fn new_text() {
    let document = Document::shared();
    let node = Node::new_text(&document, "test");
    assert_eq!(node.id, NodeId::default());
    assert_eq!(node.parent, None);
    assert!(node.children.is_empty());
    assert_eq!(node.name, "".to_string());
    assert_eq!(node.namespace, None);
    let NodeData::Text(text) = &node.data else {
        panic!()
    };
    assert_eq!(text.value, "test");
}

#[test]
fn is_special() {
    let document = Document::shared();
    let node = Node::new_element(&document, "div", attrs(&[("id", "test")]), HTML_NAMESPACE);
    assert!(node.is_special());
}

#[test]
fn type_of() {
    let document = Document::shared();
    let node = Node::new_document(&document);
    assert_eq!(node.type_of(), NodeType::Document);
    let node = Node::new_text(&document, "test");
    assert_eq!(node.type_of(), NodeType::Text);
    let node = Node::new_comment(&document, "test");
    assert_eq!(node.type_of(), NodeType::Comment);
    let node = Node::new_element(&document, "div", attrs(&[("id", "test")]), HTML_NAMESPACE);
    assert_eq!(node.type_of(), NodeType::Element);
}

#[test]
fn special_html_elements() {
    let document = Document::shared();
    for element in css_syntax::dom::special_html_elements().iter() {
        let node = Node::new_element(&document, element, attrs(&[("id", "test")]), HTML_NAMESPACE);
        assert!(node.is_special());
    }
}

#[test]
fn special_mathml_elements() {
    let document = Document::shared();
    for element in css_syntax::dom::special_mathml_elements().iter() {
        let node =
            Node::new_element(&document, element, attrs(&[("id", "test")]), MATHML_NAMESPACE);
        assert!(node.is_special());
    }
}

#[test]
fn special_svg_elements() {
    let document = Document::shared();
    for element in css_syntax::dom::special_svg_elements().iter() {
        let node = Node::new_element(&document, element, attrs(&[("id", "test")]), SVG_NAMESPACE);
        assert!(node.is_special());
    }
}

#[test]
fn type_of_node() {
    let document = Document::shared();
    let node = Node::new_document(&document);
    assert_eq!(node.type_of(), NodeType::Document);
    let node = Node::new_text(&document, "test");
    assert_eq!(node.type_of(), NodeType::Text);
    let node = Node::new_comment(&document, "test");
    assert_eq!(node.type_of(), NodeType::Comment);
    let node = Node::new_element(&document, "div", attrs(&[("id", "test")]), HTML_NAMESPACE);
    assert_eq!(node.type_of(), NodeType::Element);
}

#[test]
fn contains_attribute() {
    let document = Document::shared();
    let node = Node::new_element(&document, "node", attrs(&[("x", "value")]), HTML_NAMESPACE);
    let NodeData::Element(element) = &node.data else {
        panic!()
    };
    assert!(element.attributes.contains("x"));
    assert!(!element.attributes.contains("z"));
}

#[test]
fn insert_attribute() {
    let document = Document::shared();
    let mut node = Node::new_element(&document, "name", attrs(&[]), HTML_NAMESPACE);
    let NodeData::Element(element) = &mut node.data else {
        panic!()
    };
    element.attributes.insert("key", "value");
    assert_eq!(element.attributes.get("key").unwrap(), "value");
}

#[test]
fn remove_attribute() {
    let document = Document::shared();
    let mut node = Node::new_element(&document, "name", attrs(&[("key", "value")]), HTML_NAMESPACE);
    let NodeData::Element(element) = &mut node.data else {
        panic!()
    };
    element.attributes.remove("key");
    assert!(!element.attributes.contains("key"));
}

#[test]
fn get_attribute() {
    let document = Document::shared();
    let node = Node::new_element(&document, "name", attrs(&[("key", "value")]), HTML_NAMESPACE);
    let NodeData::Element(element) = &node.data else {
        panic!()
    };
    assert_eq!(element.attributes.get("key").unwrap(), "value");
}

#[test]
fn clear_attributes() {
    let document = Document::shared();
    let mut node = Node::new_element(&document, "name", attrs(&[("key", "value")]), HTML_NAMESPACE);
    let NodeData::Element(element) = &mut node.data else {
        panic!()
    };
    element.attributes.clear();
    assert!(element.attributes.is_empty());
}

#[test]
fn has_attributes() {
    let document = Document::shared();
    let mut node = Node::new_element(&document, "name", attrs(&[]), HTML_NAMESPACE);
    let NodeData::Element(element) = &mut node.data else {
        panic!()
    };
    assert!(element.attributes.is_empty());
    element.attributes.insert("key", "value");
    assert!(!element.attributes.is_empty());
}

#[test]
fn matches_tag_and_attrs_ignores_attribute_order() {
    let document = Document::shared();
    let a = Node::new_element(
        &document,
        "div",
        attrs(&[("a", "1"), ("b", "2")]),
        HTML_NAMESPACE,
    );
    let b = Node::new_element(
        &document,
        "div",
        attrs(&[("b", "2"), ("a", "1")]),
        HTML_NAMESPACE,
    );
    assert!(a.matches_tag_and_attrs_without_order(&b));
    let c = Node::new_element(&document, "div", attrs(&[("a", "1")]), HTML_NAMESPACE);
    assert!(!a.matches_tag_and_attrs_without_order(&c));
}

#[test]
fn is_formatting_checks_table() {
    let document = Document::shared();
    let node = Node::new_element(&document, "b", attrs(&[]), HTML_NAMESPACE);
    assert!(node.is_formatting());
    let node = Node::new_element(&document, "div", attrs(&[]), HTML_NAMESPACE);
    assert!(!node.is_formatting());
}

#[test]
fn named_id_mirrors_id_attribute() {
    let document = Document::shared();
    let mut node = Node::new_element(&document, "div", attrs(&[]), HTML_NAMESPACE);
    assert!(!node.has_named_id());
    node.set_named_id("header");
    assert!(node.has_named_id());
    assert_eq!(node.get_named_id().unwrap(), "header");
    let NodeData::Element(element) = &node.data else {
        panic!()
    };
    assert_eq!(element.attributes.get("id").unwrap(), "header");
}

#[test]
fn node_id_navigation() {
    assert!(NodeId::root().is_root());
    assert_eq!(NodeId::root().as_usize(), 0);
    assert_eq!(NodeId(3).next().as_usize(), 4);
    assert_eq!(NodeId(3).prev().as_usize(), 2);
    assert_eq!(NodeId(0).prev().as_usize(), 0);
    assert_eq!(NodeId(usize::MAX).next().as_usize(), usize::MAX);
}

#[test]
fn integration_points() {
    let document = Document::shared();
    let node = Node::new_element(
        &document,
        "annotation-xml",
        attrs(&[("encoding", "TEXT/HTML")]),
        MATHML_NAMESPACE,
    );
    assert!(node.is_html_integration_point());
    let node = Node::new_element(&document, "mi", attrs(&[]), MATHML_NAMESPACE);
    assert!(node.is_mathml_integration_point());
    let node = Node::new_element(&document, "desc", attrs(&[]), SVG_NAMESPACE);
    assert!(node.is_html_integration_point());
}
