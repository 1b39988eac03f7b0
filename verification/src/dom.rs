//! DOM nodes: node identifiers, node data (document, text, comment, element),
//! element attributes, and the classification tables for special and
//! formatting elements.

use vstd::prelude::*;

use crate::strings::{lower_seq, seq_in_list, str_eq, str_in_list, to_lower};

verus! {

/// Namespace of HTML elements.
pub const HTML_NAMESPACE: &'static str = "http://www.w3.org/1999/xhtml";

/// Namespace of MathML elements.
pub const MATHML_NAMESPACE: &'static str = "http://www.w3.org/1998/Math/MathML";

/// Namespace of SVG elements.
pub const SVG_NAMESPACE: &'static str = "http://www.w3.org/2000/svg";

/// Namespace of XLink attributes.
pub const XLINK_NAMESPACE: &'static str = "http://www.w3.org/1999/xlink";

/// Namespace of XML attributes.
pub const XML_NAMESPACE: &'static str = "http://www.w3.org/XML/1998/namespace";

/// Namespace of XMLNS attributes.
pub const XMLNS_NAMESPACE: &'static str = "http://www.w3.org/2000/xmlns/";

/// Id used to identify a node.  Id 0 is the root node.
#[derive(Copy, Clone, Debug, PartialEq, Eq, Structural)]
pub struct NodeId(pub usize);

impl NodeId {
    /// Returns the root node id.
    pub fn root() -> (r: Self)
        ensures
            r.0 == 0,
    {
        Self(0)
    }

    /// Returns true when this node id is the root node's.
    pub fn is_root(&self) -> (r: bool)
        ensures
            r == (self.0 == 0),
    {
        self.0 == 0
    }

    /// Returns the next node id; saturates at the largest id.
    pub fn next(&self) -> (r: Self)
        ensures
            r.0 == if self.0 == usize::MAX {
                usize::MAX as int
            } else {
                self.0 + 1
            },
    {
        if self.0 == usize::MAX {
            return Self(usize::MAX);
        }
        Self(self.0 + 1)
    }

    /// Returns the node id as a number.
    pub fn as_usize(&self) -> (r: usize)
        ensures
            r == self.0,
    {
        self.0
    }

    /// Returns the previous node id; the root's previous id is the root.
    pub fn prev(&self) -> (r: Self)
        ensures
            r.0 == if self.0 == 0 {
                0int
            } else {
                self.0 - 1
            },
    {
        if self.0 == 0 {
            return Self::root();
        }
        Self(self.0 - 1)
    }
}

impl Default for NodeId {
    /// The default node id is the root's.
    fn default() -> (r: Self)
        ensures
            r.0 == 0,
    {
        Self(0)
    }
}

impl From<usize> for NodeId {
    /// A node id from its number.
    fn from(value: usize) -> (r: Self) {
        Self(value)
    }
}

impl vstd::std_specs::convert::FromSpecImpl<usize> for NodeId {
    open spec fn obeys_from_spec() -> bool {
        true
    }

    open spec fn from_spec(value: usize) -> Self {
        NodeId(value)
    }
}

impl From<NodeId> for usize {
    /// The number of a node id.
    fn from(value: NodeId) -> (r: Self) {
        value.0
    }
}

impl vstd::std_specs::convert::FromSpecImpl<NodeId> for usize {
    open spec fn obeys_from_spec() -> bool {
        true
    }

    open spec fn from_spec(value: NodeId) -> usize {
        value.0
    }
}

/// The different types of nodes.
#[derive(Copy, Clone, Debug, PartialEq, Eq, Structural)]
pub enum NodeType {
    Document,
    Text,
    Comment,
    Element,
}

/// Data of a document node.  A document carries no extra data.
pub struct DocumentData {}

impl DocumentData {
    /// Creates new document data.
    pub fn new() -> (r: Self) {
        DocumentData {  }
    }
}

impl Default for DocumentData {
    fn default() -> Self {
        Self::new()
    }
}

/// Data of a text node.
pub struct TextData {
    /// The text held by the node.
    pub value: String,
}

impl TextData {
    /// Creates text data with the given text.
    pub fn with_value(value: &str) -> (r: Self)
        ensures
            r.value@ == value@,
    {
        Self { value: value.to_owned() }
    }
}

/// Data of a comment node.
pub struct CommentData {
    /// The comment held by the node.
    pub value: String,
}

impl CommentData {
    /// Creates comment data with the given text.
    pub fn with_value(value: &str) -> (r: Self)
        ensures
            r.value@ == value@,
    {
        Self { value: value.to_owned() }
    }
}

/// The attributes of an element: a map from attribute name to value, stored
/// as a vector of pairs with unique names.
pub struct ElementAttributes {
    pairs: Vec<(String, String)>,
}

impl ElementAttributes {
    /// The names in the vector are unique.
    pub closed spec fn wf(&self) -> bool {
        forall|i: int, j: int|
            0 <= i < j < self.pairs@.len() ==> (#[trigger] self.pairs@[i].0@) != (
            #[trigger] self.pairs@[j].0@)
    }

    /// The attributes as a map from name to value.
    pub closed spec fn model(&self) -> Map<Seq<char>, Seq<char>> {
        Map::new(
            |k: Seq<char>| exists|i: int| 0 <= i < self.pairs@.len() && self.pairs@[i].0@ == k,
            |k: Seq<char>|
                {
                    let i = choose|i: int| 0 <= i < self.pairs@.len() && self.pairs@[i].0@ == k;
                    self.pairs@[i].1@
                },
        )
    }

    /// Creates an empty attribute map.
    pub fn new() -> (r: Self)
        ensures
            r.wf(),
            r.model() == Map::<Seq<char>, Seq<char>>::empty(),
    {
        let r = Self { pairs: Vec::new() };
        proof {
            assert(r.model() =~= Map::<Seq<char>, Seq<char>>::empty());
        }
        r
    }

    /// Whether there are no attributes.
    pub fn is_empty(&self) -> (r: bool)
        requires
            self.wf(),
        ensures
            r == (self.model() == Map::<Seq<char>, Seq<char>>::empty()),
    {
        let e = self.pairs.len() == 0;
        proof {
            if e {
                assert(self.model() =~= Map::<Seq<char>, Seq<char>>::empty());
            } else {
                assert(self.model().contains_key(self.pairs@[0].0@));
            }
        }
        e
    }

    /// Whether an attribute with the given name exists.
    pub fn contains(&self, name: &str) -> (r: bool)
        requires
            self.wf(),
        ensures
            r == self.model().contains_key(name@),
    {
        let idx = self.find_index(name);
        idx.is_some()
    }

    /// The value of the attribute with the given name, if any.
    pub fn get(&self, name: &str) -> (r: Option<String>)
        requires
            self.wf(),
        ensures
            match r {
                Some(v) => self.model().contains_key(name@) && v@ == self.model()[name@],
                None => !self.model().contains_key(name@),
            },
    {
        match self.find_index(name) {
            Some(i) => Some(self.pairs[i].1.clone()),
            None => None,
        }
    }

    /// Inserts or replaces the attribute with the given name.
    pub fn insert(&mut self, name: &str, value: &str)
        requires
            old(self).wf(),
        ensures
            final(self).wf(),
            final(self).model() == old(self).model().insert(name@, value@),
    {
        let ghost m0 = self.model();
        let ghost p0 = self.pairs@;
        match self.find_index(name) {
            Some(i) => {
                self.pairs.set(i, (name.to_owned(), value.to_owned()));
                proof {
                    assert forall|a: int, b: int|
                        0 <= a < b < self.pairs@.len() implies self.pairs@[a].0@
                        != self.pairs@[b].0@ by {
                        assert(self.pairs@[a].0@ == p0[a].0@);
                        assert(self.pairs@[b].0@ == p0[b].0@);
                    }
                    assert forall|k: Seq<char>| self.model().contains_key(k) == m0.insert(
                        name@,
                        value@,
                    ).contains_key(k) by {
                        if self.model().contains_key(k) {
                            let j = choose|j: int|
                                0 <= j < self.pairs@.len() && self.pairs@[j].0@ == k;
                            assert(p0[j].0@ == k);
                        }
                        if m0.contains_key(k) {
                            let j = choose|j: int| 0 <= j < p0.len() && p0[j].0@ == k;
                            assert(self.pairs@[j].0@ == k);
                        }
                        if k == name@ {
                            assert(self.pairs@[i as int].0@ == k);
                        }
                    }
                    assert forall|k: Seq<char>| self.model().contains_key(k) implies self.model()[k]
                        == m0.insert(name@, value@)[k] by {
                        let j = choose|j: int|
                            0 <= j < self.pairs@.len() && self.pairs@[j].0@ == k;
                        if k == name@ {
                            assert(j == i);
                        } else {
                            assert(j != i);
                            assert(p0[j].0@ == k);
                            let j2 = choose|j2: int| 0 <= j2 < p0.len() && p0[j2].0@ == k;
                            assert(j2 == j);
                        }
                    }
                    assert(self.model() =~= m0.insert(name@, value@));
                }
            },
            None => {
                self.pairs.push((name.to_owned(), value.to_owned()));
                proof {
                    let n = p0.len() as int;
                    assert forall|a: int, b: int|
                        0 <= a < b < self.pairs@.len() implies self.pairs@[a].0@
                        != self.pairs@[b].0@ by {
                        if b < n {
                            assert(self.pairs@[a].0@ == p0[a].0@);
                            assert(self.pairs@[b].0@ == p0[b].0@);
                        } else {
                            assert(self.pairs@[b].0@ == name@);
                            assert(self.pairs@[a].0@ == p0[a].0@);
                            assert(!m0.contains_key(name@));
                        }
                    }
                    assert forall|k: Seq<char>| self.model().contains_key(k) == m0.insert(
                        name@,
                        value@,
                    ).contains_key(k) by {
                        if self.model().contains_key(k) {
                            let j = choose|j: int|
                                0 <= j < self.pairs@.len() && self.pairs@[j].0@ == k;
                            if j < n {
                                assert(p0[j].0@ == k);
                            } else {
                                assert(k == name@);
                            }
                        }
                        if m0.contains_key(k) {
                            let j = choose|j: int| 0 <= j < p0.len() && p0[j].0@ == k;
                            assert(self.pairs@[j].0@ == k);
                        }
                        if k == name@ {
                            assert(self.pairs@[n].0@ == k);
                        }
                    }
                    assert forall|k: Seq<char>| self.model().contains_key(k) implies self.model()[k]
                        == m0.insert(name@, value@)[k] by {
                        let j = choose|j: int|
                            0 <= j < self.pairs@.len() && self.pairs@[j].0@ == k;
                        if k == name@ {
                            assert(j == n);
                        } else {
                            assert(j < n);
                            assert(p0[j].0@ == k);
                            let j2 = choose|j2: int| 0 <= j2 < p0.len() && p0[j2].0@ == k;
                            assert(j2 == j);
                        }
                    }
                    assert(self.model() =~= m0.insert(name@, value@));
                }
            },
        }
    }

    /// Removes the attribute with the given name; does nothing if it is not
    /// there.
    pub fn remove(&mut self, name: &str)
        requires
            old(self).wf(),
        ensures
            final(self).wf(),
            final(self).model() == old(self).model().remove(name@),
    {
        let ghost m0 = self.model();
        let ghost p0 = self.pairs@;
        match self.find_index(name) {
            Some(i) => {
                self.pairs.remove(i);
                proof {
                    let n = self.pairs@.len() as int;
                    assert forall|a: int| 0 <= a < n implies #[trigger] self.pairs@[a] == if a
                        < i {
                        p0[a]
                    } else {
                        p0[a + 1]
                    } by {}
                    assert forall|a: int, b: int|
                        0 <= a < b < n implies self.pairs@[a].0@ != self.pairs@[b].0@ by {
                        let a0 = if a < i { a } else { a + 1 };
                        let b0 = if b < i { b } else { b + 1 };
                        assert(self.pairs@[a].0@ == p0[a0].0@);
                        assert(self.pairs@[b].0@ == p0[b0].0@);
                    }
                    assert forall|k: Seq<char>| self.model().contains_key(k) == m0.remove(
                        name@,
                    ).contains_key(k) by {
                        if self.model().contains_key(k) {
                            let j = choose|j: int| 0 <= j < n && self.pairs@[j].0@ == k;
                            let j0 = if j < i { j } else { j + 1 };
                            assert(p0[j0].0@ == k);
                            assert(j0 != i);
                            assert(k != name@) by {
                                assert(p0[i as int].0@ == name@);
                            }
                        }
                        if m0.contains_key(k) && k != name@ {
                            let j = choose|j: int| 0 <= j < p0.len() && p0[j].0@ == k;
                            assert(j != i);
                            if j < i {
                                assert(self.pairs@[j].0@ == k);
                            } else {
                                assert(self.pairs@[j - 1].0@ == k);
                            }
                        }
                    }
                    assert forall|k: Seq<char>| self.model().contains_key(k) implies self.model()[k]
                        == m0.remove(name@)[k] by {
                        let j = choose|j: int| 0 <= j < n && self.pairs@[j].0@ == k;
                        let j0 = if j < i { j } else { j + 1 };
                        assert(p0[j0].0@ == k && p0[j0].1@ == self.pairs@[j].1@);
                        let j2 = choose|j2: int| 0 <= j2 < p0.len() && p0[j2].0@ == k;
                        assert(j2 == j0);
                    }
                    assert(self.model() =~= m0.remove(name@));
                }
            },
            None => {
                proof {
                    assert(self.model() =~= m0.remove(name@));
                }
            },
        }
    }

    /// Removes all attributes.
    pub fn clear(&mut self)
        ensures
            final(self).wf(),
            final(self).model() == Map::<Seq<char>, Seq<char>>::empty(),
    {
        self.pairs.clear();
        proof {
            assert(self.model() =~= Map::<Seq<char>, Seq<char>>::empty());
        }
    }

    /// A copy of the attributes.
    pub fn duplicate(&self) -> (r: Self)
        requires
            self.wf(),
        ensures
            r.wf(),
            r.model() == self.model(),
    {
        let mut pairs: Vec<(String, String)> = Vec::new();
        let mut i: usize = 0;
        while i < self.pairs.len()
            invariant
                i <= self.pairs@.len(),
                pairs@.len() == i,
                forall|j: int|
                    0 <= j < i ==> #[trigger] pairs@[j].0@ == self.pairs@[j].0@ && pairs@[j].1@
                        == self.pairs@[j].1@,
            decreases self.pairs@.len() - i,
        {
            pairs.push((self.pairs[i].0.clone(), self.pairs[i].1.clone()));
            i = i + 1;
        }
        let r = Self { pairs };
        proof {
            assert(r.wf());
            assert forall|k: Seq<char>| r.model().contains_key(k) == self.model().contains_key(
                k,
            ) by {
                if r.model().contains_key(k) {
                    let i = choose|i: int| 0 <= i < r.pairs@.len() && r.pairs@[i].0@ == k;
                    assert(self.pairs@[i].0@ == k);
                }
                if self.model().contains_key(k) {
                    let i = choose|i: int| 0 <= i < self.pairs@.len() && self.pairs@[i].0@ == k;
                    assert(r.pairs@[i].0@ == k);
                }
            }
            assert forall|k: Seq<char>| r.model().contains_key(k) implies r.model()[k]
                == self.model()[k] by {
                let i = choose|i: int| 0 <= i < r.pairs@.len() && r.pairs@[i].0@ == k;
                let j = choose|j: int| 0 <= j < self.pairs@.len() && self.pairs@[j].0@ == k;
                assert(self.pairs@[i].0@ == k);
                assert(i == j);
            }
            assert(r.model() =~= self.model());
        }
        r
    }

    /// Whether two attribute maps hold the same attributes, regardless of
    /// order.
    pub fn same_attributes(&self, other: &Self) -> (r: bool)
        requires
            self.wf(),
            other.wf(),
        ensures
            r == (self.model() == other.model()),
    {
        let mut i: usize = 0;
        while i < self.pairs.len()
            invariant
                self.wf(),
                other.wf(),
                i <= self.pairs@.len(),
                forall|j: int|
                    0 <= j < i ==> other.model().contains_key(#[trigger] self.pairs@[j].0@)
                        && other.model()[self.pairs@[j].0@] == self.pairs@[j].1@,
            decreases self.pairs@.len() - i,
        {
            let name = &self.pairs[i].0;
            match other.get(name.as_str()) {
                Some(v) => {
                    if !str_eq(v.as_str(), self.pairs[i].1.as_str()) {
                        proof {
                            assert(self.model().contains_key(self.pairs@[i as int].0@));
                            assert(self.model()[self.pairs@[i as int].0@] == self.pairs@[i as int].1@);
                        }
                        return false;
                    }
                },
                None => {
                    proof {
                        assert(self.model().contains_key(self.pairs@[i as int].0@));
                    }
                    return false;
                },
            }
            i = i + 1;
        }
        let mut k: usize = 0;
        while k < other.pairs.len()
            invariant
                self.wf(),
                other.wf(),
                k <= other.pairs@.len(),
                forall|j: int|
                    0 <= j < self.pairs@.len() ==> other.model().contains_key(
                        #[trigger] self.pairs@[j].0@,
                    ) && other.model()[self.pairs@[j].0@] == self.pairs@[j].1@,
                forall|j: int|
                    0 <= j < k ==> self.model().contains_key(#[trigger] other.pairs@[j].0@),
            decreases other.pairs@.len() - k,
        {
            let name = &other.pairs[k].0;
            if !self.contains(name.as_str()) {
                proof {
                    assert(other.model().contains_key(other.pairs@[k as int].0@));
                }
                return false;
            }
            k = k + 1;
        }
        proof {
            assert forall|key: Seq<char>| self.model().contains_key(key) implies other
                .model().contains_key(key) && other.model()[key] == self.model()[key] by {
                let i = choose|i: int|
                    0 <= i < self.pairs@.len() && self.pairs@[i].0@ == key;
                assert(other.model().contains_key(self.pairs@[i].0@));
                assert(self.model()[key] == self.pairs@[i].1@);
            }
            assert forall|key: Seq<char>| other.model().contains_key(key) implies self
                .model().contains_key(key) by {
                let i = choose|i: int|
                    0 <= i < other.pairs@.len() && other.pairs@[i].0@ == key;
                assert(self.model().contains_key(other.pairs@[i].0@));
            }
            assert(self.model() =~= other.model());
        }
        true
    }

    /// The position of the attribute with the given name in the vector.
    fn find_index(&self, name: &str) -> (r: Option<usize>)
        requires
            self.wf(),
        ensures
            match r {
                Some(i) => i < self.pairs@.len() && self.pairs@[i as int].0@ == name@
                    && self.model().contains_key(name@) && self.model()[name@]
                    == self.pairs@[i as int].1@,
                None => !self.model().contains_key(name@),
            },
    {
        let mut i: usize = 0;
        while i < self.pairs.len()
            invariant
                self.wf(),
                i <= self.pairs@.len(),
                forall|j: int| 0 <= j < i ==> #[trigger] self.pairs@[j].0@ != name@,
            decreases self.pairs@.len() - i,
        {
            if str_eq(self.pairs[i].0.as_str(), name) {
                proof {
                    assert(self.model().contains_key(name@));
                    let k = choose|k: int| 0 <= k < self.pairs@.len() && self.pairs@[k].0@ == name@;
                    if k < i {
                        assert(self.pairs@[k].0@ != self.pairs@[i as int].0@);
                    }
                    if i < k {
                        assert(self.pairs@[i as int].0@ != self.pairs@[k].0@);
                    }
                    assert(k == i);
                }
                return Some(i);
            }
            i = i + 1;
        }
        proof {
            if self.model().contains_key(name@) {
                let k = choose|k: int| 0 <= k < self.pairs@.len() && self.pairs@[k].0@ == name@;
                assert(false);
            }
        }
        None
    }
}

/// Data of an element node: its tag name and its attributes.
pub struct ElementData {
    /// Name of the element, such as `div`.
    pub name: String,
    /// The element's attributes.
    pub attributes: ElementAttributes,
}

impl ElementData {
    /// Creates element data with the given name and attributes.
    pub fn with_name_and_attributes(name: &str, attributes: ElementAttributes) -> (r: Self)
        ensures
            r.name@ == name@,
            r.attributes == attributes,
    {
        Self { name: name.to_owned(), attributes }
    }
}

/// The data carried by a node, by node type.
pub enum NodeData {
    /// A document node.
    Document(DocumentData),
    /// A text node.
    Text(TextData),
    /// A comment node.
    Comment(CommentData),
    /// An element node.
    Element(Box<ElementData>),
}

/// Mathematical content of node data.
pub ghost enum NodeDataModel {
    Document,
    Text(Seq<char>),
    Comment(Seq<char>),
    Element(Seq<char>, Map<Seq<char>, Seq<char>>),
}

impl NodeData {
    /// The node data as a mathematical value.
    pub open spec fn model(&self) -> NodeDataModel {
        match self {
            NodeData::Document(_) => NodeDataModel::Document,
            NodeData::Text(t) => NodeDataModel::Text(t.value@),
            NodeData::Comment(c) => NodeDataModel::Comment(c.value@),
            NodeData::Element(e) => NodeDataModel::Element(e.name@, e.attributes.model()),
        }
    }

    /// The node type that this data belongs to.
    pub open spec fn spec_type(&self) -> NodeType {
        match self {
            NodeData::Document(_) => NodeType::Document,
            NodeData::Text(_) => NodeType::Text,
            NodeData::Comment(_) => NodeType::Comment,
            NodeData::Element(_) => NodeType::Element,
        }
    }

    /// The attributes of element data are well formed.
    pub open spec fn wf(&self) -> bool {
        match self {
            NodeData::Element(e) => e.attributes.wf(),
            _ => true,
        }
    }
}

/// A document.  The library keeps no document-wide state; a handle marks
/// which document a node belongs to.
pub struct Document {}

/// A shared handle to a document.
pub struct DocumentHandle {}

impl Document {
    /// Creates a shared handle to a new document.
    pub fn shared() -> (r: DocumentHandle) {
        DocumentHandle {  }
    }
}

impl Clone for DocumentHandle {
    fn clone(&self) -> (r: Self) {
        DocumentHandle {  }
    }
}

/// A node of the document tree.
pub struct Node {
    /// Id of the node; 0 is always the root document node.
    pub id: NodeId,
    /// Named id of the node, from the `id` attribute on an HTML element.
    pub named_id: Option<String>,
    /// Parent of the node, if any.
    pub parent: Option<NodeId>,
    /// Children of the node.
    pub children: Vec<NodeId>,
    /// Name of the node, or empty when it is not a tag.
    pub name: String,
    /// Namespace of the node.
    pub namespace: Option<String>,
    /// Actual data of the node.
    pub data: NodeData,
    /// The document this node is attached to.
    pub document: DocumentHandle,
    /// True when the node is registered in an arena.
    pub is_registered: bool,
}

/// The trait through which a node reports its type.
pub trait NodeTrait {
    /// The node type, for specifications.
    spec fn spec_type_of(&self) -> NodeType;

    /// Returns the type of the node.
    fn type_of(&self) -> (t: NodeType)
        ensures
            t == self.spec_type_of(),
    ;
}

impl NodeTrait for Node {
    open spec fn spec_type_of(&self) -> NodeType {
        self.data.spec_type()
    }

    fn type_of(&self) -> (t: NodeType) {
        match self.data {
            NodeData::Document(_) => NodeType::Document,
            NodeData::Text(_) => NodeType::Text,
            NodeData::Comment(_) => NodeType::Comment,
            NodeData::Element(_) => NodeType::Element,
        }
    }
}

impl Node {
    /// The namespace as a character sequence, if any.
    pub open spec fn ns_model(&self) -> Option<Seq<char>> {
        match self.namespace {
            Some(ref s) => Some(s@),
            None => None,
        }
    }

    /// The named id as a character sequence, if any.
    pub open spec fn named_id_model(&self) -> Option<Seq<char>> {
        match self.named_id {
            Some(ref s) => Some(s@),
            None => None,
        }
    }

    /// The node's attributes are well formed.
    pub open spec fn wf(&self) -> bool {
        self.data.wf()
    }

    /// Creates a new document node.
    pub fn new_document(document: &DocumentHandle) -> (r: Self)
        ensures
            r.id.0 == 0,
            r.named_id is None,
            r.parent is None,
            r.children@.len() == 0,
            r.name@ == Seq::<char>::empty(),
            r.ns_model() is None,
            r.data.model() == NodeDataModel::Document,
            !r.is_registered,
            r.wf(),
    {
        Node {
            id: NodeId::default(),
            named_id: None,
            parent: None,
            children: Vec::new(),
            data: NodeData::Document(DocumentData::new()),
            name: String::new(),
            namespace: None,
            document: document.clone(),
            is_registered: false,
        }
    }

    /// Creates a new element node with the given name, attributes and
    /// namespace.
    pub fn new_element(
        document: &DocumentHandle,
        name: &str,
        attributes: ElementAttributes,
        namespace: &str,
    ) -> (r: Self)
        requires
            attributes.wf(),
        ensures
            r.id.0 == 0,
            r.named_id is None,
            r.parent is None,
            r.children@.len() == 0,
            r.name@ == name@,
            r.ns_model() == Some(namespace@),
            r.data.model() == NodeDataModel::Element(name@, attributes.model()),
            r.spec_type_of() == NodeType::Element,
            !r.is_registered,
            r.wf(),
    {
        Node {
            id: NodeId::default(),
            named_id: None,
            parent: None,
            children: Vec::new(),
            data: NodeData::Element(
                Box::new(ElementData::with_name_and_attributes(name, attributes)),
            ),
            name: name.to_owned(),
            namespace: Some(namespace.to_owned()),
            document: document.clone(),
            is_registered: false,
        }
    }

    /// Creates a new comment node.
    pub fn new_comment(document: &DocumentHandle, value: &str) -> (r: Self)
        ensures
            r.id.0 == 0,
            r.named_id is None,
            r.parent is None,
            r.children@.len() == 0,
            r.name@ == Seq::<char>::empty(),
            r.ns_model() is None,
            r.data.model() == NodeDataModel::Comment(value@),
            !r.is_registered,
            r.wf(),
    {
        Node {
            id: NodeId::default(),
            named_id: None,
            parent: None,
            children: Vec::new(),
            data: NodeData::Comment(CommentData::with_value(value)),
            name: String::new(),
            namespace: None,
            document: document.clone(),
            is_registered: false,
        }
    }

    /// Creates a new text node.
    pub fn new_text(document: &DocumentHandle, value: &str) -> (r: Self)
        ensures
            r.id.0 == 0,
            r.named_id is None,
            r.parent is None,
            r.children@.len() == 0,
            r.name@ == Seq::<char>::empty(),
            r.ns_model() is None,
            r.data.model() == NodeDataModel::Text(value@),
            !r.is_registered,
            r.wf(),
    {
        Node {
            id: NodeId::default(),
            named_id: None,
            parent: None,
            children: Vec::new(),
            data: NodeData::Text(TextData::with_value(value)),
            name: String::new(),
            namespace: None,
            document: document.clone(),
            is_registered: false,
        }
    }

    /// Returns true when the node is of the given namespace.
    pub fn is_namespace(&self, namespace: &str) -> (r: bool)
        ensures
            r == (self.ns_model() == Some(namespace@)),
    {
        match &self.namespace {
            Some(ns) => str_eq(ns.as_str(), namespace),
            None => false,
        }
    }

    /// Whether the node is an HTML integration point: an `annotation-xml`
    /// MathML element whose `encoding` attribute is `text/html` or
    /// `application/xhtml+xml`, or one of the SVG elements `foreignObject`,
    /// `desc` and `title`.
    pub fn is_html_integration_point(&self) -> (r: bool)
        requires
            self.wf(),
        ensures
            r == (self.spec_html_integration_point() || (self.ns_model() == Some(SVG_NAMESPACE@)
                && seq_in_list(self.name@, spec_special_svg_elements()))),
    {
        let mathml = self.is_namespace(MATHML_NAMESPACE);
        if mathml && str_eq(self.name.as_str(), "annotation-xml") {
            if let NodeData::Element(element) = &self.data {
                match element.attributes.get("encoding") {
                    Some(value) => {
                        let lowered = to_lower(value.as_str());
                        if str_eq(lowered.as_str(), "text/html") {
                            return true;
                        }
                        if str_eq(lowered.as_str(), "application/xhtml+xml") {
                            return true;
                        }
                    },
                    None => {},
                }
            }
        }
        let svg = self.is_namespace(SVG_NAMESPACE);
        svg && str_in_list(self.name.as_str(), &special_svg_elements())
    }

    /// The MathML `annotation-xml` half of the HTML integration point check.
    pub open spec fn spec_html_integration_point(&self) -> bool {
        &&& self.ns_model() == Some(MATHML_NAMESPACE@)
        &&& self.name@ == "annotation-xml"@
        &&& match self.data.model() {
            NodeDataModel::Element(_, attrs) => attrs.contains_key("encoding"@) && (lower_seq(
                attrs["encoding"@],
            ) == "text/html"@ || lower_seq(attrs["encoding"@]) == "application/xhtml+xml"@),
            _ => false,
        }
    }

    /// Whether the node is a MathML text integration point: one of the MathML
    /// elements `mi`, `mo`, `mn`, `ms` and `mtext`.
    pub fn is_mathml_integration_point(&self) -> (r: bool)
        ensures
            r == (self.ns_model() == Some(MATHML_NAMESPACE@) && seq_in_list(
                self.name@,
                seq!["mi"@, "mo"@, "mn"@, "ms"@, "mtext"@],
            )),
    {
        let mut names: Vec<String> = Vec::new();
        names.push("mi".to_owned());
        names.push("mo".to_owned());
        names.push("mn".to_owned());
        names.push("ms".to_owned());
        names.push("mtext".to_owned());
        proof {
            assert(names.deep_view() =~= seq!["mi"@, "mo"@, "mn"@, "ms"@, "mtext"@]);
        }
        let mathml = self.is_namespace(MATHML_NAMESPACE);
        mathml && str_in_list(self.name.as_str(), &names)
    }

    /// Compares the tag, namespace and data of two nodes, with element
    /// attributes compared without regard to order.  Parents and children are
    /// not compared.
    pub fn matches_tag_and_attrs_without_order(&self, other: &Self) -> (r: bool)
        requires
            self.wf(),
            other.wf(),
        ensures
            r == (self.name@ == other.name@ && self.ns_model() == other.ns_model()
                && self.spec_type_of() == other.spec_type_of() && (if self.spec_type_of()
                == NodeType::Element {
                self.data.model()->Element_1 == other.data.model()->Element_1
            } else {
                self.data.model() == other.data.model()
            })),
    {
        if !str_eq(self.name.as_str(), other.name.as_str()) {
            return false;
        }
        let ns_eq = match (&self.namespace, &other.namespace) {
            (Some(a), Some(b)) => str_eq(a.as_str(), b.as_str()),
            (None, None) => true,
            _ => false,
        };
        if !ns_eq {
            return false;
        }
        let t1 = self.type_of();
        let t2 = other.type_of();
        if t1 != t2 {
            return false;
        }
        match (&self.data, &other.data) {
            (NodeData::Element(e1), NodeData::Element(e2)) => e1.attributes.same_attributes(
                &e2.attributes,
            ),
            (NodeData::Text(a), NodeData::Text(b)) => str_eq(a.value.as_str(), b.value.as_str()),
            (NodeData::Comment(a), NodeData::Comment(b)) => str_eq(
                a.value.as_str(),
                b.value.as_str(),
            ),
            (NodeData::Document(_), NodeData::Document(_)) => true,
            _ => false,
        }
    }

    /// Whether the node is a formatting element.
    pub fn is_formatting(&self) -> (r: bool)
        ensures
            r == (self.ns_model() == Some(HTML_NAMESPACE@) && seq_in_list(
                self.name@,
                spec_formatting_html_elements(),
            )),
    {
        let html = self.is_namespace(HTML_NAMESPACE);
        html && str_in_list(self.name.as_str(), &formatting_html_elements())
    }

    /// Whether the node is a special element, given its namespace and name.
    pub fn is_special(&self) -> (r: bool)
        ensures
            r == ((self.ns_model() == Some(HTML_NAMESPACE@) && seq_in_list(
                self.name@,
                spec_special_html_elements(),
            )) || (self.ns_model() == Some(MATHML_NAMESPACE@) && seq_in_list(
                self.name@,
                spec_special_mathml_elements(),
            )) || (self.ns_model() == Some(SVG_NAMESPACE@) && seq_in_list(
                self.name@,
                spec_special_svg_elements(),
            ))),
    {
        if self.is_namespace(HTML_NAMESPACE) && str_in_list(
            self.name.as_str(),
            &special_html_elements(),
        ) {
            return true;
        }
        if self.is_namespace(MATHML_NAMESPACE) && str_in_list(
            self.name.as_str(),
            &special_mathml_elements(),
        ) {
            return true;
        }
        if self.is_namespace(SVG_NAMESPACE) && str_in_list(
            self.name.as_str(),
            &special_svg_elements(),
        ) {
            return true;
        }
        false
    }

    /// Whether the node has a named id.  Only element nodes can.
    pub fn has_named_id(&self) -> (r: bool)
        ensures
            r == (self.spec_type_of() == NodeType::Element && self.named_id is Some),
    {
        if !matches!(self.type_of(), NodeType::Element) {
            return false;
        }
        self.named_id.is_some()
    }

    /// Sets the named id and mirrors it in the `id` attribute.  Does nothing
    /// on non-element nodes.
    pub fn set_named_id(&mut self, named_id: &str)
        requires
            old(self).wf(),
        ensures
            final(self).wf(),
            final(self).id == old(self).id,
            final(self).name@ == old(self).name@,
            final(self).ns_model() == old(self).ns_model(),
            final(self).spec_type_of() == old(self).spec_type_of(),
            final(self).parent == old(self).parent,
            final(self).children@ == old(self).children@,
            final(self).is_registered == old(self).is_registered,
            final(self).document == old(self).document,
            if old(self).spec_type_of() == NodeType::Element {
                final(self).named_id_model() == Some(named_id@) && final(self).data.model()
                    == NodeDataModel::Element(
                    old(self).data.model()->Element_0,
                    old(self).data.model()->Element_1.insert("id"@, named_id@),
                )
            } else {
                final(self).named_id_model() == old(self).named_id_model()
                    && final(self).data.model() == old(self).data.model()
            },
    {
        if matches!(self.type_of(), NodeType::Element) {
            self.named_id = Some(named_id.to_owned());
            if let NodeData::Element(element) = &mut self.data {
                element.attributes.insert("id", named_id);
            }
        }
    }

    /// The named id, if the node is an element and has one.
    pub fn get_named_id(&self) -> (r: Option<String>)
        ensures
            match r {
                Some(s) => self.spec_type_of() == NodeType::Element && self.named_id_model()
                    == Some(s@),
                None => !(self.spec_type_of() == NodeType::Element && self.named_id is Some),
            },
    {
        if !matches!(self.type_of(), NodeType::Element) {
            return None;
        }
        if !self.has_named_id() {
            return None;
        }
        match &self.named_id {
            Some(s) => Some(s.clone()),
            None => None,
        }
    }

    /// Whether this node is registered in an arena.
    pub fn is_registered(&self) -> (r: bool)
        ensures
            r == self.is_registered,
    {
        self.is_registered
    }
}

/// The formatting html elements table, as character sequences.
pub open spec fn spec_formatting_html_elements() -> Seq<Seq<char>> {
    seq!["a"@, "b"@, "big"@, "code"@, "em"@, "font"@, "i"@, "nobr"@, "s"@, "small"@, "strike"@, "strong"@, "tt"@, "u"@]
}

/// The formatting html elements table.
pub fn formatting_html_elements() -> (r: Vec<String>)
    ensures
        r.deep_view() == spec_formatting_html_elements(),
{
    let mut v: Vec<String> = Vec::new();
    v.push("a".to_owned());
    v.push("b".to_owned());
    v.push("big".to_owned());
    v.push("code".to_owned());
    v.push("em".to_owned());
    v.push("font".to_owned());
    v.push("i".to_owned());
    v.push("nobr".to_owned());
    v.push("s".to_owned());
    v.push("small".to_owned());
    v.push("strike".to_owned());
    v.push("strong".to_owned());
    v.push("tt".to_owned());
    v.push("u".to_owned());
    proof {
        assert(v.deep_view() =~= spec_formatting_html_elements());
    }
    v
}

/// The special html elements table, as character sequences.
pub open spec fn spec_special_html_elements() -> Seq<Seq<char>> {
    seq!["address"@, "applet"@, "area"@, "article"@, "aside"@, "base"@, "basefont"@, "bgsound"@, "blockquote"@, "body"@, "br"@, "button"@, "caption"@, "center"@, "col"@, "colgroup"@, "dd"@, "details"@, "dir"@, "div"@, "dl"@, "dt"@, "embed"@, "fieldset"@, "figcaption"@, "figure"@, "footer"@, "form"@, "frame"@, "frameset"@, "h1"@, "h2"@, "h3"@, "h4"@, "h5"@, "h6"@, "head"@, "header"@, "hgroup"@, "hr"@, "html"@, "iframe"@, "img"@, "input"@, "keygen"@, "li"@, "link"@, "listing"@, "main"@, "marquee"@, "menu"@, "meta"@, "nav"@, "noembed"@, "noframes"@, "noscript"@, "object"@, "ol"@, "p"@, "param"@, "plaintext"@, "pre"@, "script"@, "search"@, "section"@, "select"@, "source"@, "style"@, "summary"@, "table"@, "tbody"@, "td"@, "template"@, "textarea"@, "tfoot"@, "th"@, "thead"@, "title"@, "tr"@, "track"@, "ul"@, "wbr"@, "xmp"@]
}

/// The special html elements table.
pub fn special_html_elements() -> (r: Vec<String>)
    ensures
        r.deep_view() == spec_special_html_elements(),
{
    let mut v: Vec<String> = Vec::new();
    v.push("address".to_owned());
    v.push("applet".to_owned());
    v.push("area".to_owned());
    v.push("article".to_owned());
    v.push("aside".to_owned());
    v.push("base".to_owned());
    v.push("basefont".to_owned());
    v.push("bgsound".to_owned());
    v.push("blockquote".to_owned());
    v.push("body".to_owned());
    v.push("br".to_owned());
    v.push("button".to_owned());
    v.push("caption".to_owned());
    v.push("center".to_owned());
    v.push("col".to_owned());
    v.push("colgroup".to_owned());
    v.push("dd".to_owned());
    v.push("details".to_owned());
    v.push("dir".to_owned());
    v.push("div".to_owned());
    v.push("dl".to_owned());
    v.push("dt".to_owned());
    v.push("embed".to_owned());
    v.push("fieldset".to_owned());
    v.push("figcaption".to_owned());
    v.push("figure".to_owned());
    v.push("footer".to_owned());
    v.push("form".to_owned());
    v.push("frame".to_owned());
    v.push("frameset".to_owned());
    v.push("h1".to_owned());
    v.push("h2".to_owned());
    v.push("h3".to_owned());
    v.push("h4".to_owned());
    v.push("h5".to_owned());
    v.push("h6".to_owned());
    v.push("head".to_owned());
    v.push("header".to_owned());
    v.push("hgroup".to_owned());
    v.push("hr".to_owned());
    v.push("html".to_owned());
    v.push("iframe".to_owned());
    v.push("img".to_owned());
    v.push("input".to_owned());
    v.push("keygen".to_owned());
    v.push("li".to_owned());
    v.push("link".to_owned());
    v.push("listing".to_owned());
    v.push("main".to_owned());
    v.push("marquee".to_owned());
    v.push("menu".to_owned());
    v.push("meta".to_owned());
    v.push("nav".to_owned());
    v.push("noembed".to_owned());
    v.push("noframes".to_owned());
    v.push("noscript".to_owned());
    v.push("object".to_owned());
    v.push("ol".to_owned());
    v.push("p".to_owned());
    v.push("param".to_owned());
    v.push("plaintext".to_owned());
    v.push("pre".to_owned());
    v.push("script".to_owned());
    v.push("search".to_owned());
    v.push("section".to_owned());
    v.push("select".to_owned());
    v.push("source".to_owned());
    v.push("style".to_owned());
    v.push("summary".to_owned());
    v.push("table".to_owned());
    v.push("tbody".to_owned());
    v.push("td".to_owned());
    v.push("template".to_owned());
    v.push("textarea".to_owned());
    v.push("tfoot".to_owned());
    v.push("th".to_owned());
    v.push("thead".to_owned());
    v.push("title".to_owned());
    v.push("tr".to_owned());
    v.push("track".to_owned());
    v.push("ul".to_owned());
    v.push("wbr".to_owned());
    v.push("xmp".to_owned());
    proof {
        assert(v.deep_view() =~= spec_special_html_elements());
    }
    v
}

/// The special mathml elements table, as character sequences.
pub open spec fn spec_special_mathml_elements() -> Seq<Seq<char>> {
    seq!["mi"@, "mo"@, "mn"@, "ms"@, "mtext"@, "annotation-xml"@]
}

/// The special mathml elements table.
pub fn special_mathml_elements() -> (r: Vec<String>)
    ensures
        r.deep_view() == spec_special_mathml_elements(),
{
    let mut v: Vec<String> = Vec::new();
    v.push("mi".to_owned());
    v.push("mo".to_owned());
    v.push("mn".to_owned());
    v.push("ms".to_owned());
    v.push("mtext".to_owned());
    v.push("annotation-xml".to_owned());
    proof {
        assert(v.deep_view() =~= spec_special_mathml_elements());
    }
    v
}

/// The special svg elements table, as character sequences.
pub open spec fn spec_special_svg_elements() -> Seq<Seq<char>> {
    seq!["foreignObject"@, "desc"@, "title"@]
}

/// The special svg elements table.
pub fn special_svg_elements() -> (r: Vec<String>)
    ensures
        r.deep_view() == spec_special_svg_elements(),
{
    let mut v: Vec<String> = Vec::new();
    v.push("foreignObject".to_owned());
    v.push("desc".to_owned());
    v.push("title".to_owned());
    proof {
        assert(v.deep_view() =~= spec_special_svg_elements());
    }
    v
}


} // verus!
