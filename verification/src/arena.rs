//! The node arena: nodes are stored under their ids; attaching keeps the
//! tree acyclic, and removing a node removes its whole subtree.

use vstd::prelude::*;

use vstd::pervasive::VecAdditionalExecFns;

use crate::dom::{Node, NodeDataModel, NodeId};

verus! {

/// Mathematical content of a stored node.
pub ghost struct NodeModel {
    pub id: NodeId,
    pub named_id: Option<Seq<char>>,
    pub parent: Option<NodeId>,
    pub children: Seq<NodeId>,
    pub name: Seq<char>,
    pub namespace: Option<Seq<char>>,
    pub data: NodeDataModel,
    pub is_registered: bool,
}

impl Node {
    /// The node as a mathematical value.
    pub open spec fn arena_model(&self) -> NodeModel {
        NodeModel {
            id: self.id,
            named_id: self.named_id_model(),
            parent: self.parent,
            children: self.children@,
            name: self.name@,
            namespace: self.ns_model(),
            data: self.data.model(),
            is_registered: self.is_registered,
        }
    }
}

/// The slots of an arena: one optional node per id.
pub open spec fn slots_model(nodes: Seq<Option<Node>>) -> Seq<Option<NodeModel>> {
    nodes.map_values(
        |n: Option<Node>|
            match n {
                Option::Some(node) => Option::Some(node.arena_model()),
                Option::None => Option::None,
            },
    )
}

/// The child list without the given id, in order.
pub open spec fn child_filter(children: Seq<NodeId>, id: NodeId) -> Seq<NodeId> {
    children.filter(|c: NodeId| c != id)
}

/// The slot of an id in an arena model.
pub open spec fn slot_of(slots: Seq<Option<NodeModel>>, id: NodeId) -> Option<NodeModel> {
    if 0 <= id.0 < slots.len() {
        slots[id.0 as int]
    } else {
        Option::None
    }
}

/// How many slots are filled.
pub open spec fn filled(slots: Seq<Option<NodeModel>>) -> nat
    decreases slots,
{
    if slots.len() == 0 {
        0
    } else {
        (match slots[0] {
            Option::Some(_) => 1nat,
            Option::None => 0nat,
        }) + filled(slots.subrange(1, slots.len() as int))
    }
}

/// Filled-slot counting is pointwise.
pub proof fn lemma_filled(slots: Seq<Option<NodeModel>>, other: Seq<Option<NodeModel>>)
    requires
        slots.len() == other.len(),
        forall|i: int| 0 <= i < slots.len() ==> (slots[i] is Some) == (other[i] is Some),
    ensures
        filled(slots) == filled(other),
    decreases slots,
{
    if slots.len() > 0 {
        assert(slots.subrange(1, slots.len() as int).len() == other.subrange(
            1,
            other.len() as int,
        ).len());
        lemma_filled(slots.subrange(1, slots.len() as int), other.subrange(1, other.len() as int));
    }
}

/// Emptying one filled slot lowers the filled count by one.
pub proof fn lemma_filled_update(slots: Seq<Option<NodeModel>>, i: int)
    requires
        0 <= i < slots.len(),
        slots[i] is Some,
    ensures
        filled(slots.update(i, Option::None)) == filled(slots) - 1,
    decreases slots,
{
    if slots.len() > 0 {
        if i == 0 {
            assert(slots.update(0, Option::None::<NodeModel>).subrange(
                1,
                slots.len() as int,
            ) =~= slots.subrange(1, slots.len() as int));
        } else {
            assert(slots.update(i, Option::None::<NodeModel>).subrange(1, slots.len() as int)
                =~= slots.subrange(1, slots.len() as int).update(i - 1, Option::None));
            assert(slots.update(i, Option::None::<NodeModel>)[0] == slots[0]);
            lemma_filled_update(slots.subrange(1, slots.len() as int), i - 1);
        }
    }
}

/// Replacing a filled slot with another filled node keeps the count.
pub proof fn lemma_filled_update_same(slots: Seq<Option<NodeModel>>, i: int, m: NodeModel)
    requires
        0 <= i < slots.len(),
        slots[i] is Some,
    ensures
        filled(slots.update(i, Option::Some(m))) == filled(slots),
{
    lemma_filled(slots.update(i, Option::Some(m)), slots);
}

/// Removal of a node and its whole subtree, mathematically: a missing node
/// removes nothing; otherwise the node's slot is emptied, its children are
/// removed in order, and the node's id is retained out of its parent's
/// child list when the parent is still there.
pub open spec fn sp_remove(slots: Seq<Option<NodeModel>>, id: NodeId) -> Seq<Option<NodeModel>>
    decreases filled(slots), 1int, 0int,
{
    match slot_of(slots, id) {
        Option::None => slots,
        Option::Some(node) => {
            let slots1 = slots.update(id.0 as int, Option::None);
            let slots2 = if filled(slots1) < filled(slots) {
                sp_remove_all(slots1, node.children, 0)
            } else {
                slots1
            };
            match node.parent {
                Option::Some(pid) => match slot_of(slots2, pid) {
                    Option::Some(pnode) => slots2.update(
                        pid.0 as int,
                        Option::Some(
                            NodeModel { children: child_filter(pnode.children, id), ..pnode },
                        ),
                    ),
                    Option::None => slots2,
                },
                Option::None => slots2,
            }
        },
    }
}

/// Removal of a list of subtrees, in order.
pub open spec fn sp_remove_all(
    slots: Seq<Option<NodeModel>>,
    ids: Seq<NodeId>,
    i: int,
) -> Seq<Option<NodeModel>>
    decreases filled(slots), 2int, ids.len() - i,
{
    if i < 0 || i >= ids.len() {
        slots
    } else {
        let slots1 = sp_remove(slots, ids[i]);
        if filled(slots1) <= filled(slots) {
            sp_remove_all(slots1, ids, i + 1)
        } else {
            slots
        }
    }
}

/// Removal never fills a slot: every slot empty before stays empty, and the
/// filled count never grows.
pub proof fn lemma_remove_le(slots: Seq<Option<NodeModel>>, id: NodeId)
    ensures
        sp_remove(slots, id).len() == slots.len(),
        filled(sp_remove(slots, id)) <= filled(slots),
    decreases filled(slots), 1int, 0int,
{
    match slot_of(slots, id) {
        Option::None => {},
        Option::Some(node) => {
            let slots1 = slots.update(id.0 as int, Option::None);
            lemma_filled_update(slots, id.0 as int);
            lemma_remove_all_le(slots1, node.children, 0);
            let slots2 = sp_remove_all(slots1, node.children, 0);
            assert(filled(slots1) < filled(slots));
            match node.parent {
                Option::Some(pid) => {
                    match slot_of(slots2, pid) {
                        Option::Some(pnode) => {
                            lemma_filled_update_same(
                                slots2,
                                pid.0 as int,
                                NodeModel { children: child_filter(pnode.children, id), ..pnode },
                            );
                            assert(sp_remove(slots, id) == slots2.update(
                                pid.0 as int,
                                Option::Some(
                                    NodeModel {
                                        children: child_filter(pnode.children, id),
                                        ..pnode
                                    },
                                ),
                            ));
                        },
                        Option::None => {
                            assert(sp_remove(slots, id) == slots2);
                        },
                    }
                },
                Option::None => {
                    assert(sp_remove(slots, id) == slots2);
                },
            }
        },
    }
}

/// Removal of a list never grows the filled count.
pub proof fn lemma_remove_all_le(slots: Seq<Option<NodeModel>>, ids: Seq<NodeId>, i: int)
    ensures
        sp_remove_all(slots, ids, i).len() == slots.len(),
        filled(sp_remove_all(slots, ids, i)) <= filled(slots),
    decreases filled(slots), 2int, ids.len() - i,
{
    if 0 <= i < ids.len() {
        lemma_remove_le(slots, ids[i]);
        let slots1 = sp_remove(slots, ids[i]);
        if filled(slots1) <= filled(slots) {
            lemma_remove_all_le(slots1, ids, i + 1);
        }
    }
}

/// Whether `child_id` is reachable from the children of the given node
/// within the given depth budget.
pub open spec fn sp_has_child(
    slots: Seq<Option<NodeModel>>,
    parent: Option<NodeModel>,
    child_id: NodeId,
    fuel: nat,
) -> bool
    decreases fuel, 2int, 0int,
{
    match parent {
        Option::None => false,
        Option::Some(p) => sp_scan_children(slots, p.children, 0, child_id, fuel),
    }
}

/// Scans a child list: a direct hit, or a hit through a child's own
/// subtree with one less fuel.
pub open spec fn sp_scan_children(
    slots: Seq<Option<NodeModel>>,
    children: Seq<NodeId>,
    i: int,
    child_id: NodeId,
    fuel: nat,
) -> bool
    decreases fuel, 1int, children.len() - i,
{
    if i < 0 || i >= children.len() {
        false
    } else if children[i] == child_id {
        true
    } else if fuel > 0 && sp_has_child(slots, slot_of(slots, children[i]), child_id, (fuel
        - 1) as nat) {
        true
    } else {
        sp_scan_children(slots, children, i + 1, child_id, fuel)
    }
}

/// An arena of nodes: a node's id is its position; removed slots stay
/// empty, and the next added node takes the next fresh id.
pub struct NodeArena {
    /// The node slots; the slot of a removed node is empty.
    nodes: Vec<Option<Node>>,
}

impl NodeArena {
    /// The arena's slots, as mathematical values.
    pub closed spec fn model(&self) -> Seq<Option<NodeModel>> {
        slots_model(self.nodes@)
    }

    /// Every stored node's id is its slot position.
    pub closed spec fn wf(&self) -> bool {
        forall|i: int|
            0 <= i < self.nodes@.len() ==> match #[trigger] self.nodes@[i] {
                Option::Some(n) => n.id.0 == i,
                Option::None => true,
            }
    }

    /// Creates a new, empty arena.
    pub fn new() -> (r: Self)
        ensures
            r.model() == Seq::<Option<NodeModel>>::empty(),
            r.wf(),
    {
        let r = NodeArena { nodes: Vec::new() };
        proof {
            assert(r.model() =~= Seq::<Option<NodeModel>>::empty());
        }
        r
    }

    /// The node with the given id, if it is there.
    pub fn get_node(&self, node_id: NodeId) -> (r: Option<&Node>)
        ensures
            match r {
                Option::Some(n) => slot_of(self.model(), node_id) == Option::Some(n.arena_model()),
                Option::None => slot_of(self.model(), node_id) is None,
            },
    {
        if node_id.0 < self.nodes.len() {
            self.nodes[node_id.0].as_ref()
        } else {
            None
        }
    }

    /// The node with the given id, from an arena that may change it next.
    pub fn get_mut_node(&mut self, node_id: NodeId) -> (r: Option<&Node>)
        ensures
            *final(self) == *old(self),
            match r {
                Option::Some(n) => slot_of(old(self).model(), node_id) == Option::Some(
                    n.arena_model(),
                ),
                Option::None => slot_of(old(self).model(), node_id) is None,
            },
    {
        if node_id.0 < self.nodes.len() {
            self.nodes[node_id.0].as_ref()
        } else {
            None
        }
    }

    /// Adds the node to the arena under the next fresh id, and returns that
    /// id.
    pub fn add_node(&mut self, node: Node) -> (r: NodeId)
        requires
            old(self).wf(),
            old(self).model().len() < usize::MAX,
        ensures
            final(self).wf(),
            r.0 == old(self).model().len(),
            final(self).model() == old(self).model().push(
                Option::Some(NodeModel { id: r, ..node.arena_model() }),
            ),
    {
        let id = NodeId(self.nodes.len());
        let mut stored = node;
        stored.id = id;
        self.nodes.push(Some(stored));
        proof {
            assert(self.model() =~= old(self).model().push(
                Option::Some(NodeModel { id, ..node.arena_model() }),
            ));
        }
        id
    }

    /// Attaches a node as a child of a parent.  Nothing happens, and false
    /// comes back, when the two are the same node or the parent is already
    /// in the node's subtree — a cycle is never built.  Otherwise the node
    /// is appended to the parent's children and its parent pointer is set,
    /// where each of the two nodes exists.
    pub fn attach_node(&mut self, parent_id: NodeId, node_id: NodeId) -> (r: bool)
        requires
            old(self).wf(),
            old(self).model().len() < usize::MAX,
        ensures
            final(self).wf(),
            r == !(parent_id == node_id || sp_has_child(
                old(self).model(),
                slot_of(old(self).model(), node_id),
                parent_id,
                old(self).model().len() + 1,
            )),
            !r ==> *final(self) == *old(self),
            r ==> final(self).model() == {
                let m0 = old(self).model();
                let m1 = match slot_of(m0, parent_id) {
                    Option::Some(p) => m0.update(
                        parent_id.0 as int,
                        Option::Some(NodeModel { children: p.children.push(node_id), ..p }),
                    ),
                    Option::None => m0,
                };
                match slot_of(m1, node_id) {
                    Option::Some(n) => m1.update(
                        node_id.0 as int,
                        Option::Some(NodeModel { parent: Option::Some(parent_id), ..n }),
                    ),
                    Option::None => m1,
                }
            },
    {
        let n = self.nodes.len();
        if parent_id == node_id || has_child_recursive(self, node_id, parent_id) {
            return false;
        }
        let ghost m0 = self.model();
        if parent_id.0 < n {
            if self.nodes[parent_id.0].is_some() {
                let pnode = self.take_slot(parent_id.0);
                let mut p = pnode;
                p.children.push(node_id);
                self.put_slot(parent_id.0, p);
            }
        }
        let ghost m1 = self.model();
        proof {
            assert(m1 =~= (match slot_of(m0, parent_id) {
                Option::Some(p) => m0.update(
                    parent_id.0 as int,
                    Option::Some(NodeModel { children: p.children.push(node_id), ..p }),
                ),
                Option::None => m0,
            }));
        }
        let n2 = self.nodes.len();
        if node_id.0 < n2 {
            if self.nodes[node_id.0].is_some() {
                let nnode = self.take_slot(node_id.0);
                let mut nn = nnode;
                nn.parent = Some(parent_id);
                self.put_slot(node_id.0, nn);
            }
        }
        proof {
            assert(self.model() =~= (match slot_of(m1, node_id) {
                Option::Some(nmod) => m1.update(
                    node_id.0 as int,
                    Option::Some(NodeModel { parent: Option::Some(parent_id), ..nmod }),
                ),
                Option::None => m1,
            }));
        }
        true
    }

    /// Takes the node out of a filled slot, leaving the slot empty.
    fn take_slot(&mut self, i: usize) -> (r: Node)
        requires
            i < old(self).model().len(),
            old(self).model()[i as int] is Some,
            old(self).wf(),
        ensures
            final(self).wf(),
            old(self).model()[i as int] == Option::Some(r.arena_model()),
            final(self).model() == old(self).model().update(i as int, Option::None),
            final(self).model().len() == old(self).model().len(),
            r.id.0 == i,
    {
        let ghost m0 = self.model();
        let mut slot: Option<Node> = None;
        self.nodes.set_and_swap(i, &mut slot);
        proof {
            assert(self.model() =~= m0.update(i as int, Option::None));
        }
        slot.unwrap()
    }

    /// Puts a node into an empty slot.
    fn put_slot(&mut self, i: usize, node: Node)
        requires
            i < old(self).model().len(),
            old(self).wf(),
            node.id.0 == i,
        ensures
            final(self).wf(),
            final(self).model() == old(self).model().update(
                i as int,
                Option::Some(node.arena_model()),
            ),
    {
        let ghost m0 = self.model();
        let ghost nm = node.arena_model();
        self.nodes.set(i, Some(node));
        proof {
            assert(self.model() =~= m0.update(i as int, Option::Some(nm)));
        }
    }

    /// Removes the node with the given id, its whole subtree with it; the
    /// removed node's id is taken out of its parent's child list.
    pub fn remove_node(&mut self, node_id: NodeId)
        requires
            old(self).wf(),
        ensures
            final(self).wf(),
            final(self).model() == sp_remove(old(self).model(), node_id),
        decreases filled(old(self).model()),
    {
        let n = self.nodes.len();
        if !(node_id.0 < n) {
            return ;
        }
        if self.nodes[node_id.0].is_none() {
            return ;
        }
        let ghost m0 = self.model();
        let node = self.take_slot(node_id.0);
        proof {
            lemma_filled_update(m0, node_id.0 as int);
        }
        let ghost m1 = self.model();
        let ghost kids = node.arena_model().children;
        let mut i: usize = 0;
        while i < node.children.len()
            invariant
                self.wf(),
                m0 == old(self).model(),
                kids == node.children@,
                i <= kids.len(),
                filled(self.model()) <= filled(m1),
                filled(m1) < filled(m0),
                sp_remove_all(m1, kids, 0) == sp_remove_all(self.model(), kids, i as int),
            decreases node.children@.len() - i,
        {
            let ghost mcur = self.model();
            proof {
                lemma_remove_le(mcur, node.children@[i as int]);
            }
            self.remove_node(node.children[i]);
            i = i + 1;
        }
        let ghost m2 = self.model();
        proof {
            assert(sp_remove_all(m2, kids, kids.len() as int) == m2);
            assert(sp_remove_all(m1, kids, 0) == m2);
        }
        match node.parent {
            Some(pid) => {
                let n2 = self.nodes.len();
                if pid.0 < n2 {
                    if self.nodes[pid.0].is_some() {
                        let pnode = self.take_slot(pid.0);
                        let mut p = pnode;
                        let kept = retain_ids(&p.children, node_id);
                        p.children = kept;
                        self.put_slot(pid.0, p);
                    }
                }
                proof {
                    assert(self.model() =~= sp_remove(m0, node_id));
                }
            },
            None => {
                proof {
                    assert(self.model() =~= sp_remove(m0, node_id));
                }
            },
        }
    }
}

/// The ids of a list that differ from the given one, in order.
fn retain_ids(ids: &Vec<NodeId>, id: NodeId) -> (r: Vec<NodeId>)
    ensures
        r@ == child_filter(ids@, id),
{
    let mut out: Vec<NodeId> = Vec::new();
    let mut i: usize = 0;
    proof {
        reveal_with_fuel(Seq::<_>::filter, 2);
        assert(ids@.subrange(0, 0) =~= Seq::<NodeId>::empty());
        assert(child_filter(Seq::<NodeId>::empty(), id) =~= Seq::<NodeId>::empty());
    }
    while i < ids.len()
        invariant
            i <= ids@.len(),
            out@ == child_filter(ids@.subrange(0, i as int), id),
        decreases ids@.len() - i,
    {
        let ghost pre = ids@.subrange(0, i as int);
        proof {
            assert(ids@.subrange(0, i + 1) =~= pre.push(ids@[i as int]));
        }
        if ids[i] != id {
            out.push(ids[i]);
        }
        proof {
            reveal_with_fuel(Seq::<_>::filter, 2);
            assert(pre.push(ids@[i as int]).drop_last() =~= pre);
            assert(pre.push(ids@[i as int]).last() == ids@[i as int]);
            assert(out@ =~= child_filter(ids@.subrange(0, i + 1), id));
        }
        i = i + 1;
    }
    proof {
        assert(ids@.subrange(0, ids@.len() as int) =~= ids@);
    }
    out
}

/// Whether the node with id `child_id` lies in the subtree below the node
/// with id `parent_id`, searching as deep as the arena has nodes.
pub fn has_child_recursive(arena: &NodeArena, parent_id: NodeId, child_id: NodeId) -> (r: bool)
    requires
        arena.model().len() < usize::MAX,
    ensures
        r == sp_has_child(
            arena.model(),
            slot_of(arena.model(), parent_id),
            child_id,
            arena.model().len() + 1,
        ),
{
    let n = arena.node_count();
    match arena.get_node(parent_id) {
        None => false,
        Some(node) => scan_children(arena, node, child_id, n + 1),
    }
}

/// Whether the node with id `child_id` lies in the subtree below the given
/// node, searching as deep as the arena has nodes.
pub fn has_child(arena: &NodeArena, parent: Option<Node>, child_id: NodeId) -> (r: bool)
    requires
        arena.model().len() < usize::MAX,
    ensures
        r == sp_has_child(
            arena.model(),
            match parent {
                Option::Some(p) => Option::Some(p.arena_model()),
                Option::None => Option::None,
            },
            child_id,
            arena.model().len() + 1,
        ),
{
    let n = arena.node_count();
    match parent {
        None => false,
        Some(node) => scan_children(arena, &node, child_id, n + 1),
    }
}

impl NodeArena {
    /// The number of slots, filled or not.
    pub fn node_count(&self) -> (r: usize)
        ensures
            r == self.model().len(),
    {
        self.nodes.len()
    }
}

/// The scan behind the subtree search.
fn scan_children(arena: &NodeArena, node: &Node, child_id: NodeId, fuel: usize) -> (r: bool)
    ensures
        r == sp_has_child(
            arena.model(),
            Option::Some(node.arena_model()),
            child_id,
            fuel as nat,
        ),
    decreases fuel, 2int, 0int,
{
    scan_child_list(arena, &node.children, 0, child_id, fuel)
}

/// The scan over one child list.
fn scan_child_list(
    arena: &NodeArena,
    children: &Vec<NodeId>,
    i: usize,
    child_id: NodeId,
    fuel: usize,
) -> (r: bool)
    requires
        i <= children@.len(),
    ensures
        r == sp_scan_children(arena.model(), children@, i as int, child_id, fuel as nat),
    decreases fuel, 1int, children@.len() - i,
{
    if i == children.len() {
        return false;
    }
    if children[i] == child_id {
        return true;
    }
    if fuel > 0 {
        let deeper = match arena.get_node(children[i]) {
            None => false,
            Some(child) => scan_children(arena, child, child_id, fuel - 1),
        };
        proof {
            assert(deeper == sp_has_child(
                arena.model(),
                slot_of(arena.model(), children@[i as int]),
                child_id,
                (fuel - 1) as nat,
            ));
        }
        if deeper {
            return true;
        }
    }
    let rest = scan_child_list(arena, children, i + 1, child_id, fuel);
    proof {
        assert(sp_scan_children(arena.model(), children@, i as int, child_id, fuel as nat)
            == sp_scan_children(arena.model(), children@, i as int + 1, child_id, fuel as nat));
    }
    rest
}

} // verus!
