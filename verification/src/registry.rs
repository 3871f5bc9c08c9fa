//! The registry of known nodes.

use crate::node::{Node, NodeStatus};
use vstd::prelude::*;

verus! {

/// Some position of `nodes` that holds the identifier `id`.
spec fn position_of(nodes: Seq<Node>, id: Seq<char>) -> int {
    choose|i: int| 0 <= i < nodes.len() && nodes[i].node_id@ == id
}

/// The nodes of `nodes`, each under its identifier.
spec fn by_id(nodes: Seq<Node>) -> Map<Seq<char>, Node> {
    Map::new(
        |id: Seq<char>| exists|i: int| 0 <= i < nodes.len() && nodes[i].node_id@ == id,
        |id: Seq<char>| nodes[position_of(nodes, id)],
    )
}

/// No identifier stands at two positions of `nodes`.
spec fn distinct_ids(nodes: Seq<Node>) -> bool {
    forall|i: int, j: int|
        0 <= i < j < nodes.len() ==> nodes[i].node_id@ != nodes[j].node_id@
}

proof fn lemma_by_id_at(nodes: Seq<Node>, i: int)
    requires
        distinct_ids(nodes),
        0 <= i < nodes.len(),
    ensures
        by_id(nodes).contains_key(nodes[i].node_id@),
        by_id(nodes)[nodes[i].node_id@] == nodes[i],
{
    let id = nodes[i].node_id@;
    let p = position_of(nodes, id);
    assert(0 <= p < nodes.len() && nodes[p].node_id@ == id);
    if p < i {
        assert(nodes[p].node_id@ != nodes[i].node_id@);
    } else if i < p {
        assert(nodes[i].node_id@ != nodes[p].node_id@);
    }
}

proof fn lemma_by_id_update(nodes: Seq<Node>, i: int, node: Node)
    requires
        distinct_ids(nodes),
        0 <= i < nodes.len(),
        nodes[i].node_id@ == node.node_id@,
    ensures
        distinct_ids(nodes.update(i, node)),
        by_id(nodes.update(i, node)) == by_id(nodes).insert(node.node_id@, node),
{
    let after = nodes.update(i, node);
    assert forall|a: int, b: int| 0 <= a < b < after.len() implies after[a].node_id@
        != after[b].node_id@ by {
        assert(after[a].node_id@ == nodes[a].node_id@);
        assert(after[b].node_id@ == nodes[b].node_id@);
    }
    let want = by_id(nodes).insert(node.node_id@, node);
    assert forall|id: Seq<char>| by_id(after).contains_key(id) <==> want.contains_key(id) by {
        if by_id(after).contains_key(id) {
            let k = choose|k: int| 0 <= k < after.len() && after[k].node_id@ == id;
            assert(nodes[k].node_id@ == id);
        }
        if want.contains_key(id) && id != node.node_id@ {
            let k = choose|k: int| 0 <= k < nodes.len() && nodes[k].node_id@ == id;
            assert(after[k].node_id@ == id);
        }
        if id == node.node_id@ {
            assert(after[i].node_id@ == id);
        }
    }
    assert forall|id: Seq<char>| by_id(after).contains_key(id) implies by_id(after)[id]
        == want[id] by {
        let k = choose|k: int| 0 <= k < after.len() && after[k].node_id@ == id;
        lemma_by_id_at(after, k);
        if k != i {
            assert(nodes[k].node_id@ == id);
            lemma_by_id_at(nodes, k);
        }
    }
    assert(by_id(after) =~= want);
}

proof fn lemma_by_id_push(nodes: Seq<Node>, node: Node)
    requires
        distinct_ids(nodes),
        !by_id(nodes).contains_key(node.node_id@),
    ensures
        distinct_ids(nodes.push(node)),
        by_id(nodes.push(node)) == by_id(nodes).insert(node.node_id@, node),
{
    let after = nodes.push(node);
    assert forall|a: int, b: int| 0 <= a < b < after.len() implies after[a].node_id@
        != after[b].node_id@ by {
        assert(after[a] == nodes[a]);
        if b < nodes.len() {
            assert(after[b] == nodes[b]);
        }
    }
    let want = by_id(nodes).insert(node.node_id@, node);
    assert forall|id: Seq<char>| by_id(after).contains_key(id) <==> want.contains_key(id) by {
        if by_id(after).contains_key(id) {
            let k = choose|k: int| 0 <= k < after.len() && after[k].node_id@ == id;
            if k < nodes.len() {
                assert(nodes[k].node_id@ == id);
            }
        }
        if want.contains_key(id) && id != node.node_id@ {
            let k = choose|k: int| 0 <= k < nodes.len() && nodes[k].node_id@ == id;
            assert(after[k].node_id@ == id);
        }
        if id == node.node_id@ {
            assert(after[nodes.len() as int].node_id@ == id);
        }
    }
    assert forall|id: Seq<char>| by_id(after).contains_key(id) implies by_id(after)[id]
        == want[id] by {
        let k = choose|k: int| 0 <= k < after.len() && after[k].node_id@ == id;
        lemma_by_id_at(after, k);
        if k < nodes.len() {
            assert(nodes[k].node_id@ == id);
            lemma_by_id_at(nodes, k);
        }
    }
    assert(by_id(after) =~= want);
}

proof fn lemma_by_id_size(nodes: Seq<Node>)
    requires
        distinct_ids(nodes),
    ensures
        by_id(nodes).dom().finite(),
        by_id(nodes).dom().len() == nodes.len(),
    decreases nodes.len(),
{
    if nodes.len() == 0 {
        assert(by_id(nodes).dom() =~= Set::<Seq<char>>::empty());
    } else {
        let rest = nodes.drop_last();
        let last = nodes.last();
        assert(distinct_ids(rest)) by {
            assert forall|i: int, j: int| 0 <= i < j < rest.len() implies rest[i].node_id@
                != rest[j].node_id@ by {
                assert(rest[i] == nodes[i] && rest[j] == nodes[j]);
            }
        }
        lemma_by_id_size(rest);
        assert(!by_id(rest).contains_key(last.node_id@)) by {
            if by_id(rest).contains_key(last.node_id@) {
                let k = choose|k: int| 0 <= k < rest.len() && rest[k].node_id@ == last.node_id@;
                assert(nodes[k].node_id@ != nodes[nodes.len() - 1].node_id@);
            }
        }
        lemma_by_id_push(rest, last);
        assert(nodes =~= rest.push(last));
    }
}

/// The registry that `registry` becomes when `node` is stored in it.
pub open spec fn with_node(registry: Map<Seq<char>, Node>, node: Node) -> Map<Seq<char>, Node> {
    registry.insert(node.node_id@, node)
}

/// The registry that `registry` becomes when the node under `id` is marked
/// inactive: the same registry where nothing is stored under `id`.
pub open spec fn with_inactive(registry: Map<Seq<char>, Node>, id: Seq<char>) -> Map<
    Seq<char>,
    Node,
> {
    if registry.contains_key(id) {
        registry.insert(id, registry[id].deactivated())
    } else {
        registry
    }
}

/// Whether `node` is stored in `registry` with an active status.
pub open spec fn is_active_in(registry: Map<Seq<char>, Node>, node: Node) -> bool {
    registry.contains_key(node.node_id@) && registry[node.node_id@] == node && node.status
        == NodeStatus::Active
}

/// Two reports under one identifier, one right after the other, leave what
/// the second alone would have left: a single entry under that identifier,
/// which holds the second report.
pub proof fn lemma_second_report_wins(registry: Map<Seq<char>, Node>, first: Node, second: Node)
    requires
        first.node_id@ == second.node_id@,
    ensures
        with_node(with_node(registry, first), second) == with_node(registry, second),
        with_node(with_node(registry, first), second)[second.node_id@] == second,
        with_node(with_node(registry, first), second).dom() == registry.dom().insert(
            second.node_id@,
        ),
{
    assert(with_node(with_node(registry, first), second) =~= with_node(registry, second));
    assert(with_node(registry, second).dom() =~= registry.dom().insert(second.node_id@));
}

/// After the node under `id` was marked inactive, no node with that
/// identifier is active in the registry.
pub proof fn lemma_marked_node_is_not_active(
    registry: Map<Seq<char>, Node>,
    id: Seq<char>,
    node: Node,
)
    requires
        node.node_id@ == id,
    ensures
        !is_active_in(with_inactive(registry, id), node),
{
}

/// Marking a node inactive leaves the set of stored identifiers as it was,
/// and every node under another identifier unchanged.
pub proof fn lemma_marking_keeps_the_rest(registry: Map<Seq<char>, Node>, id: Seq<char>)
    ensures
        with_inactive(registry, id).dom() == registry.dom(),
        forall|other: Seq<char>|
            other != id && registry.contains_key(other) ==> #[trigger] with_inactive(
                registry,
                id,
            )[other] == registry[other],
{
    assert(with_inactive(registry, id).dom() =~= registry.dom());
}

/// The latest reported state of each known node: a map from a node's
/// identifier to the node. A later report under an identifier replaces the
/// earlier one whole.
///
/// The nodes are kept in a vector in which no identifier stands twice; an
/// operation that looks for an identifier walks the vector.
pub struct NodeRegistry {
    nodes: Vec<Node>,
}

impl View for NodeRegistry {
    type V = Map<Seq<char>, Node>;

    /// The stored nodes, each under its identifier.
    closed spec fn view(&self) -> Map<Seq<char>, Node> {
        by_id(self.nodes@)
    }
}

impl NodeRegistry {
    #[verifier::type_invariant]
    spec fn one_node_per_id(self) -> bool {
        distinct_ids(self.nodes@)
    }

    /// An empty registry.
    pub fn new() -> (registry: Self)
        ensures
            registry@ == Map::<Seq<char>, Node>::empty(),
    {
        let registry = NodeRegistry { nodes: Vec::new() };
        assert(registry@ =~= Map::<Seq<char>, Node>::empty());
        registry
    }

    /// Every node is stored under its own identifier.
    pub proof fn lemma_keyed_by_id(&self)
        ensures
            forall|id: Seq<char>| self@.contains_key(id) ==> (#[trigger] self@[id]).node_id@ == id,
    {
        assert forall|id: Seq<char>| self@.contains_key(id) implies (#[trigger] self@[id]).node_id@
            == id by {
            let p = position_of(self.nodes@, id);
            assert(0 <= p < self.nodes@.len() && self.nodes@[p].node_id@ == id);
        }
    }

    /// The number of stored nodes.
    pub fn len(&self) -> (n: usize)
        ensures
            self@.dom().finite(),
            n == self@.len(),
    {
        proof {
            use_type_invariant(self);
            lemma_by_id_size(self.nodes@);
        }
        self.nodes.len()
    }

    /// A copy of the node stored under `node_id`, if there is one.
    pub fn get_node(&self, node_id: &str) -> (found: Option<Node>)
        ensures
            found == if self@.contains_key(node_id@) {
                Some(self@[node_id@])
            } else {
                None
            },
    {
        proof {
            use_type_invariant(self);
        }
        let id = node_id.to_owned();
        match self.find(&id) {
            Some(i) => {
                proof {
                    lemma_by_id_at(self.nodes@, i as int);
                }
                Some(self.nodes[i].clone())
            },
            None => None,
        }
    }

    /// The position at which `id` is stored, if it is.
    fn find(&self, id: &String) -> (found: Option<usize>)
        ensures
            match found {
                Some(i) => i < self.nodes.len() && self.nodes[i as int].node_id@ == id@,
                None => !self@.contains_key(id@),
            },
    {
        let mut i: usize = 0;
        while i < self.nodes.len()
            invariant
                i <= self.nodes.len(),
                forall|k: int| 0 <= k < i ==> self.nodes[k].node_id@ != id@,
            decreases self.nodes.len() - i,
        {
            if self.nodes[i].node_id == *id {
                return Some(i);
            }
            i += 1;
        }
        None
    }

    /// Stores `node` under its identifier, in place of whatever was stored
    /// under it before.
    pub fn register_node(&mut self, node: Node)
        ensures
            final(self)@ == with_node(old(self)@, node),
    {
        proof {
            use_type_invariant(&*self);
        }
        let place = self.find(&node.node_id);
        // The vector is taken out while it changes: the registry left behind
        // is empty, and so whole, at every point of the change.
        let mut nodes: Vec<Node> = Vec::new();
        core::mem::swap(&mut self.nodes, &mut nodes);
        match place {
            Some(i) => {
                proof {
                    lemma_by_id_update(nodes@, i as int, node);
                }
                nodes.set(i, node);
            },
            None => {
                proof {
                    lemma_by_id_push(nodes@, node);
                }
                nodes.push(node);
            },
        }
        self.nodes = nodes;
    }

    /// Copies of the stored nodes whose status is active, each once, in no
    /// particular order.
    pub fn get_active_nodes(&self) -> (found: Vec<Node>)
        ensures
            forall|k: int| 0 <= k < found.len() ==> is_active_in(self@, #[trigger] found[k]),
            forall|node: Node| #[trigger] is_active_in(self@, node) ==> found@.contains(node),
            found@.no_duplicates(),
    {
        proof {
            use_type_invariant(self);
        }
        let mut found: Vec<Node> = Vec::new();
        let ghost mut origin: Seq<int> = Seq::empty();
        let mut i: usize = 0;
        while i < self.nodes.len()
            invariant
                i <= self.nodes.len(),
                distinct_ids(self.nodes@),
                origin.len() == found.len(),
                forall|k: int|
                    0 <= k < found.len() ==> 0 <= #[trigger] origin[k] < i && found[k]
                        == self.nodes[origin[k]] && found[k].status == NodeStatus::Active,
                forall|j: int, k: int| 0 <= j < k < origin.len() ==> origin[j] < origin[k],
                forall|p: int|
                    0 <= p < i && (#[trigger] self.nodes[p]).status == NodeStatus::Active
                        ==> found@.contains(self.nodes[p]),
            decreases self.nodes.len() - i,
        {
            let node = &self.nodes[i];
            match node.status {
                NodeStatus::Active => {
                    let ghost before = found@;
                    found.push(node.clone());
                    proof {
                        let ghost earlier = origin;
                        origin = origin.push(i as int);
                        assert(found@[before.len() as int] == self.nodes[i as int]);
                        assert forall|k: int| 0 <= k < found.len() implies 0 <= #[trigger] origin[k]
                            < i + 1 && found[k] == self.nodes[origin[k]] && found[k].status
                            == NodeStatus::Active by {
                            if k < before.len() {
                                assert(origin[k] == earlier[k]);
                                assert(found[k] == before[k]);
                            }
                        }
                        assert forall|p: int|
                            0 <= p < i + 1 && (#[trigger] self.nodes[p]).status
                                == NodeStatus::Active implies found@.contains(self.nodes[p]) by {
                            if p < i {
                                let k = choose|k: int|
                                    0 <= k < before.len() && before[k] == self.nodes[p];
                                assert(found@[k] == self.nodes[p]);
                            }
                        }
                    }
                },
                NodeStatus::Inactive => {},
            }
            i += 1;
        }
        proof {
            assert forall|k: int| 0 <= k < found.len() implies is_active_in(
                self@,
                #[trigger] found[k],
            ) by {
                lemma_by_id_at(self.nodes@, origin[k]);
            }
            assert forall|node: Node| #[trigger] is_active_in(self@, node) implies found@.contains(
                node,
            ) by {
                let p = choose|p: int|
                    0 <= p < self.nodes.len() && self.nodes[p].node_id@ == node.node_id@;
                lemma_by_id_at(self.nodes@, p);
            }
            assert forall|j: int, k: int| 0 <= j < found.len() && 0 <= k < found.len() && j
                != k implies found@[j] != found@[k] by {
                let a = origin[j];
                let b = origin[k];
                if a < b {
                    assert(self.nodes[a].node_id@ != self.nodes[b].node_id@);
                } else if b < a {
                    assert(self.nodes[b].node_id@ != self.nodes[a].node_id@);
                }
            }
        }
        found
    }

    /// Sets the status of the node stored under `node_id` to inactive. Where
    /// no node is stored under it, nothing happens.
    pub fn mark_node_inactive(&mut self, node_id: &str)
        ensures
            final(self)@ == with_inactive(old(self)@, node_id@),
    {
        proof {
            use_type_invariant(&*self);
        }
        let id = node_id.to_owned();
        if let Some(i) = self.find(&id) {
            let mut nodes: Vec<Node> = Vec::new();
            core::mem::swap(&mut self.nodes, &mut nodes);
            let node = &nodes[i];
            let updated = Node {
                node_id: node.node_id.clone(),
                last_active: node.last_active,
                status: NodeStatus::Inactive,
            };
            proof {
                lemma_by_id_at(nodes@, i as int);
                lemma_by_id_update(nodes@, i as int, updated);
            }
            nodes.set(i, updated);
            self.nodes = nodes;
        }
    }
}

} // verus!
