//! The nodes that a channel is open to.
use crate::identity::{ConnectionId, NodeId};
use vstd::prelude::*;

verus! {

/// `order` lists the nodes of `nodes`, each of them once.
pub open spec fn enumerates(order: Seq<NodeId>, nodes: Set<NodeId>) -> bool {
    &&& order.no_duplicates()
    &&& order.to_set() == nodes
}

/// The nodes whose channel runs over `connection`.
pub open spec fn nodes_on(active: Map<NodeId, ConnectionId>, connection: ConnectionId) -> Set<
    NodeId,
> {
    Set::new(|node: NodeId| active.contains_key(node) && active[node] == connection)
}

/// The nodes that a channel is open to, each with the connection that carries it.
pub struct ActiveNodes {
    entries: Vec<(NodeId, ConnectionId)>,
}

/// Entry `i` is that of `node`.
spec fn entry_is(entries: Seq<(NodeId, ConnectionId)>, i: int, node: NodeId) -> bool {
    0 <= i < entries.len() && entries[i].0 == node
}

/// No node has two entries.
spec fn distinct(entries: Seq<(NodeId, ConnectionId)>) -> bool {
    forall|i: int, j: int|
        0 <= i < j < entries.len() ==> #[trigger] entries[i].0 != #[trigger] entries[j].0
}

spec fn as_map(entries: Seq<(NodeId, ConnectionId)>) -> Map<NodeId, ConnectionId> {
    Map::new(
        |node: NodeId| exists|i: int| entry_is(entries, i, node),
        |node: NodeId| entries[choose|i: int| entry_is(entries, i, node)].1,
    )
}

impl View for ActiveNodes {
    type V = Map<NodeId, ConnectionId>;

    closed spec fn view(&self) -> Map<NodeId, ConnectionId> {
        as_map(self.entries@)
    }
}

/// The entry of a node is what the map gives for it.
proof fn lemma_entry(entries: Seq<(NodeId, ConnectionId)>, i: int)
    requires
        distinct(entries),
        0 <= i < entries.len(),
    ensures
        as_map(entries).contains_key(entries[i].0),
        as_map(entries)[entries[i].0] == entries[i].1,
{
    assert(entry_is(entries, i, entries[i].0));
}

/// Taking out an entry takes its node out of the map.
proof fn lemma_removed(entries: Seq<(NodeId, ConnectionId)>, i: int)
    requires
        distinct(entries),
        0 <= i < entries.len(),
    ensures
        distinct(entries.remove(i)),
        as_map(entries.remove(i)) == as_map(entries).remove(entries[i].0),
{
    let after = entries.remove(i);
    assert forall|n: NodeId| #[trigger] as_map(after).contains_key(n) == as_map(entries).remove(
        entries[i].0,
    ).contains_key(n) && (as_map(after).contains_key(n) ==> as_map(after)[n] == as_map(
        entries,
    )[n]) by {
        if exists|j: int| entry_is(after, j, n) {
            let j = choose|j: int| entry_is(after, j, n);
            let k = if j < i { j } else { j + 1 };
            assert(entry_is(entries, k, n));
            lemma_entry(after, j);
            lemma_entry(entries, k);
        } else if exists|k: int| entry_is(entries, k, n) {
            let k = choose|k: int| entry_is(entries, k, n);
            if k != i {
                assert(entry_is(after, if k < i { k } else { k - 1 }, n));
            }
        }
    }
    assert(as_map(after) =~= as_map(entries).remove(entries[i].0));
}

impl ActiveNodes {
    #[verifier::type_invariant]
    spec fn well_formed(&self) -> bool {
        distinct(self.entries@)
    }

    /// No node yet.
    pub fn new() -> (nodes: Self)
        ensures
            nodes@ == Map::<NodeId, ConnectionId>::empty(),
    {
        let nodes = ActiveNodes { entries: Vec::new() };
        assert(nodes@ =~= Map::<NodeId, ConnectionId>::empty());
        nodes
    }

    /// Where the entry of `node` is.
    fn position(&self, node: NodeId) -> (found: Option<usize>)
        ensures
            match found {
                Some(i) => entry_is(self.entries@, i as int, node),
                None => !self@.contains_key(node),
            },
    {
        let mut i: usize = 0;
        while i < self.entries.len()
            invariant
                i <= self.entries.len(),
                forall|j: int| 0 <= j < i ==> !entry_is(self.entries@, j, node),
            decreases self.entries.len() - i,
        {
            if self.entries[i].0 == node {
                return Some(i);
            }
            i = i + 1;
        }
        None
    }

    /// The connection of `node`, if a channel is open to it.
    pub fn get(&self, node: NodeId) -> (connection: Option<ConnectionId>)
        ensures
            connection == (if self@.contains_key(node) {
                Some(self@[node])
            } else {
                None
            }),
    {
        proof {
            use_type_invariant(self);
        }
        match self.position(node) {
            Some(i) => {
                proof {
                    lemma_entry(self.entries@, i as int);
                }
                Some(self.entries[i].1)
            },
            None => None,
        }
    }

    /// Adds a node that no channel is open to yet.
    pub fn insert(&mut self, node: NodeId, connection: ConnectionId)
        requires
            !old(self)@.contains_key(node),
        ensures
            final(self)@ == old(self)@.insert(node, connection),
    {
        proof {
            use_type_invariant(&*self);
            let before = self.entries@;
            let after = before.push((node, connection));
            assert forall|i: int| 0 <= i < before.len() implies #[trigger] before[i].0 != node by {
                assert(entry_is(before, i, before[i].0));
            }
            assert(distinct(after));
            assert forall|n: NodeId| #[trigger] as_map(after).contains_key(n) == as_map(
                before,
            ).insert(node, connection).contains_key(n) && (as_map(after).contains_key(n)
                ==> as_map(after)[n] == as_map(before).insert(node, connection)[n]) by {
                if n == node {
                    lemma_entry(after, before.len() as int);
                } else if exists|i: int| entry_is(before, i, n) {
                    let i = choose|i: int| entry_is(before, i, n);
                    lemma_entry(before, i);
                    lemma_entry(after, i);
                } else {
                    assert(forall|i: int| entry_is(after, i, n) ==> entry_is(before, i, n));
                }
            }
            assert(as_map(after) =~= as_map(before).insert(node, connection));
        }
        let mut entries: Vec<(NodeId, ConnectionId)> = Vec::new();
        std::mem::swap(&mut entries, &mut self.entries);
        entries.push((node, connection));
        self.entries = entries;
    }

    /// Takes out the entry of `node`, and gives the connection it had.
    pub fn remove(&mut self, node: NodeId) -> (connection: Option<ConnectionId>)
        ensures
            connection == (if old(self)@.contains_key(node) {
                Some(old(self)@[node])
            } else {
                None
            }),
            final(self)@ == old(self)@.remove(node),
    {
        proof {
            use_type_invariant(&*self);
        }
        let ghost before = self.entries@;
        match self.position(node) {
            Some(i) => {
                let mut entries: Vec<(NodeId, ConnectionId)> = Vec::new();
                std::mem::swap(&mut entries, &mut self.entries);
                let (_, connection) = entries.remove(i);
                proof {
                    lemma_entry(before, i as int);
                    lemma_removed(before, i as int);
                }
                self.entries = entries;
                Some(connection)
            },
            None => {
                assert(self@ =~= self@.remove(node));
                None
            },
        }
    }

    /// The nodes whose channel runs over `connection`.
    pub fn on_connection(&self, connection: ConnectionId) -> (nodes: Vec<NodeId>)
        ensures
            enumerates(nodes@, nodes_on(self@, connection)),
    {
        proof {
            use_type_invariant(self);
        }
        let mut nodes: Vec<NodeId> = Vec::new();
        let mut i: usize = 0;
        while i < self.entries.len()
            invariant
                i <= self.entries.len(),
                distinct(self.entries@),
                nodes@.no_duplicates(),
                forall|node: NodeId| #[trigger]
                    nodes@.contains(node) <==> exists|j: int|
                        0 <= j < i && #[trigger] entry_is(self.entries@, j, node)
                            && self.entries@[j].1 == connection,
            decreases self.entries.len() - i,
        {
            let ghost listed = nodes@;
            let ghost here = self.entries@[i as int].0;
            assert(entry_is(self.entries@, i as int, here));
            assert(!listed.contains(here));
            if self.entries[i].1 == connection {
                nodes.push(self.entries[i].0);
                assert forall|node: NodeId| #[trigger] nodes@.contains(node) implies exists|j: int|
                    0 <= j < i + 1 && #[trigger] entry_is(self.entries@, j, node)
                        && self.entries@[j].1 == connection by {
                    if !listed.contains(node) {
                        assert(node == here);
                    }
                }
                assert forall|node: NodeId|
                    (exists|j: int|
                        0 <= j < i + 1 && #[trigger] entry_is(self.entries@, j, node)
                            && self.entries@[j].1 == connection) implies #[trigger] nodes@.contains(
                    node,
                ) by {
                    if node == here {
                        assert(nodes@[listed.len() as int] == node);
                    } else {
                        assert(listed.contains(node));
                        let k = choose|k: int| 0 <= k < listed.len() && listed[k] == node;
                        assert(nodes@[k] == node);
                    }
                }
            }
            i = i + 1;
        }
        proof {
            let entries = self.entries@;
            assert forall|node: NodeId| #[trigger]
                nodes@.to_set().contains(node) == nodes_on(self@, connection).contains(node) by {
                if exists|j: int| entry_is(entries, j, node) {
                    let j = choose|j: int| entry_is(entries, j, node);
                    lemma_entry(entries, j);
                }
                assert(nodes@.to_set().contains(node) == nodes@.contains(node));
            }
            assert(nodes@.to_set() =~= nodes_on(self@, connection));
        }
        nodes
    }

    /// Takes out every entry, and gives the nodes that there were.
    pub fn drain(&mut self) -> (nodes: Vec<NodeId>)
        ensures
            enumerates(nodes@, old(self)@.dom()),
            final(self)@ == Map::<NodeId, ConnectionId>::empty(),
    {
        proof {
            use_type_invariant(&*self);
        }
        let mut entries: Vec<(NodeId, ConnectionId)> = Vec::new();
        std::mem::swap(&mut entries, &mut self.entries);
        assert(self@ =~= Map::<NodeId, ConnectionId>::empty());
        let mut nodes: Vec<NodeId> = Vec::new();
        let mut i: usize = 0;
        while i < entries.len()
            invariant
                i <= entries.len(),
                distinct(entries@),
                nodes@.len() == i,
                forall|j: int| 0 <= j < i ==> #[trigger] nodes@[j] == entries@[j].0,
            decreases entries.len() - i,
        {
            nodes.push(entries[i].0);
            i = i + 1;
        }
        proof {
            assert forall|node: NodeId| #[trigger]
                nodes@.to_set().contains(node) == old(self)@.dom().contains(node) by {
                if nodes@.contains(node) {
                    let j = choose|j: int| 0 <= j < nodes@.len() && nodes@[j] == node;
                    assert(entry_is(entries@, j, node));
                }
                if exists|j: int| entry_is(entries@, j, node) {
                    let j = choose|j: int| entry_is(entries@, j, node);
                    assert(nodes@[j] == node);
                }
            }
            assert(nodes@.to_set() =~= old(self)@.dom());
        }
        nodes
    }
}

} // verus!
