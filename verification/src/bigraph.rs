//! An undirected bipartite graph between device channels and bindings,
//! backed by petgraph's `GraphMap`.
//!
//! Nodes are stored as integer triples: a channel `(device, index)` becomes
//! `(0, device, index)` and a binding becomes `(1, tag, stream)`. Every left
//! node therefore orders strictly below every right node, so petgraph's
//! canonical undirected edge key for a `(left, right)` pair is exactly
//! `(left, right)`; the trusted contracts below are stated over that key set.

use vstd::prelude::*;
use crate::audio::StreamId;
use crate::control::{ChannelIndex, DeviceId};

verus! {

/// A channel as the coordinator names it: a device and a channel index on it.
#[derive(Debug, Clone, Copy, PartialEq, Eq, Structural, Hash, PartialOrd, Ord)]
pub struct ChannelId(pub DeviceId, pub ChannelIndex);

/// What a channel can be bound to: one concrete stream, or one of the two
/// dynamic slots resolved through the coordinator.
#[derive(Debug, Clone, Copy, PartialEq, Eq, Structural, Hash, PartialOrd, Ord)]
pub enum Binding {
    Direct(StreamId),
    ActiveWindow,
    DefaultDevice,
}

/// A graph node as stored: `(side tag, a, b)`.
pub type RawNode = (u64, u64, u64);

/// Declares petgraph's `GraphMap` to the verifier; values of it are opaque
/// and are only reached through the trusted functions below.
#[verifier::external_type_specification]
#[verifier::external_body]
#[verifier::reject_recursive_types(N)]
#[verifier::reject_recursive_types(E)]
#[verifier::reject_recursive_types(Ty)]
#[verifier::reject_recursive_types(S)]
pub struct ExGraphMap<N, E, Ty, S>(petgraph::graphmap::GraphMap<N, E, Ty, S>) where S: std::hash::BuildHasher;

/// Declares petgraph's `Undirected` edge-type marker to the verifier.
#[verifier::external_type_specification]
#[verifier::external_body]
pub struct ExUndirected(petgraph::Undirected);

/// The nodes a `GraphMap` currently holds.
pub uninterp spec fn graph_nodes(
    g: petgraph::graphmap::UnGraphMap<RawNode, ()>,
) -> Set<RawNode>;

/// The edges a `GraphMap` currently holds, as its canonical (ordered) key
/// pairs: for an undirected graph the key of an edge between `a` and `b` is
/// `(a, b)` when `a <= b` in the node order, else `(b, a)`.
pub uninterp spec fn graph_edges(
    g: petgraph::graphmap::UnGraphMap<RawNode, ()>,
) -> Set<(RawNode, RawNode)>;

/// Relies on petgraph's `GraphMap::new`: a new graph holds no nodes and no
/// edges.
#[verifier::external_body]
fn graph_new() -> (g: petgraph::graphmap::UnGraphMap<RawNode, ()>)
    ensures
        graph_nodes(g) == Set::<RawNode>::empty(),
        graph_edges(g) == Set::<(RawNode, RawNode)>::empty(),
{
    petgraph::graphmap::UnGraphMap::new()
}

/// Relies on petgraph's `GraphMap::clear`: it removes all nodes and edges.
#[verifier::external_body]
fn graph_clear(g: &mut petgraph::graphmap::UnGraphMap<RawNode, ()>)
    ensures
        graph_nodes(*final(g)) == Set::<RawNode>::empty(),
        graph_edges(*final(g)) == Set::<(RawNode, RawNode)>::empty(),
{
    g.clear()
}

/// Relies on petgraph's `GraphMap::add_node`: it inserts the node and leaves
/// the edges alone.
#[verifier::external_body]
fn graph_add_node(g: &mut petgraph::graphmap::UnGraphMap<RawNode, ()>, n: RawNode)
    ensures
        graph_nodes(*final(g)) == graph_nodes(*old(g)).insert(n),
        graph_edges(*final(g)) == graph_edges(*old(g)),
{
    g.add_node(n);
}

/// Relies on petgraph's `GraphMap::remove_node`: it removes the node and
/// every edge incident to it, and reports whether the node was present.
#[verifier::external_body]
fn graph_remove_node(g: &mut petgraph::graphmap::UnGraphMap<RawNode, ()>, n: RawNode) -> (r:
    bool)
    ensures
        graph_nodes(*final(g)) == graph_nodes(*old(g)).remove(n),
        graph_edges(*final(g)) == Set::new(
            |e: (RawNode, RawNode)|
                graph_edges(*old(g)).contains(e) && e.0 != n && e.1 != n,
        ),
        r == graph_nodes(*old(g)).contains(n),
{
    g.remove_node(n)
}

/// Relies on petgraph's `GraphMap::contains_node`.
#[verifier::external_body]
fn graph_contains_node(g: &petgraph::graphmap::UnGraphMap<RawNode, ()>, n: RawNode) -> (r: bool)
    ensures
        r == graph_nodes(*g).contains(n),
{
    g.contains_node(n)
}

/// Relies on petgraph's `GraphMap::add_edge` on an undirected graph: with
/// `a < b` in the node order the canonical key is `(a, b)`; the call inserts
/// both endpoints, stores the edge under that key, and returns the old weight
/// exactly when the edge already existed. The tag requirement makes `a < b`.
#[verifier::external_body]
fn graph_add_edge(
    g: &mut petgraph::graphmap::UnGraphMap<RawNode, ()>,
    a: RawNode,
    b: RawNode,
) -> (fresh: bool)
    requires
        a.0 == 0,
        b.0 == 1,
    ensures
        graph_nodes(*final(g)) == graph_nodes(*old(g)).insert(a).insert(b),
        graph_edges(*final(g)) == graph_edges(*old(g)).insert((a, b)),
        fresh == !graph_edges(*old(g)).contains((a, b)),
{
    g.add_edge(a, b, ()).is_none()
}

/// Relies on petgraph's `GraphMap::remove_edge` on an undirected graph: with
/// `a < b` it removes the edge under the canonical key `(a, b)`, leaves the
/// nodes in place, and reports whether the edge existed.
#[verifier::external_body]
fn graph_remove_edge(
    g: &mut petgraph::graphmap::UnGraphMap<RawNode, ()>,
    a: RawNode,
    b: RawNode,
) -> (r: bool)
    requires
        a.0 == 0,
        b.0 == 1,
    ensures
        graph_nodes(*final(g)) == graph_nodes(*old(g)),
        graph_edges(*final(g)) == graph_edges(*old(g)).remove((a, b)),
        r == graph_edges(*old(g)).contains((a, b)),
{
    g.remove_edge(a, b).is_some()
}

/// Relies on petgraph's `GraphMap::contains_edge` on an undirected graph:
/// with `a < b` it looks the edge up under the canonical key `(a, b)`.
#[verifier::external_body]
fn graph_contains_edge(
    g: &petgraph::graphmap::UnGraphMap<RawNode, ()>,
    a: RawNode,
    b: RawNode,
) -> (r: bool)
    requires
        a.0 == 0,
        b.0 == 1,
    ensures
        r == graph_edges(*g).contains((a, b)),
{
    g.contains_edge(a, b)
}

/// Relies on petgraph's `GraphMap::neighbors` on an undirected graph: it
/// yields every node with an edge to or from `n`, each exactly once (there is
/// at most one edge between two nodes), and nothing for an absent node.
#[verifier::external_body]
fn graph_neighbors(
    g: &petgraph::graphmap::UnGraphMap<RawNode, ()>,
    n: RawNode,
) -> (r: Vec<RawNode>)
    ensures
        r@.no_duplicates(),
        forall|x: RawNode|
            #[trigger] r@.contains(x) <==> (graph_edges(*g).contains((n, x)) || graph_edges(
                *g,
            ).contains((x, n))),
{
    g.neighbors(n).collect()
}

/// The stored form of a channel node.
pub open spec fn spec_enc_left(c: ChannelId) -> RawNode {
    (0u64, c.0.0, c.1 as u64)
}

/// The stored form of a binding node.
pub open spec fn spec_enc_right(b: Binding) -> RawNode {
    match b {
        Binding::Direct(s) => (1u64, 0u64, s.0),
        Binding::ActiveWindow => (1u64, 1u64, 0u64),
        Binding::DefaultDevice => (1u64, 2u64, 0u64),
    }
}

/// A raw node that is the stored form of some channel.
pub open spec fn is_left_node(n: RawNode) -> bool {
    n.0 == 0 && n.2 <= usize::MAX
}

/// A raw node that is the stored form of some binding.
pub open spec fn is_right_node(n: RawNode) -> bool {
    n.0 == 1 && (n.1 == 0 || ((n.1 == 1 || n.1 == 2) && n.2 == 0))
}

/// The channel a valid left node stands for.
pub open spec fn spec_dec_left(n: RawNode) -> ChannelId {
    ChannelId(DeviceId(n.1), n.2 as usize)
}

/// The binding a valid right node stands for.
pub open spec fn spec_dec_right(n: RawNode) -> Binding {
    if n.1 == 0 {
        Binding::Direct(StreamId(n.2))
    } else if n.1 == 1 {
        Binding::ActiveWindow
    } else {
        Binding::DefaultDevice
    }
}

fn enc_left(c: ChannelId) -> (n: RawNode)
    ensures
        n == spec_enc_left(c),
        is_left_node(n),
{
    (0u64, c.0.0, c.1 as u64)
}

fn enc_right(b: Binding) -> (n: RawNode)
    ensures
        n == spec_enc_right(b),
        is_right_node(n),
{
    match b {
        Binding::Direct(s) => (1u64, 0u64, s.0),
        Binding::ActiveWindow => (1u64, 1u64, 0u64),
        Binding::DefaultDevice => (1u64, 2u64, 0u64),
    }
}

fn dec_left(n: RawNode) -> (c: ChannelId)
    requires
        is_left_node(n),
    ensures
        c == spec_dec_left(n),
        spec_enc_left(c) == n,
{
    ChannelId(DeviceId(n.1), n.2 as usize)
}

fn dec_right(n: RawNode) -> (b: Binding)
    requires
        is_right_node(n),
    ensures
        b == spec_dec_right(n),
        spec_enc_right(b) == n,
{
    if n.1 == 0 {
        Binding::Direct(StreamId(n.2))
    } else if n.1 == 1 {
        Binding::ActiveWindow
    } else {
        Binding::DefaultDevice
    }
}

/// An undirected bipartite graph: channels on the left, bindings on the
/// right, at most one edge between any pair.
pub struct BiGraph {
    graph: petgraph::graphmap::UnGraphMap<RawNode, ()>,
}

impl BiGraph {
    /// The set of edges, as channel/binding pairs.
    pub closed spec fn edges(self) -> Set<(ChannelId, Binding)> {
        Set::new(
            |p: (ChannelId, Binding)|
                graph_edges(self.graph).contains((spec_enc_left(p.0), spec_enc_right(p.1))),
        )
    }

    /// The set of left (channel) nodes.
    pub closed spec fn lefts(self) -> Set<ChannelId> {
        Set::new(|c: ChannelId| graph_nodes(self.graph).contains(spec_enc_left(c)))
    }

    /// The set of right (binding) nodes.
    pub closed spec fn rights(self) -> Set<Binding> {
        Set::new(|b: Binding| graph_nodes(self.graph).contains(spec_enc_right(b)))
    }

    /// Every stored edge joins a valid left node to a valid right node.
    pub closed spec fn wf(self) -> bool {
        forall|e: (RawNode, RawNode)|
            #[trigger] graph_edges(self.graph).contains(e) ==> is_left_node(e.0) && is_right_node(
                e.1,
            )
    }

    pub fn new() -> (g: Self)
        ensures
            g.wf(),
            g.edges() == Set::<(ChannelId, Binding)>::empty(),
            g.lefts() == Set::<ChannelId>::empty(),
            g.rights() == Set::<Binding>::empty(),
    {
        let g = BiGraph { graph: graph_new() };
        proof {
            assert(g.edges() =~= Set::<(ChannelId, Binding)>::empty());
            assert(g.lefts() =~= Set::<ChannelId>::empty());
            assert(g.rights() =~= Set::<Binding>::empty());
        }
        g
    }

    /// Removes every node and every edge.
    pub fn clear(&mut self)
        ensures
            final(self).wf(),
            final(self).edges() == Set::<(ChannelId, Binding)>::empty(),
            final(self).lefts() == Set::<ChannelId>::empty(),
            final(self).rights() == Set::<Binding>::empty(),
    {
        graph_clear(&mut self.graph);
        proof {
            assert(self.edges() =~= Set::<(ChannelId, Binding)>::empty());
            assert(self.lefts() =~= Set::<ChannelId>::empty());
            assert(self.rights() =~= Set::<Binding>::empty());
        }
    }

    /// Adds a channel node with no edges; a node already present stays as it
    /// is.
    pub fn add_left(&mut self, left: ChannelId)
        requires
            old(self).wf(),
        ensures
            final(self).wf(),
            final(self).edges() == old(self).edges(),
            final(self).lefts() == old(self).lefts().insert(left),
            final(self).rights() == old(self).rights(),
    {
        let n = enc_left(left);
        graph_add_node(&mut self.graph, n);
        proof {
            assert(self.edges() =~= old(self).edges());
            assert(self.lefts() =~= old(self).lefts().insert(left));
            assert(self.rights() =~= old(self).rights());
        }
    }

    /// Adds a binding node with no edges; a node already present stays as it
    /// is.
    pub fn add_right(&mut self, right: Binding)
        requires
            old(self).wf(),
        ensures
            final(self).wf(),
            final(self).edges() == old(self).edges(),
            final(self).lefts() == old(self).lefts(),
            final(self).rights() == old(self).rights().insert(right),
    {
        let n = enc_right(right);
        graph_add_node(&mut self.graph, n);
        proof {
            assert(self.edges() =~= old(self).edges());
            assert(self.lefts() =~= old(self).lefts());
            assert(self.rights() =~= old(self).rights().insert(right));
        }
    }

    /// Removes a channel node and every edge incident to it. Returns `true`
    /// if the node was present.
    pub fn remove_left(&mut self, left: ChannelId) -> (r: bool)
        requires
            old(self).wf(),
        ensures
            final(self).wf(),
            r == old(self).lefts().contains(left),
            final(self).lefts() == old(self).lefts().remove(left),
            final(self).rights() == old(self).rights(),
            final(self).edges() == Set::new(
                |p: (ChannelId, Binding)| old(self).edges().contains(p) && p.0 != left,
            ),
    {
        let n = enc_left(left);
        let r = graph_remove_node(&mut self.graph, n);
        proof {
            assert(self.lefts() =~= old(self).lefts().remove(left));
            assert(self.rights() =~= old(self).rights());
            assert(self.edges() =~= Set::new(
                |p: (ChannelId, Binding)| old(self).edges().contains(p) && p.0 != left,
            ));
        }
        r
    }

    /// Removes a binding node and every edge incident to it. Returns `true`
    /// if the node was present.
    pub fn remove_right(&mut self, right: Binding) -> (r: bool)
        requires
            old(self).wf(),
        ensures
            final(self).wf(),
            r == old(self).rights().contains(right),
            final(self).lefts() == old(self).lefts(),
            final(self).rights() == old(self).rights().remove(right),
            final(self).edges() == Set::new(
                |p: (ChannelId, Binding)| old(self).edges().contains(p) && p.1 != right,
            ),
    {
        let n = enc_right(right);
        let r = graph_remove_node(&mut self.graph, n);
        proof {
            assert(self.lefts() =~= old(self).lefts());
            assert(self.rights() =~= old(self).rights().remove(right));
            assert(self.edges() =~= Set::new(
                |p: (ChannelId, Binding)| old(self).edges().contains(p) && p.1 != right,
            ));
        }
        r
    }

    pub fn contains_left(&self, left: ChannelId) -> (r: bool)
        ensures
            r == self.lefts().contains(left),
    {
        graph_contains_node(&self.graph, enc_left(left))
    }

    pub fn contains_right(&self, right: Binding) -> (r: bool)
        ensures
            r == self.rights().contains(right),
    {
        graph_contains_node(&self.graph, enc_right(right))
    }

    /// Adds an edge between a channel and a binding, inserting either node as
    /// needed. Returns `true` when the edge is new.
    pub fn add_edge(&mut self, left: ChannelId, right: Binding) -> (fresh: bool)
        requires
            old(self).wf(),
        ensures
            final(self).wf(),
            fresh == !old(self).edges().contains((left, right)),
            final(self).edges() == old(self).edges().insert((left, right)),
            final(self).lefts() == old(self).lefts().insert(left),
            final(self).rights() == old(self).rights().insert(right),
    {
        let a = enc_left(left);
        let b = enc_right(right);
        let fresh = graph_add_edge(&mut self.graph, a, b);
        proof {
            assert(self.edges() =~= old(self).edges().insert((left, right)));
            assert(self.lefts() =~= old(self).lefts().insert(left));
            assert(self.rights() =~= old(self).rights().insert(right));
        }
        fresh
    }

    /// Removes the edge between a channel and a binding, leaving both nodes
    /// in place. Returns `true` if the edge existed.
    pub fn remove_edge(&mut self, left: ChannelId, right: Binding) -> (r: bool)
        requires
            old(self).wf(),
        ensures
            final(self).wf(),
            r == old(self).edges().contains((left, right)),
            final(self).edges() == old(self).edges().remove((left, right)),
            final(self).lefts() == old(self).lefts(),
            final(self).rights() == old(self).rights(),
    {
        let a = enc_left(left);
        let b = enc_right(right);
        let r = graph_remove_edge(&mut self.graph, a, b);
        proof {
            assert(self.edges() =~= old(self).edges().remove((left, right)));
            assert(self.lefts() =~= old(self).lefts());
            assert(self.rights() =~= old(self).rights());
        }
        r
    }

    pub fn contains_edge(&self, left: ChannelId, right: Binding) -> (r: bool)
        ensures
            r == self.edges().contains((left, right)),
    {
        graph_contains_edge(&self.graph, enc_left(left), enc_right(right))
    }

    /// The bindings a channel is joined to, each exactly once.
    pub fn neighbors_of_left(&self, left: ChannelId) -> (r: Vec<Binding>)
        requires
            self.wf(),
        ensures
            r@.no_duplicates(),
            forall|b: Binding| #[trigger] r@.contains(b) <==> self.edges().contains((left, b)),
    {
        let n = enc_left(left);
        let raw = graph_neighbors(&self.graph, n);
        let mut out: Vec<Binding> = Vec::new();
        let mut i: usize = 0;
        while i < raw.len()
            invariant
                i <= raw@.len(),
                self.wf(),
                raw@.no_duplicates(),
                forall|x: RawNode|
                    #[trigger] raw@.contains(x) <==> (graph_edges(self.graph).contains((n, x))
                        || graph_edges(self.graph).contains((x, n))),
                n == spec_enc_left(left),
                out@.len() == i,
                forall|j: int| 0 <= j < i ==> #[trigger] out@[j] == spec_dec_right(raw@[j]),
                forall|j: int| 0 <= j < i ==> is_right_node(#[trigger] raw@[j]),
            decreases raw@.len() - i,
        {
            let x = raw[i];
            proof {
                assert(raw@.contains(x));
                if graph_edges(self.graph).contains((x, n)) {
                    assert(is_right_node(n));
                    assert(false);
                }
                assert(graph_edges(self.graph).contains((n, x)));
                assert(is_right_node(x));
            }
            let b = dec_right(x);
            out.push(b);
            i = i + 1;
        }
        proof {
            assert forall|b: Binding| #[trigger] out@.contains(b) implies self.edges().contains(
                (left, b),
            ) by {
                let j = choose|j: int| 0 <= j < out@.len() && out@[j] == b;
                assert(raw@.contains(raw@[j]));
                assert(spec_enc_right(b) == raw@[j]);
            };
            assert forall|b: Binding| self.edges().contains((left, b)) implies #[trigger] out@
                .contains(b) by {
                assert(graph_edges(self.graph).contains((n, spec_enc_right(b))));
                assert(raw@.contains(spec_enc_right(b)));
                let j = choose|j: int| 0 <= j < raw@.len() && raw@[j] == spec_enc_right(b);
                assert(out@[j] == spec_dec_right(spec_enc_right(b)));
                assert(out@[j] == b);
            };
            assert forall|j: int, k: int|
                0 <= j < out@.len() && 0 <= k < out@.len() && j != k implies out@[j] != out@[k] by {
                if out@[j] == out@[k] {
                    assert(spec_enc_right(out@[j]) == raw@[j]);
                    assert(spec_enc_right(out@[k]) == raw@[k]);
                }
            };
            assert(out@.no_duplicates());
        }
        out
    }

    /// The channels a binding is joined to, each exactly once.
    pub fn neighbors_of_right(&self, right: Binding) -> (r: Vec<ChannelId>)
        requires
            self.wf(),
        ensures
            r@.no_duplicates(),
            forall|c: ChannelId| #[trigger] r@.contains(c) <==> self.edges().contains((c, right)),
    {
        let n = enc_right(right);
        let raw = graph_neighbors(&self.graph, n);
        let mut out: Vec<ChannelId> = Vec::new();
        let mut i: usize = 0;
        while i < raw.len()
            invariant
                i <= raw@.len(),
                self.wf(),
                raw@.no_duplicates(),
                forall|x: RawNode|
                    #[trigger] raw@.contains(x) <==> (graph_edges(self.graph).contains((n, x))
                        || graph_edges(self.graph).contains((x, n))),
                n == spec_enc_right(right),
                out@.len() == i,
                forall|j: int| 0 <= j < i ==> #[trigger] out@[j] == spec_dec_left(raw@[j]),
                forall|j: int| 0 <= j < i ==> is_left_node(#[trigger] raw@[j]),
            decreases raw@.len() - i,
        {
            let x = raw[i];
            proof {
                assert(raw@.contains(x));
                if graph_edges(self.graph).contains((n, x)) {
                    assert(is_left_node(n));
                    assert(false);
                }
                assert(graph_edges(self.graph).contains((x, n)));
                assert(is_left_node(x));
            }
            let c = dec_left(x);
            out.push(c);
            i = i + 1;
        }
        proof {
            assert forall|c: ChannelId| #[trigger] out@.contains(c) implies self.edges().contains(
                (c, right),
            ) by {
                let j = choose|j: int| 0 <= j < out@.len() && out@[j] == c;
                assert(raw@.contains(raw@[j]));
                assert(spec_enc_left(c) == raw@[j]);
            };
            assert forall|c: ChannelId| self.edges().contains((c, right)) implies #[trigger] out@
                .contains(c) by {
                assert(graph_edges(self.graph).contains((spec_enc_left(c), n)));
                assert(raw@.contains(spec_enc_left(c)));
                let j = choose|j: int| 0 <= j < raw@.len() && raw@[j] == spec_enc_left(c);
                assert(out@[j] == spec_dec_left(spec_enc_left(c)));
                assert(out@[j] == c);
            };
            assert forall|j: int, k: int|
                0 <= j < out@.len() && 0 <= k < out@.len() && j != k implies out@[j] != out@[k] by {
                if out@[j] == out@[k] {
                    assert(spec_enc_left(out@[j]) == raw@[j]);
                    assert(spec_enc_left(out@[k]) == raw@[k]);
                }
            };
            assert(out@.no_duplicates());
        }
        out
    }
}

} // verus!
