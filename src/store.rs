//! The hierarchical memory store: nodes, provenance edges, filtered search.
use vstd::prelude::*;
use crate::error::Error;
use crate::node::{MemoryNode, NodeModel, MAX_LAYER};
use crate::vector::{sq_dist, squared_distance};

verus! {

/// A provenance edge `(from_id, relation, to_id)`.
pub type EdgeModel = (Seq<char>, Seq<char>, Seq<char>);

/// The mathematical value of a [`MemoryStore`].
pub struct StoreModel {
    pub dimension: nat,
    pub nodes: Seq<NodeModel>,
    pub edges: Seq<EdgeModel>,
}

/// A node as the store accepts it: embedding of the store's dimension,
/// layer within range, non-empty namespace, ordered timestamps.
pub open spec fn node_is_valid(n: NodeModel, dimension: nat) -> bool {
    &&& n.embedding.len() == dimension
    &&& n.layer <= MAX_LAYER
    &&& n.namespace.len() > 0
    &&& n.updated_at >= n.created_at
}

/// Some node of `nodes` has identifier `id`.
pub open spec fn has_id(nodes: Seq<NodeModel>, id: Seq<char>) -> bool {
    exists|i: int| 0 <= i < nodes.len() && nodes[i].id == id
}

/// The position of the node with identifier `id`.
pub open spec fn index_of(nodes: Seq<NodeModel>, id: Seq<char>) -> int {
    choose|i: int| 0 <= i < nodes.len() && nodes[i].id == id
}

/// The node with identifier `id`, if any.
pub open spec fn lookup(nodes: Seq<NodeModel>, id: Seq<char>) -> Option<NodeModel> {
    if has_id(nodes, id) {
        Some(nodes[index_of(nodes, id)])
    } else {
        None
    }
}

/// `nodes` with `n` replacing the node of the same identifier, or appended.
pub open spec fn upsert(nodes: Seq<NodeModel>, n: NodeModel) -> Seq<NodeModel> {
    if has_id(nodes, n.id) {
        nodes.update(index_of(nodes, n.id), n)
    } else {
        nodes.push(n)
    }
}

/// `nodes` without the node of identifier `id`.
pub open spec fn remove_id(nodes: Seq<NodeModel>, id: Seq<char>) -> Seq<NodeModel> {
    if has_id(nodes, id) {
        nodes.remove(index_of(nodes, id))
    } else {
        nodes
    }
}

/// The view of an optional namespace filter.
pub open spec fn ns_view(ns: Option<String>) -> Option<Seq<char>> {
    match ns {
        Some(s) => Some(s@),
        None => None,
    }
}

pub open spec fn on_layer(layer: u8) -> spec_fn(NodeModel) -> bool {
    |n: NodeModel| n.layer == layer
}

/// A node passes a search filter: on `layer` if one is given, in namespace
/// `ns` if one is given.
pub open spec fn admits(layer: Option<u8>, ns: Option<Seq<char>>, n: NodeModel) -> bool {
    &&& (layer matches Some(l) ==> n.layer == l)
    &&& (ns matches Some(s) ==> n.namespace == s)
}

/// `rs` is a top-`k` answer over `nodes` for query `q` and the filter:
/// `idx` gives the distinct positions of the results, each admitted, with
/// its squared distance; results ascend by distance; any admitted node left
/// out means the answer is full and no result is farther than it.
pub open spec fn ranked(
    nodes: Seq<NodeModel>,
    q: Seq<i32>,
    layer: Option<u8>,
    ns: Option<Seq<char>>,
    k: nat,
    rs: Seq<(NodeModel, u128)>,
    idx: Seq<int>,
) -> bool {
    &&& rs.len() == idx.len()
    &&& rs.len() <= k
    &&& forall|t: int|
        0 <= t < rs.len() ==> {
            &&& 0 <= #[trigger] idx[t] < nodes.len()
            &&& rs[t].0 == nodes[idx[t]]
            &&& admits(layer, ns, nodes[idx[t]])
            &&& rs[t].1 as int == sq_dist(q, nodes[idx[t]].embedding)
        }
    &&& forall|s: int, t: int| 0 <= s < t < rs.len() ==> idx[s] != idx[t]
    &&& forall|s: int, t: int| 0 <= s < t < rs.len() ==> rs[s].1 <= rs[t].1
    &&& forall|m: int|
        0 <= m < nodes.len() && admits(layer, ns, nodes[m]) && !idx.contains(m) ==> {
            &&& rs.len() == k
            &&& forall|t: int| 0 <= t < rs.len() ==> rs[t].1 as int <= sq_dist(q, nodes[m].embedding)
        }
}

impl StoreModel {
    /// Every node is valid and identifiers are unique.
    pub open spec fn wf(self) -> bool {
        &&& forall|i: int| 0 <= i < self.nodes.len() ==> node_is_valid(self.nodes[i], self.dimension)
        &&& forall|i: int, j: int|
            0 <= i < j < self.nodes.len() ==> self.nodes[i].id != self.nodes[j].id
    }
}

/// One search hit.
#[derive(Debug, Clone)]
pub struct SearchResult {
    /// The matching node.
    pub node: MemoryNode,
    /// Squared Euclidean distance to the query in fixed-point units; it
    /// orders hits as the distance does (smaller is closer).
    pub distance_sq: u128,
}

pub open spec fn hit_view(r: SearchResult) -> (NodeModel, u128) {
    (r.node@, r.distance_sq)
}

pub open spec fn hits_view(rs: Seq<SearchResult>) -> Seq<(NodeModel, u128)> {
    rs.map_values(|r: SearchResult| hit_view(r))
}

/// A provenance edge between two nodes.
#[derive(Debug, Clone)]
pub struct GraphEdge {
    pub from_id: String,
    pub relation: String,
    pub to_id: String,
}

/// The in-memory vector store.
pub struct MemoryStore {
    dimension: usize,
    nodes: Vec<MemoryNode>,
    edges: Vec<GraphEdge>,
}

impl View for MemoryStore {
    type V = StoreModel;

    closed spec fn view(&self) -> StoreModel {
        StoreModel {
            dimension: self.dimension as nat,
            nodes: self.nodes@.map_values(|n: MemoryNode| n@),
            edges: self.edges@.map_values(|e: GraphEdge| (e.from_id@, e.relation@, e.to_id@)),
        }
    }
}

/// The error `store`/`update` report for an invalid node, if any.
pub open spec fn node_error_kind(n: NodeModel, dimension: nat) -> Option<nat> {
    if n.embedding.len() != dimension {
        Some(0)
    } else if !node_is_valid(n, dimension) {
        Some(1)
    } else {
        None
    }
}

impl Error {
    pub open spec fn is_dimension_mismatch(&self, expected: nat, got: nat) -> bool {
        match self {
            Error::DimensionMismatch { expected: e, got: g } => e == expected && g == got,
            _ => false,
        }
    }

    pub open spec fn is_validation(&self) -> bool {
        self is Validation
    }

    pub open spec fn is_system(&self) -> bool {
        self is System
    }
}

impl MemoryStore {
    /// An empty store whose embeddings have `dimension` components.
    pub fn new(dimension: usize) -> (r: Self)
        ensures
            r@.dimension == dimension,
            r@.nodes.len() == 0,
            r@.edges.len() == 0,
            r@.wf(),
    {
        MemoryStore { dimension, nodes: Vec::new(), edges: Vec::new() }
    }

    /// The configured embedding dimension.
    pub fn dimension(&self) -> (r: usize)
        ensures
            r == self@.dimension,
    {
        self.dimension
    }

    /// The provenance edges recorded so far, oldest first.
    pub fn edges(&self) -> (r: &Vec<GraphEdge>)
        ensures
            r@.map_values(|e: GraphEdge| (e.from_id@, e.relation@, e.to_id@)) == self@.edges,
    {
        &self.edges
    }

    /// Checks a node against the store's rules.
    fn check_node(&self, node: &MemoryNode) -> (r: Result<(), Error>)
        ensures
            r is Ok <==> node_error_kind(node@, self@.dimension) is None,
            node_error_kind(node@, self@.dimension) == Some(0nat) ==> r is Err
                && r->Err_0.is_dimension_mismatch(self@.dimension, node@.embedding.len()),
            node_error_kind(node@, self@.dimension) == Some(1nat) ==> r is Err
                && r->Err_0.is_validation(),
    {
        if node.embedding.len() != self.dimension {
            return Err(Error::DimensionMismatch { expected: self.dimension, got: node.embedding.len() });
        }
        if node.layer > MAX_LAYER {
            return Err(Error::Validation { message: String::from_str("layer out of range") });
        }
        if node.namespace.as_str().is_empty() {
            return Err(Error::Validation { message: String::from_str("empty namespace") });
        }
        if node.updated_at < node.created_at {
            return Err(Error::Validation { message: String::from_str("updated before created") });
        }
        Ok(())
    }

    /// The position of the node with identifier `id`, if any.
    fn position(&self, id: &String) -> (r: Option<usize>)
        requires
            self@.wf(),
        ensures
            r is None <==> !has_id(self@.nodes, id@),
            r matches Some(i) ==> i < self@.nodes.len() && i == index_of(self@.nodes, id@),
    {
        let ghost nodes = self@.nodes;
        let mut i: usize = 0;
        while i < self.nodes.len()
            invariant
                nodes == self@.nodes,
                self@.wf(),
                i <= self.nodes@.len(),
                nodes.len() == self.nodes@.len(),
                forall|j: int| 0 <= j < i ==> nodes[j].id != id@,
            decreases self.nodes.len() - i,
        {
            if self.nodes[i].id == *id {
                proof {
                    assert(nodes[i as int].id == id@);
                    let c = index_of(nodes, id@);
                    assert(nodes[c].id == id@);
                }
                return Some(i);
            }
            i = i + 1;
        }
        None
    }

    /// Stores a new node and returns its identifier. Fails with
    /// `DimensionMismatch` when the embedding length differs from the
    /// dimension, `Validation` for an otherwise invalid node, and `System`
    /// when the identifier is taken; the store is then unchanged.
    pub fn store(&mut self, node: MemoryNode) -> (r: Result<String, Error>)
        requires
            old(self)@.wf(),
        ensures
            final(self)@.wf(),
            final(self)@.dimension == old(self)@.dimension,
            final(self)@.edges == old(self)@.edges,
            r is Ok <==> node_error_kind(node@, old(self)@.dimension) is None && !has_id(
                old(self)@.nodes,
                node@.id,
            ),
            r matches Ok(id) ==> id@ == node@.id && final(self)@.nodes == old(self)@.nodes.push(
                node@,
            ),
            r is Err ==> final(self)@.nodes == old(self)@.nodes,
            node_error_kind(node@, old(self)@.dimension) == Some(0nat) ==> r is Err
                && r->Err_0.is_dimension_mismatch(old(self)@.dimension, node@.embedding.len()),
            node_error_kind(node@, old(self)@.dimension) == Some(1nat) ==> r is Err
                && r->Err_0.is_validation(),
            node_error_kind(node@, old(self)@.dimension) is None && has_id(
                old(self)@.nodes,
                node@.id,
            ) ==> r is Err && r->Err_0.is_system(),
    {
        match self.check_node(&node) {
            Err(e) => return Err(e),
            Ok(()) => {},
        }
        if self.position(&node.id).is_some() {
            return Err(Error::System(String::from_str("record already exists")));
        }
        let id = node.id.clone();
        let ghost old_nodes = self@.nodes;
        self.nodes.push(node);
        proof {
            assert(self@.nodes =~= old_nodes.push(node@));
        }
        Ok(id)
    }

    /// The node with identifier `id`, if stored.
    pub fn get_by_id(&self, id: &str) -> (r: Option<MemoryNode>)
        requires
            self@.wf(),
        ensures
            r matches Some(n) ==> lookup(self@.nodes, id@) == Some(n@),
            r is None ==> lookup(self@.nodes, id@) is None,
    {
        let key = String::from_str(id);
        match self.position(&key) {
            Some(i) => Some(self.nodes[i].duplicate()),
            None => None,
        }
    }

    /// Replaces the node with the same identifier, or stores it when absent.
    /// Fails as [`MemoryStore::store`] does on an invalid node.
    pub fn update(&mut self, node: MemoryNode) -> (r: Result<(), Error>)
        requires
            old(self)@.wf(),
        ensures
            final(self)@.wf(),
            final(self)@.dimension == old(self)@.dimension,
            final(self)@.edges == old(self)@.edges,
            r is Ok <==> node_error_kind(node@, old(self)@.dimension) is None,
            r is Ok ==> final(self)@.nodes == upsert(old(self)@.nodes, node@),
            r is Err ==> final(self)@.nodes == old(self)@.nodes,
            node_error_kind(node@, old(self)@.dimension) == Some(0nat) ==> r is Err
                && r->Err_0.is_dimension_mismatch(old(self)@.dimension, node@.embedding.len()),
            node_error_kind(node@, old(self)@.dimension) == Some(1nat) ==> r is Err
                && r->Err_0.is_validation(),
    {
        match self.check_node(&node) {
            Err(e) => return Err(e),
            Ok(()) => {},
        }
        let ghost old_nodes = self@.nodes;
        match self.position(&node.id) {
            Some(i) => {
                self.nodes.set(i, node);
                proof {
                    assert(self@.nodes =~= old_nodes.update(i as int, node@));
                    assert forall|a: int, b: int| 0 <= a < b < self@.nodes.len() implies self@.nodes[a].id
                        != self@.nodes[b].id by {
                        if a != i && b != i {
                            assert(old_nodes[a].id != old_nodes[b].id);
                        } else if a == i {
                            assert(old_nodes[a].id != old_nodes[b].id);
                        } else {
                            assert(old_nodes[a].id != old_nodes[b].id);
                        }
                    }
                }
            },
            None => {
                self.nodes.push(node);
                proof {
                    assert(self@.nodes =~= old_nodes.push(node@));
                }
            },
        }
        Ok(())
    }

    /// Deletes the node with identifier `id`; deleting an absent identifier
    /// is not an error.
    pub fn delete(&mut self, id: &str) -> (r: Result<(), Error>)
        requires
            old(self)@.wf(),
        ensures
            r is Ok,
            final(self)@.wf(),
            final(self)@.dimension == old(self)@.dimension,
            final(self)@.edges == old(self)@.edges,
            final(self)@.nodes == remove_id(old(self)@.nodes, id@),
    {
        let key = String::from_str(id);
        let ghost old_nodes = self@.nodes;
        match self.position(&key) {
            Some(i) => {
                let _gone = self.nodes.remove(i);
                proof {
                    assert(self@.nodes =~= old_nodes.remove(i as int));
                    assert forall|a: int, b: int| 0 <= a < b < self@.nodes.len() implies self@.nodes[a].id
                        != self@.nodes[b].id by {
                        let a2 = if a < i { a } else { a + 1 };
                        let b2 = if b < i { b } else { b + 1 };
                        assert(old_nodes[a2].id != old_nodes[b2].id);
                    }
                }
            },
            None => {},
        }
        Ok(())
    }

    /// The number of stored nodes.
    pub fn count(&self) -> (r: usize)
        ensures
            r == self@.nodes.len(),
    {
        self.nodes.len()
    }

    /// Copies of the nodes on `layer`, in storage order.
    pub fn get_by_layer(&self, layer: u8) -> (r: Vec<MemoryNode>)
        ensures
            r@.map_values(|n: MemoryNode| n@) == self@.nodes.filter(on_layer(layer)),
    {
        let ghost nodes = self@.nodes;
        let mut out: Vec<MemoryNode> = Vec::new();
        let mut i: usize = 0;
        while i < self.nodes.len()
            invariant
                nodes == self@.nodes,
                nodes.len() == self.nodes@.len(),
                i <= nodes.len(),
                out@.map_values(|n: MemoryNode| n@) == nodes.take(i as int).filter(on_layer(layer)),
            decreases self.nodes.len() - i,
        {
            proof {
                reveal_with_fuel(Seq::filter, 1);
                assert(nodes.take(i + 1).drop_last() =~= nodes.take(i as int));
            }
            if self.nodes[i].layer == layer {
                let ghost before = out@;
                out.push(self.nodes[i].duplicate());
                proof {
                    assert(out@.map_values(|n: MemoryNode| n@) =~= before.map_values(
                        |n: MemoryNode| n@,
                    ).push(nodes[i as int]));
                }
            }
            i = i + 1;
        }
        assert(nodes.take(nodes.len() as int) =~= nodes);
        out
    }

    /// The number of nodes on `layer`.
    pub fn count_by_layer(&self, layer: u8) -> (r: usize)
        ensures
            r == self@.nodes.filter(on_layer(layer)).len(),
    {
        let ghost nodes = self@.nodes;
        let mut c: usize = 0;
        let mut i: usize = 0;
        while i < self.nodes.len()
            invariant
                nodes == self@.nodes,
                nodes.len() == self.nodes@.len(),
                i <= nodes.len(),
                c == nodes.take(i as int).filter(on_layer(layer)).len(),
                c <= i,
            decreases self.nodes.len() - i,
        {
            proof {
                reveal_with_fuel(Seq::filter, 1);
                assert(nodes.take(i + 1).drop_last() =~= nodes.take(i as int));
            }
            if self.nodes[i].layer == layer {
                c = c + 1;
            }
            i = i + 1;
        }
        assert(nodes.take(nodes.len() as int) =~= nodes);
        c
    }

    /// Records the edge `(from_id, relation, to_id)`.
    pub fn add_relationship(&mut self, from_id: &str, relation: &str, to_id: &str) -> (r: Result<
        (),
        Error,
    >)
        ensures
            r is Ok,
            final(self)@.dimension == old(self)@.dimension,
            final(self)@.nodes == old(self)@.nodes,
            final(self)@.edges == old(self)@.edges.push((from_id@, relation@, to_id@)),
    {
        let ghost old_edges = self@.edges;
        let ghost old_nodes = self@.nodes;
        self.edges.push(
            GraphEdge {
                from_id: String::from_str(from_id),
                relation: String::from_str(relation),
                to_id: String::from_str(to_id),
            },
        );
        proof {
            assert(self@.edges =~= old_edges.push((from_id@, relation@, to_id@)));
            assert(self@.nodes =~= old_nodes);
        }
        Ok(())
    }
}


impl MemoryStore {
    /// Filter test of the node at position `i`.
    fn admits_at(&self, i: usize, layer: Option<u8>, ns: &Option<String>) -> (r: bool)
        requires
            i < self@.nodes.len(),
        ensures
            r == admits(layer, ns_view(*ns), self@.nodes[i as int]),
    {
        let n = &self.nodes[i];
        let layer_ok = match layer {
            Some(l) => n.layer == l,
            None => true,
        };
        let ns_ok = match ns {
            Some(s) => n.namespace == *s,
            None => true,
        };
        layer_ok && ns_ok
    }

    /// The `top_k` admitted nodes closest to `query`, closest first.
    fn search_where(&self, query: &Vec<i32>, layer: Option<u8>, ns: Option<String>, top_k: usize) -> (r:
        Result<Vec<SearchResult>, Error>)
        requires
            self@.wf(),
        ensures
            r is Ok <==> query@.len() == self@.dimension,
            r is Err ==> r->Err_0.is_dimension_mismatch(self@.dimension, query@.len()),
            r is Ok ==> exists|idx: Seq<int>|
                ranked(
                    self@.nodes,
                    query@,
                    layer,
                    ns_view(ns),
                    top_k as nat,
                    hits_view(r->Ok_0@),
                    idx,
                ),
    {
        if query.len() != self.dimension {
            return Err(Error::DimensionMismatch { expected: self.dimension, got: query.len() });
        }
        let ghost nodes = self@.nodes;
        let ghost nsv = ns_view(ns);
        let n = self.nodes.len();
        let mut dist: Vec<u128> = Vec::new();
        let mut avail: Vec<bool> = Vec::new();
        let mut i: usize = 0;
        while i < n
            invariant
                self@.wf(),
                nodes == self@.nodes,
                n == nodes.len(),
                query@.len() == self@.dimension,
                nsv == ns_view(ns),
                i <= n,
                dist@.len() == i,
                avail@.len() == i,
                forall|j: int| 0 <= j < i ==> dist@[j] as int == sq_dist(query@, nodes[j].embedding),
                forall|j: int| 0 <= j < i ==> avail@[j] == admits(layer, nsv, nodes[j]),
            decreases n - i,
        {
            proof {
                assert(node_is_valid(nodes[i as int], self@.dimension));
            }
            dist.push(squared_distance(query, &self.nodes[i].embedding));
            avail.push(self.admits_at(i, layer, &ns));
            i = i + 1;
        }
        let mut out: Vec<SearchResult> = Vec::new();
        let ghost mut idx: Seq<int> = Seq::empty();
        let mut done = false;
        while !done && out.len() < top_k
            invariant
                nodes == self@.nodes,
                nsv == ns_view(ns),
                n == nodes.len(),
                dist@.len() == n,
                avail@.len() == n,
                forall|j: int| 0 <= j < n ==> dist@[j] as int == sq_dist(query@, nodes[j].embedding),
                forall|j: int| 0 <= j < n && #[trigger] avail@[j] ==> admits(layer, nsv, nodes[j]),
                forall|j: int|
                    0 <= j < n && admits(layer, nsv, nodes[j]) && !avail@[j] ==> idx.contains(j),
                forall|t: int| 0 <= t < idx.len() ==> !avail@[#[trigger] idx[t]],
                forall|t: int, j: int|
                    0 <= t < out@.len() && 0 <= j < n && avail@[j] ==> #[trigger] out@[t].distance_sq
                        <= #[trigger] dist@[j],
                done ==> forall|j: int| 0 <= j < n ==> !avail@[j],
                out@.len() <= top_k,
                ranked(nodes, query@, layer, nsv, out@.len() as nat, hits_view(out@), idx),
            decreases top_k - out@.len(), (if done { 0int } else { 1int }),
        {
            let mut best: usize = n;
            let mut j: usize = 0;
            while j < n
                invariant
                    dist@.len() == n,
                    avail@.len() == n,
                    j <= n,
                    best == n || (best < j && avail@[best as int]),
                    best == n ==> forall|m: int| 0 <= m < j ==> !avail@[m],
                    best < n ==> forall|m: int| 0 <= m < j && avail@[m] ==> dist@[best as int] <= dist@[m],
                decreases n - j,
            {
                if avail[j] && (best == n || dist[j] < dist[best]) {
                    best = j;
                }
                j = j + 1;
            }
            if best == n {
                done = true;
            } else {
                let ghost old_out = hits_view(out@);
                let ghost old_idx = idx;
                avail.set(best, false);
                out.push(SearchResult { node: self.nodes[best].duplicate(), distance_sq: dist[best] });
                proof {
                    idx = idx.push(best as int);
                    assert(hits_view(out@) =~= old_out.push((nodes[best as int], dist@[best as int])));
                    assert forall|t: int| 0 <= t < old_idx.len() implies old_idx[t] != best as int by {
                        assert(!avail@[old_idx[t]]);
                    }
                    assert forall|m: int|
                        0 <= m < n && admits(layer, nsv, nodes[m]) && !avail@[m] implies idx.contains(m) by {
                        if m != best {
                            assert(old_idx.contains(m));
                            let w = choose|w: int| 0 <= w < old_idx.len() && old_idx[w] == m;
                            assert(idx[w] == m);
                        } else {
                            assert(idx[old_idx.len() as int] == m);
                        }
                    }
                }
            }
        }
        proof {
            let rs = hits_view(out@);
            assert forall|m: int|
                0 <= m < nodes.len() && admits(layer, nsv, nodes[m]) && !idx.contains(m) implies {
                &&& rs.len() == top_k as nat
                &&& forall|t: int| 0 <= t < rs.len() ==> rs[t].1 as int <= sq_dist(query@, nodes[m].embedding)
            } by {
                assert(avail@[m]);
                assert forall|t: int| 0 <= t < rs.len() implies rs[t].1 as int <= sq_dist(query@, nodes[m].embedding) by {
                    assert(out@[t].distance_sq <= dist@[m]);
                }
            }
            assert(ranked(nodes, query@, layer, nsv, top_k as nat, rs, idx));
        }
        let ghost out_v = out@;
        let r: Result<Vec<SearchResult>, Error> = Ok(out);
        assert(r->Ok_0@ == out_v);
        assert(ranked(self@.nodes, query@, layer, ns_view(ns), top_k as nat, hits_view(r->Ok_0@), idx));
        r
    }
}


/// `r` is the outcome of a top-`k` search of `s` for `q` under the filter:
/// a dimension mismatch exactly when `q` has the wrong length, otherwise a
/// ranked answer.
pub open spec fn search_outcome(
    s: StoreModel,
    q: Seq<i32>,
    layer: Option<u8>,
    ns: Option<Seq<char>>,
    k: nat,
    r: Result<Vec<SearchResult>, Error>,
) -> bool {
    &&& (r is Ok <==> q.len() == s.dimension)
    &&& (r is Err ==> r->Err_0.is_dimension_mismatch(s.dimension, q.len()))
    &&& (r is Ok ==> exists|idx: Seq<int>| ranked(s.nodes, q, layer, ns, k, hits_view(r->Ok_0@), idx))
}

impl MemoryStore {
    /// The `top_k` nodes closest to `embedding`, closest first.
    pub fn search(&self, embedding: &Vec<i32>, top_k: usize) -> (r: Result<Vec<SearchResult>, Error>)
        requires
            self@.wf(),
        ensures
            search_outcome(self@, embedding@, None, None, top_k as nat, r),
    {
        self.search_where(embedding, None, None, top_k)
    }

    /// The `top_k` nodes on `layer` closest to `embedding`, closest first.
    pub fn search_layer(&self, embedding: &Vec<i32>, layer: u8, top_k: usize) -> (r: Result<
        Vec<SearchResult>,
        Error,
    >)
        requires
            self@.wf(),
        ensures
            search_outcome(self@, embedding@, Some(layer), None, top_k as nat, r),
    {
        self.search_where(embedding, Some(layer), None, top_k)
    }

    /// The `top_k` nodes of `namespace` closest to `embedding`, closest first.
    pub fn search_namespace(&self, embedding: &Vec<i32>, namespace: &str, top_k: usize) -> (r:
        Result<Vec<SearchResult>, Error>)
        requires
            self@.wf(),
        ensures
            search_outcome(self@, embedding@, None, Some(namespace@), top_k as nat, r),
    {
        let ns = String::from_str(namespace);
        self.search_where(embedding, None, Some(ns), top_k)
    }
}


/// Every stored node's embedding has the store's dimension.
pub proof fn lemma_embeddings_match_dimension(s: StoreModel)
    requires
        s.wf(),
    ensures
        forall|i: int| 0 <= i < s.nodes.len() ==> s.nodes[i].embedding.len() == s.dimension,
{
    assert forall|i: int| 0 <= i < s.nodes.len() implies s.nodes[i].embedding.len() == s.dimension by {
        assert(node_is_valid(s.nodes[i], s.dimension));
    }
}

/// After a node is stored, looking up its identifier finds exactly it.
pub proof fn lemma_store_then_get(before: StoreModel, after: StoreModel, n: NodeModel)
    requires
        after.wf(),
        after.nodes == before.nodes.push(n),
    ensures
        lookup(after.nodes, n.id) == Some(n),
{
    let last = before.nodes.len() as int;
    assert(after.nodes[last].id == n.id);
    let c = index_of(after.nodes, n.id);
    if c != last {
        assert(after.nodes[c].id != after.nodes[last].id);
    }
}

/// After an upsert, looking up the node's identifier finds exactly it.
pub proof fn lemma_upsert_then_get(nodes: Seq<NodeModel>, n: NodeModel)
    requires
        forall|i: int, j: int| 0 <= i < j < nodes.len() ==> nodes[i].id != nodes[j].id,
    ensures
        lookup(upsert(nodes, n), n.id) == Some(n),
        !has_id(nodes, n.id) ==> upsert(nodes, n).len() == nodes.len() + 1,
        has_id(nodes, n.id) ==> upsert(nodes, n).len() == nodes.len(),
{
    let u = upsert(nodes, n);
    if has_id(nodes, n.id) {
        let p = index_of(nodes, n.id);
        assert(u[p].id == n.id);
        let c = index_of(u, n.id);
        if c != p {
            assert(nodes[c].id == n.id);
            if c < p {
                assert(nodes[c].id != nodes[p].id);
            } else {
                assert(nodes[p].id != nodes[c].id);
            }
        }
    } else {
        let last = nodes.len() as int;
        assert(u[last].id == n.id);
        let c = index_of(u, n.id);
        if c != last {
            assert(nodes[c].id == n.id);
        }
    }
}

/// Deleting an identifier twice is the same as deleting it once.
pub proof fn lemma_delete_twice(nodes: Seq<NodeModel>, id: Seq<char>)
    requires
        forall|i: int, j: int| 0 <= i < j < nodes.len() ==> nodes[i].id != nodes[j].id,
    ensures
        !has_id(remove_id(nodes, id), id),
        remove_id(remove_id(nodes, id), id) == remove_id(nodes, id),
{
    if has_id(nodes, id) {
        let p = index_of(nodes, id);
        let r = nodes.remove(p);
        if has_id(r, id) {
            let c = choose|c: int| 0 <= c < r.len() && r[c].id == id;
            let c2 = if c < p { c } else { c + 1 };
            assert(nodes[c2].id == id);
            if c2 < p {
                assert(nodes[c2].id != nodes[p].id);
            } else {
                assert(nodes[p].id != nodes[c2].id);
            }
        }
    }
}

/// A successful search returns at most `k` hits, closest first, each
/// passing the layer and namespace filters.
pub proof fn lemma_search_hits(
    s: StoreModel,
    q: Seq<i32>,
    layer: Option<u8>,
    ns: Option<Seq<char>>,
    k: nat,
    r: Result<Vec<SearchResult>, Error>,
)
    requires
        search_outcome(s, q, layer, ns, k, r),
        r is Ok,
    ensures
        hits_view(r->Ok_0@).len() <= k,
        forall|a: int, b: int|
            0 <= a < b < hits_view(r->Ok_0@).len() ==> hits_view(r->Ok_0@)[a].1 <= hits_view(r->Ok_0@)[b].1,
        forall|t: int|
            0 <= t < hits_view(r->Ok_0@).len() ==> admits(layer, ns, #[trigger] hits_view(r->Ok_0@)[t].0),
        layer matches Some(l) ==> forall|t: int|
            0 <= t < hits_view(r->Ok_0@).len() ==> (#[trigger] hits_view(r->Ok_0@)[t]).0.layer == l,
        ns matches Some(x) ==> forall|t: int|
            0 <= t < hits_view(r->Ok_0@).len() ==> (#[trigger] hits_view(r->Ok_0@)[t]).0.namespace == x,
{
    let rs = hits_view(r->Ok_0@);
    let idx = choose|idx: Seq<int>| ranked(s.nodes, q, layer, ns, k, rs, idx);
    assert forall|t: int| 0 <= t < rs.len() implies admits(layer, ns, #[trigger] rs[t].0) by {
        assert(0 <= idx[t] < s.nodes.len());
    }
}

} // verus!
