//! Consolidation of the nodes of one layer into a summary one layer up.
use vstd::prelude::*;
use crate::error::Error;
use crate::node::{MemoryNode, NodeModel, NodeType, MAX_LAYER};
use crate::ports::{EmbeddingPort, LlmPort};
use crate::store::{EdgeModel, MemoryStore, StoreModel, has_id, on_layer};
use crate::sys::{fresh_id, now_seconds};
use crate::text::consolidation_prompt;

verus! {

/// Default number of same-layer nodes that triggers a consolidation.
pub const DEFAULT_CONSOLIDATION_THRESHOLD: usize = 5;

/// Maximum number of tokens of a consolidation summary.
pub const CONSOLIDATION_MAX_TOKENS: usize = 500;

/// A node as consolidating `layer` creates it: a summary on the next layer
/// from source `consolidation` in namespace `default`, with equal
/// timestamps.
pub open spec fn is_consolidation_node(n: NodeModel, layer: u8) -> bool {
    &&& n.layer == layer + 1
    &&& n.node_type == NodeType::Summary
    &&& n.namespace == "default"@
    &&& n.source == "consolidation"@
    &&& n.created_at == n.updated_at
    &&& n.metadata.len() == 0
}

/// A layer with `count` nodes is left alone at threshold `threshold`.
pub open spec fn below_threshold(count: nat, threshold: nat) -> bool {
    count < threshold || count == 0
}

/// The `summarizes` edges from `id` to each of `sources`, in order.
pub open spec fn provenance(id: Seq<char>, sources: Seq<NodeModel>) -> Seq<EdgeModel> {
    sources.map_values(|m: NodeModel| (id, "summarizes"@, m.id))
}

pub open spec fn nodes_view(v: Seq<MemoryNode>) -> Seq<NodeModel> {
    v.map_values(|n: MemoryNode| n@)
}

/// `n` is a consolidation summary on one of layers 1 to the highest, made
/// from the nodes `before` held on the layer below it, and `edges` link it
/// to each of them.
pub open spec fn summary_made(before: Seq<NodeModel>, n: NodeModel, edges: Seq<EdgeModel>) -> bool {
    &&& 1 <= n.layer <= MAX_LAYER
    &&& is_consolidation_node(n, (n.layer - 1) as u8)
    &&& n.id.len() == 36
    &&& forall|i: int|
        0 <= i < before.filter(on_layer((n.layer - 1) as u8)).len() ==> edges.contains(
            (n.id, "summarizes"@, #[trigger] before.filter(on_layer((n.layer - 1) as u8))[i].id),
        )
}

proof fn lemma_summary_made_grows(before: Seq<NodeModel>, n: NodeModel, edges: Seq<EdgeModel>, extra: Seq<EdgeModel>)
    requires
        summary_made(before, n, edges),
    ensures
        summary_made(before, n, edges + extra),
{
    let src = before.filter(on_layer((n.layer - 1) as u8));
    assert forall|i: int| 0 <= i < src.len() implies (edges + extra).contains(
        (n.id, "summarizes"@, #[trigger] src[i].id),
    ) by {
        let e = (n.id, "summarizes"@, src[i].id);
        assert(edges.contains(e));
        let j = choose|j: int| 0 <= j < edges.len() && edges[j] == e;
        assert((edges + extra)[j] == e);
    }
}

/// The nodes of `s` on `layer`, in storage order.
pub open spec fn layer_nodes(s: StoreModel, layer: u8) -> Seq<NodeModel> {
    s.nodes.filter(on_layer(layer))
}

/// A layer with a node on it is within range.
proof fn lemma_layer_occurs(nodes: Seq<NodeModel>, layer: u8)
    requires
        nodes.filter(on_layer(layer)).len() > 0,
    ensures
        exists|i: int| 0 <= i < nodes.len() && nodes[i].layer == layer,
    decreases nodes.len(),
{
    reveal_with_fuel(Seq::filter, 1);
    if nodes.len() > 0 {
        if nodes.last().layer == layer {
            assert(nodes[nodes.len() - 1].layer == layer);
        } else {
            lemma_layer_occurs(nodes.drop_last(), layer);
            let i = choose|i: int| 0 <= i < nodes.drop_last().len() && nodes.drop_last()[i].layer == layer;
            assert(nodes[i].layer == layer);
        }
    }
}

/// Summarises the nodes of a layer into a node one layer up.
pub struct LayerConsolidator<L: LlmPort, E: EmbeddingPort> {
    llm: L,
    embedder: E,
    threshold: usize,
}

impl<L: LlmPort, E: EmbeddingPort> LayerConsolidator<L, E> {
    pub closed spec fn spec_threshold(&self) -> usize {
        self.threshold
    }

    /// A consolidator with the default threshold.
    pub fn new(llm: L, embedder: E) -> (r: Self)
        ensures
            r.spec_threshold() == DEFAULT_CONSOLIDATION_THRESHOLD,
    {
        LayerConsolidator { llm, embedder, threshold: DEFAULT_CONSOLIDATION_THRESHOLD }
    }

    /// The consolidator with another threshold.
    pub fn with_threshold(self, threshold: usize) -> (r: Self)
        ensures
            r.spec_threshold() == threshold,
    {
        let mut c = self;
        c.threshold = threshold;
        c
    }

    /// The number of same-layer nodes that triggers a consolidation.
    pub fn threshold(&self) -> (r: usize)
        ensures
            r == self.spec_threshold(),
    {
        self.threshold
    }

    /// Stores `summary` with its `embedding` as a consolidation node one
    /// layer above `layer`, with identifier `id` and stamped `now`, then
    /// records a `summarizes` edge from it to each of `sources`, and returns
    /// the identifier. Fails, leaving the store unchanged, with
    /// `DimensionMismatch` when the embedding length differs from the store's
    /// dimension, otherwise with `Validation` when `layer + 1` is beyond the
    /// highest layer, and otherwise with `System` when `id` is taken.
    pub fn install_summary(
        memory: &mut MemoryStore,
        layer: u8,
        sources: &Vec<MemoryNode>,
        summary: String,
        embedding: Vec<i32>,
        id: String,
        now: i64,
    ) -> (r: Result<String, Error>)
        requires
            old(memory)@.wf(),
            layer < MAX_LAYER + 1,
        ensures
            final(memory)@.wf(),
            final(memory)@.dimension == old(memory)@.dimension,
            r is Ok <==> embedding@.len() == old(memory)@.dimension && layer < MAX_LAYER && !has_id(
                old(memory)@.nodes,
                id@,
            ),
            embedding@.len() != old(memory)@.dimension ==> r is Err && r->Err_0.is_dimension_mismatch(
                old(memory)@.dimension,
                embedding@.len(),
            ),
            embedding@.len() == old(memory)@.dimension && layer + 1 > MAX_LAYER ==> r is Err
                && r->Err_0.is_validation(),
            embedding@.len() == old(memory)@.dimension && layer < MAX_LAYER && has_id(
                old(memory)@.nodes,
                id@,
            ) ==> r is Err && r->Err_0.is_system(),
            r is Err ==> final(memory)@ == old(memory)@,
            r matches Ok(rid) ==> rid@ == id@ && layer < MAX_LAYER && exists|n: NodeModel|
                #[trigger] is_consolidation_node(n, layer) && n.id == id@ && n.content == summary@
                    && n.embedding == embedding@ && n.created_at == now && final(memory)@.nodes == old(
                    memory,
                )@.nodes.push(n) && final(memory)@.edges == old(memory)@.edges + provenance(
                    id@,
                    nodes_view(sources@),
                ),
    {
        let node = MemoryNode::summary(id, now, summary, embedding, layer + 1, "consolidation");
        let ghost n = node@;
        proof {
            reveal_strlit("default");
        }
        let id = match memory.store(node) {
            Ok(id) => id,
            Err(e) => return Err(e),
        };
        let ghost nodes1 = memory@.nodes;
        let ghost edges0 = memory@.edges;
        let mut i: usize = 0;
        while i < sources.len()
            invariant
                memory@.wf(),
                memory@.nodes == nodes1,
                memory@.dimension == old(memory)@.dimension,
                i <= sources@.len(),
                memory@.edges == edges0 + provenance(id@, nodes_view(sources@).take(i as int)),
            decreases sources.len() - i,
        {
            let ghost before = memory@.edges;
            let _ = memory.add_relationship(id.as_str(), "summarizes", sources[i].id.as_str());
            proof {
                let sv = nodes_view(sources@);
                assert(sv.take(i + 1) =~= sv.take(i as int).push(sources@[i as int]@));
                assert(provenance(id@, sv.take(i + 1)) =~= provenance(id@, sv.take(i as int)).push(
                    (id@, "summarizes"@, sources@[i as int]@.id),
                ));
                assert(memory@.edges =~= edges0 + provenance(id@, sv.take(i + 1)));
            }
            i = i + 1;
        }
        proof {
            assert(nodes_view(sources@).take(sources@.len() as int) =~= nodes_view(sources@));
            assert(is_consolidation_node(n, layer));
        }
        Ok(id)
    }

    /// Consolidates `layer` when it holds at least `threshold` nodes (and at
    /// least one): the enumerated contents are summarised by the language
    /// model, the summary embedded and installed one layer up with a
    /// `summarizes` edge to every node of `layer`. Returns the identifier of
    /// the new node, or `None` (the store unchanged) below the threshold.
    /// A failure of the model, the embedder or the store leaves the store
    /// unchanged.
    pub fn consolidate_layer(&self, memory: &mut MemoryStore, layer: u8) -> (r: Result<
        Option<String>,
        Error,
    >)
        requires
            old(memory)@.wf(),
        ensures
            final(memory)@.wf(),
            final(memory)@.dimension == old(memory)@.dimension,
            (r == Ok::<Option<String>, Error>(None)) <==> below_threshold(
                layer_nodes(old(memory)@, layer).len(),
                self.spec_threshold() as nat,
            ),
            r is Err || r == Ok::<Option<String>, Error>(None) ==> final(memory)@ == old(memory)@,
            r matches Ok(Some(id)) ==> layer < MAX_LAYER && exists|n: NodeModel|
                #[trigger] is_consolidation_node(n, layer) && n.id == id@ && n.id.len() == 36 && n.embedding.len()
                    == old(memory)@.dimension && final(memory)@.nodes == old(memory)@.nodes.push(n)
                    && final(memory)@.edges == old(memory)@.edges + provenance(
                    id@,
                    layer_nodes(old(memory)@, layer),
                ),
    {
        let count = memory.count_by_layer(layer);
        if count < self.threshold {
            return Ok(None);
        }
        let nodes = memory.get_by_layer(layer);
        if nodes.len() == 0 {
            return Ok(None);
        }
        proof {
            lemma_layer_occurs(memory@.nodes, layer);
            let i = choose|i: int| 0 <= i < memory@.nodes.len() && memory@.nodes[i].layer == layer;
            assert(crate::store::node_is_valid(memory@.nodes[i], memory@.dimension));
        }
        let prompt = consolidation_prompt(&nodes);
        let summary = match self.llm.generate(prompt.as_str(), CONSOLIDATION_MAX_TOKENS) {
            Ok(s) => s,
            Err(e) => return Err(e),
        };
        let embedding = match self.embedder.embed(summary.as_str()) {
            Ok(v) => v,
            Err(e) => return Err(e),
        };
        let id = fresh_id();
        let now = now_seconds();
        match Self::install_summary(memory, layer, &nodes, summary, embedding, id, now) {
            Ok(id) => Ok(Some(id)),
            Err(e) => Err(e),
        }
    }

    /// Consolidates layers upward from 0: after a consolidation the next
    /// layer is tried; a layer left as it is ends the walk at layer 0 and is
    /// skipped above it. The highest layer is never consolidated, since its
    /// summary would lie beyond it. Returns the number of summary nodes
    /// created; when layer 0 is below the threshold that is none and the
    /// store is unchanged.
    pub fn consolidate_all(&self, memory: &mut MemoryStore) -> (r: Result<usize, Error>)
        requires
            old(memory)@.wf(),
        ensures
            final(memory)@.wf(),
            final(memory)@.dimension == old(memory)@.dimension,
            below_threshold(layer_nodes(old(memory)@, 0).len(), self.spec_threshold() as nat) ==> r
                == Ok::<usize, Error>(0) && final(memory)@ == old(memory)@,
            !below_threshold(layer_nodes(old(memory)@, 0).len(), self.spec_threshold() as nat)
                && r is Ok ==> r->Ok_0 >= 1,
            r matches Ok(c) ==> c <= MAX_LAYER && exists|added: Seq<NodeModel>|
                added.len() == c && final(memory)@.nodes == old(memory)@.nodes + added && (forall|t: int|
                    0 <= t < added.len() ==> #[trigger] summary_made(
                        old(memory)@.nodes + added.take(t),
                        added[t],
                        final(memory)@.edges,
                    )),
    {
        let ghost old_m = memory@;
        let ghost below = below_threshold(layer_nodes(old_m, 0).len(), self.spec_threshold() as nat);
        let ghost mut added: Seq<NodeModel> = Seq::empty();
        let mut created: usize = 0;
        let mut layer: u8 = 0;
        let mut done = false;
        proof {
            assert(old_m.nodes + added =~= old_m.nodes);
        }
        while !done
            invariant
                memory@.wf(),
                memory@.dimension == old_m.dimension,
                old_m == old(memory)@,
                below == below_threshold(layer_nodes(old_m, 0).len(), self.spec_threshold() as nat),
                layer <= MAX_LAYER,
                created <= layer,
                added.len() == created,
                memory@.nodes == old_m.nodes + added,
                forall|t: int|
                    0 <= t < added.len() ==> #[trigger] summary_made(
                        old_m.nodes + added.take(t),
                        added[t],
                        memory@.edges,
                    ),
                below ==> layer == 0 && created == 0 && memory@ == old_m,
                !below && (layer > 0 || done) ==> created >= 1,
            decreases MAX_LAYER - layer, (if done { 0int } else { 1int }),
        {
            if layer >= MAX_LAYER {
                done = true;
            } else {
                let ghost before = memory@;
                match self.consolidate_layer(memory, layer) {
                    Err(e) => return Err(e),
                    Ok(Some(_)) => {
                        proof {
                            let n = choose|n: NodeModel|
                                #[trigger] is_consolidation_node(n, layer) && n.id.len() == 36
                                    && n.embedding.len() == before.dimension && memory@.nodes
                                    == before.nodes.push(n) && memory@.edges == before.edges
                                    + provenance(n.id, layer_nodes(before, layer));
                            let extra = provenance(n.id, layer_nodes(before, layer));
                            let added2 = added.push(n);
                            assert forall|t: int| 0 <= t < added2.len() implies #[trigger] summary_made(
                                old_m.nodes + added2.take(t),
                                added2[t],
                                memory@.edges,
                            ) by {
                                if t < added.len() {
                                    assert(added2.take(t) =~= added.take(t));
                                    assert(summary_made(old_m.nodes + added.take(t), added[t], before.edges));
                                    lemma_summary_made_grows(old_m.nodes + added.take(t), added[t], before.edges, extra);
                                } else {
                                    assert(added2.take(t) =~= added);
                                    lemma_provenance_recorded(n.id, layer_nodes(before, layer), before.edges, memory@.edges);
                                }
                            }
                            assert(old_m.nodes + added2 =~= (old_m.nodes + added).push(n));
                            added = added2;
                        }
                        created = created + 1;
                        layer = layer + 1;
                    },
                    Ok(None) => {
                        if layer == 0 {
                            done = true;
                        } else {
                            layer = layer + 1;
                        }
                    },
                }
            }
        }
        Ok(created)
    }
}


/// After a consolidation, each source node is the target of a
/// `summarizes` edge from the summary.
pub proof fn lemma_provenance_recorded(
    id: Seq<char>,
    sources: Seq<NodeModel>,
    before: Seq<EdgeModel>,
    after: Seq<EdgeModel>,
)
    requires
        after == before + provenance(id, sources),
    ensures
        forall|i: int| 0 <= i < sources.len() ==> after.contains((id, "summarizes"@, #[trigger] sources[i].id)),
{
    assert forall|i: int| 0 <= i < sources.len() implies after.contains((id, "summarizes"@, #[trigger] sources[i].id)) by {
        assert(after[before.len() + i] == (id, "summarizes"@, sources[i].id));
    }
}

/// A layer one node short of a positive threshold is left alone; a layer
/// at the threshold is not.
pub proof fn lemma_threshold_boundary(threshold: nat)
    requires
        threshold > 0,
    ensures
        below_threshold((threshold - 1) as nat, threshold),
        !below_threshold(threshold, threshold),
{
}

} // verus!
