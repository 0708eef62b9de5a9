//! Digestion of buffered interactions into layer-0 memory nodes.
use vstd::prelude::*;
use crate::buffer::{Buffer, items_view};
use crate::error::Error;
use crate::node::{MemoryNode, NodeModel, NodeType};
use crate::ports::{EmbeddingPort, LlmPort};
use crate::store::{MemoryStore, has_id};
use crate::sys::{fresh_id, now_seconds};
use crate::text::transcript;

verus! {

/// Default number of interactions that triggers a digest.
pub const DEFAULT_DIGEST_THRESHOLD: usize = 10;

/// A node as a digest creates it: a layer-0 summary from source
/// `metabolism` in namespace `default`, with equal timestamps.
pub open spec fn is_digest_node(n: NodeModel) -> bool {
    &&& n.layer == 0
    &&& n.node_type == NodeType::Summary
    &&& n.namespace == "default"@
    &&& n.source == "metabolism"@
    &&& n.created_at == n.updated_at
    &&& n.metadata.len() == 0
}

/// Moves batches of interactions from the buffer into long-term memory.
pub struct Metabolism<L: LlmPort, E: EmbeddingPort> {
    llm: L,
    embedder: E,
    threshold: usize,
}

impl<L: LlmPort, E: EmbeddingPort> Metabolism<L, E> {
    pub closed spec fn spec_threshold(&self) -> usize {
        self.threshold
    }

    /// A digester with the default threshold.
    pub fn new(llm: L, embedder: E) -> (r: Self)
        ensures
            r.spec_threshold() == DEFAULT_DIGEST_THRESHOLD,
    {
        Metabolism { llm, embedder, threshold: DEFAULT_DIGEST_THRESHOLD }
    }

    /// The digester with another threshold.
    pub fn with_threshold(self, threshold: usize) -> (r: Self)
        ensures
            r.spec_threshold() == threshold,
    {
        let mut m = self;
        m.threshold = threshold;
        m
    }

    /// The number of interactions that triggers a digest.
    pub fn threshold(&self) -> (r: usize)
        ensures
            r == self.spec_threshold(),
    {
        self.threshold
    }

    /// Stores `summary` with its `embedding` as a layer-0 digest node with
    /// identifier `id`, stamped `now`, and returns the identifier. Fails with
    /// `DimensionMismatch` when the embedding length differs from the
    /// store's dimension, and otherwise with `System` when `id` is taken; the
    /// store is then unchanged.
    pub fn store_digest(
        memory: &mut MemoryStore,
        summary: String,
        embedding: Vec<i32>,
        id: String,
        now: i64,
    ) -> (r: Result<String, Error>)
        requires
            old(memory)@.wf(),
        ensures
            final(memory)@.wf(),
            final(memory)@.dimension == old(memory)@.dimension,
            final(memory)@.edges == old(memory)@.edges,
            r is Ok <==> embedding@.len() == old(memory)@.dimension && !has_id(old(memory)@.nodes, id@),
            embedding@.len() != old(memory)@.dimension ==> r is Err && r->Err_0.is_dimension_mismatch(
                old(memory)@.dimension,
                embedding@.len(),
            ),
            embedding@.len() == old(memory)@.dimension && has_id(old(memory)@.nodes, id@) ==> r is Err
                && r->Err_0.is_system(),
            r is Err ==> final(memory)@.nodes == old(memory)@.nodes,
            r matches Ok(rid) ==> rid@ == id@ && exists|n: NodeModel|
                #[trigger] is_digest_node(n) && n.id == id@ && n.content == summary@ && n.embedding
                    == embedding@ && n.created_at == now && final(memory)@.nodes == old(memory)@.nodes.push(n),
    {
        let node = MemoryNode::summary(id, now, summary, embedding, 0, "metabolism");
        let ghost n = node@;
        proof {
            reveal_strlit("default");
        }
        let r = memory.store(node);
        proof {
            if r is Ok {
                assert(is_digest_node(n));
            }
        }
        r
    }

    /// Digests the oldest `threshold` interactions when at least that many
    /// are queued: their transcript is summarised by the language model,
    /// the summary embedded, and stored as a layer-0 digest node. Returns the
    /// number of interactions digested, 0 when below the threshold (the
    /// buffer and the store are then unchanged). A failure of the model,
    /// the embedder or the store is returned after the batch left the buffer.
    pub fn digest(&self, buffer: &mut Buffer, memory: &mut MemoryStore) -> (r: Result<usize, Error>)
        requires
            old(buffer)@.wf(),
            old(memory)@.wf(),
        ensures
            final(buffer)@.wf(),
            final(memory)@.wf(),
            final(memory)@.dimension == old(memory)@.dimension,
            final(memory)@.edges == old(memory)@.edges,
            (old(buffer)@.items.len() < self.spec_threshold() || self.spec_threshold() == 0) ==> r
                == Ok::<usize, Error>(0) && final(buffer)@ == old(buffer)@ && final(memory)@ == old(
                memory,
            )@,
            (old(buffer)@.items.len() >= self.spec_threshold() && self.spec_threshold() > 0)
                ==> final(buffer)@.items == old(buffer)@.items.skip(self.spec_threshold() as int),
            (old(buffer)@.items.len() >= self.spec_threshold() && self.spec_threshold() > 0 && r is Ok)
                ==> r == Ok::<usize, Error>(self.spec_threshold()) && exists|n: NodeModel|
                #[trigger] is_digest_node(n) && n.id.len() == 36 && n.embedding.len() == old(memory)@.dimension
                    && final(memory)@.nodes == old(memory)@.nodes.push(n),
            r is Err ==> final(memory)@.nodes == old(memory)@.nodes,
    {
        let count = buffer.len();
        if count < self.threshold {
            return Ok(0);
        }
        let ghost b0 = buffer@;
        let batch = buffer.pop_batch(self.threshold);
        assert(items_view(batch@).len() == batch@.len());
        if batch.len() == 0 {
            proof {
                assert(b0.items.skip(0) =~= b0.items);
                assert(b0.keys.skip(0) =~= b0.keys);
            }
            return Ok(0);
        }
        let text = transcript(&batch);
        let summary = match self.llm.summarize(text.as_str()) {
            Ok(s) => s,
            Err(e) => return Err(e),
        };
        let embedding = match self.embedder.embed(summary.as_str()) {
            Ok(v) => v,
            Err(e) => return Err(e),
        };
        let id = fresh_id();
        let now = now_seconds();
        match Self::store_digest(memory, summary, embedding, id, now) {
            Ok(_) => Ok(batch.len()),
            Err(e) => Err(e),
        }
    }
}

} // verus!
