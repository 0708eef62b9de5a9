//! Hierarchical associative memory engine.
//!
//! Interactions are queued in a FIFO [`Buffer`], digested into layer-0
//! [`MemoryNode`]s of a [`MemoryStore`] by [`Metabolism`], and consolidated
//! layer by layer by [`LayerConsolidator`]. The [`GenesisBlock`] gates
//! candidate action embeddings by cosine similarity.
//!
//! Embeddings are fixed-point vectors: each component is the real value
//! multiplied by [`EMBEDDING_SCALE`] and rounded.

pub mod error;
mod sys;
pub mod node;
pub mod interaction;
pub mod wallet;
pub mod vector;
pub mod wide;
pub mod store;
pub mod buffer;
pub mod text;
pub mod ports;
pub mod metabolism;
pub mod consolidation;
pub mod ethics;
pub mod adapters;
pub mod immune;

pub use error::{Error, InfraError};
pub use node::{MemoryNode, NodeModel, NodeType, EMBEDDING_SCALE, MAX_LAYER};
pub use interaction::{Interaction, InteractionView};
pub use wallet::Wallet;
pub use store::{GraphEdge, MemoryStore, SearchResult, StoreModel};
pub use buffer::{Buffer, BufferModel, QueueOp, counter_from_key, key_from_counter, recover_counters};
pub use text::{consolidation_prompt, decimal_text, summary_prompt, transcript};
pub use ports::{
    AudioPort, BufferPort, EmbeddingPort, ImmunePort, InputEvent, LlmPort, ThreatLevel, ThreatReport,
    VisionPort, WindowInfo,
};
pub use metabolism::{Metabolism, DEFAULT_DIGEST_THRESHOLD};
pub use consolidation::{LayerConsolidator, DEFAULT_CONSOLIDATION_THRESHOLD};
pub use ethics::{GenesisBlock, DEFAULT_ETHICAL_THRESHOLD, THRESHOLD_SCALE};
pub use immune::{integrity_alert, is_threat, ImmuneSystem, IntegrityAlert};
pub use adapters::{BasicImmuneAdapter, MockEmbeddingAdapter, MockLlmAdapter, contains_text, isqrt};
