//! Memory nodes: the records of the hierarchical store.
use vstd::prelude::*;
use crate::sys::{fresh_id, now_seconds, json_text};

verus! {

/// Fixed-point scale of embedding components: a component `c` stands for the
/// real value `c / EMBEDDING_SCALE`.
pub const EMBEDDING_SCALE: i32 = 65536;

/// Highest layer a node may have.
pub const MAX_LAYER: u8 = 10;

/// Kinds of memory nodes.
#[derive(Debug, Clone, Copy, PartialEq, Eq, Structural)]
pub enum NodeType {
    /// A base fact or piece of information.
    Fact,
    /// A summary of several nodes (layer above zero, or a digest).
    Summary,
    /// A thought or inference.
    Thought,
    /// User profile information.
    Profile,
    /// System telemetry or metadata.
    System,
    /// Harvested from an external source.
    External,
}

impl Default for NodeType {
    fn default() -> (r: Self)
        ensures
            r == NodeType::Fact,
    {
        NodeType::Fact
    }
}

impl NodeType {
    /// The lower-case name of the kind, as displayed to users.
    pub fn name(&self) -> (r: &'static str)
        ensures
            *self == NodeType::Fact ==> r@ == "fact"@,
            *self == NodeType::Summary ==> r@ == "summary"@,
            *self == NodeType::Thought ==> r@ == "thought"@,
            *self == NodeType::Profile ==> r@ == "profile"@,
            *self == NodeType::System ==> r@ == "system"@,
            *self == NodeType::External ==> r@ == "external"@,
    {
        match self {
            NodeType::Fact => "fact",
            NodeType::Summary => "summary",
            NodeType::Thought => "thought",
            NodeType::Profile => "profile",
            NodeType::System => "system",
            NodeType::External => "external",
        }
    }
}

/// The name under which a node type is stored.
pub open spec fn record_name_of(t: NodeType) -> Seq<char> {
    match t {
        NodeType::Fact => "Fact"@,
        NodeType::Summary => "Summary"@,
        NodeType::Thought => "Thought"@,
        NodeType::Profile => "Profile"@,
        NodeType::System => "System"@,
        NodeType::External => "External"@,
    }
}

impl NodeType {
    /// The name under which the type is stored.
    pub fn record_name(&self) -> (r: &'static str)
        ensures
            r@ == record_name_of(*self),
    {
        match self {
            NodeType::Fact => "Fact",
            NodeType::Summary => "Summary",
            NodeType::Thought => "Thought",
            NodeType::Profile => "Profile",
            NodeType::System => "System",
            NodeType::External => "External",
        }
    }

    /// The type stored under `name`; an unknown name reads as `Fact`.
    pub fn from_record_name(name: &str) -> (r: NodeType)
        ensures
            (exists|t: NodeType| record_name_of(t) == name@) ==> record_name_of(r) == name@,
            (forall|t: NodeType| record_name_of(t) != name@) ==> r == NodeType::Fact,
    {
        let n = String::from_str(name);
        proof {
            reveal_strlit("Fact");
            reveal_strlit("Summary");
            reveal_strlit("Thought");
            reveal_strlit("Profile");
            reveal_strlit("System");
            reveal_strlit("External");
        }
        if n == String::from_str("Summary") {
            assert(record_name_of(NodeType::Summary) == name@);
            NodeType::Summary
        } else if n == String::from_str("Thought") {
            assert(record_name_of(NodeType::Thought) == name@);
            NodeType::Thought
        } else if n == String::from_str("Profile") {
            assert(record_name_of(NodeType::Profile) == name@);
            NodeType::Profile
        } else if n == String::from_str("System") {
            assert(record_name_of(NodeType::System) == name@);
            NodeType::System
        } else if n == String::from_str("External") {
            assert(record_name_of(NodeType::External) == name@);
            NodeType::External
        } else {
            proof {
                assert forall|t: NodeType| #[trigger] record_name_of(t) == name@ implies record_name_of(NodeType::Fact)
                    == name@ by {
                    match t {
                        NodeType::Fact => {},
                        NodeType::Summary => {},
                        NodeType::Thought => {},
                        NodeType::Profile => {},
                        NodeType::System => {},
                        NodeType::External => {},
                    }
                }
            }
            NodeType::Fact
        }
    }
}

/// Distinct node types are stored under distinct names, so reading a stored
/// name gives back the type.
pub proof fn lemma_record_name_round_trip(t: NodeType, u: NodeType)
    ensures
        record_name_of(t) == record_name_of(u) <==> t == u,
{
    reveal_strlit("Fact");
    reveal_strlit("Summary");
    reveal_strlit("Thought");
    reveal_strlit("Profile");
    reveal_strlit("System");
    reveal_strlit("External");
    if t != u {
        let a = record_name_of(t);
        let b = record_name_of(u);
        assert(a.len() != b.len() || a[0] != b[0] || a[1] != b[1]);
    }
}

/// Metadata entries: key and JSON text of the value.
pub type MetaModel = Seq<(Seq<char>, Seq<char>)>;

/// The mathematical value of a [`MemoryNode`].
pub struct NodeModel {
    pub id: Seq<char>,
    pub content: Seq<char>,
    pub layer: u8,
    pub node_type: NodeType,
    pub created_at: i64,
    pub updated_at: i64,
    pub embedding: Seq<i32>,
    pub metadata: MetaModel,
    pub namespace: Seq<char>,
    pub source: Seq<char>,
}

/// A node of the memory graph.
#[derive(Debug, Clone)]
pub struct MemoryNode {
    /// Unique identifier.
    pub id: String,
    /// The text the node holds.
    pub content: String,
    /// Hierarchy depth: 0 for base facts, 1 and above for summaries.
    pub layer: u8,
    pub node_type: NodeType,
    /// Seconds since the Unix epoch.
    pub created_at: i64,
    pub updated_at: i64,
    /// Fixed-point embedding (see [`EMBEDDING_SCALE`]).
    pub embedding: Vec<i32>,
    /// Key and JSON text of each metadata value; keys are looked up first to last.
    pub metadata: Vec<(String, String)>,
    /// Tenant tag.
    pub namespace: String,
    /// Origin label (`user`, `metabolism`, `consolidation`, ...).
    pub source: String,
}

impl View for MemoryNode {
    type V = NodeModel;

    open spec fn view(&self) -> NodeModel {
        NodeModel {
            id: self.id@,
            content: self.content@,
            layer: self.layer,
            node_type: self.node_type,
            created_at: self.created_at,
            updated_at: self.updated_at,
            embedding: self.embedding@,
            metadata: meta_view(self.metadata@),
            namespace: self.namespace@,
            source: self.source@,
        }
    }
}

pub open spec fn meta_view(m: Seq<(String, String)>) -> MetaModel {
    m.map_values(|e: (String, String)| (e.0@, e.1@))
}

/// `i` is the first position of key `k` in `m`.
pub open spec fn first_key_at(m: MetaModel, k: Seq<char>, i: int) -> bool {
    &&& 0 <= i < m.len()
    &&& m[i].0 == k
    &&& forall|j: int| 0 <= j < i ==> m[j].0 != k
}

/// `m` with the value of key `k` set to `v`: the first entry of `k` is
/// replaced, or the entry is appended when `k` is absent.
pub open spec fn meta_put(m: MetaModel, k: Seq<char>, v: Seq<char>) -> MetaModel {
    if exists|i: int| first_key_at(m, k, i) {
        m.update(choose|i: int| first_key_at(m, k, i), (k, v))
    } else {
        m.push((k, v))
    }
}

/// A copy of a fixed-point vector.
pub fn copy_vector(v: &Vec<i32>) -> (r: Vec<i32>)
    ensures
        r@ == v@,
{
    let mut r: Vec<i32> = Vec::new();
    let mut i: usize = 0;
    while i < v.len()
        invariant
            i <= v.len(),
            r@ == v@.take(i as int),
        decreases v.len() - i,
    {
        r.push(v[i]);
        i = i + 1;
    }
    assert(r@ =~= v@);
    r
}

fn copy_metadata(m: &Vec<(String, String)>) -> (r: Vec<(String, String)>)
    ensures
        meta_view(r@) == meta_view(m@),
{
    let mut r: Vec<(String, String)> = Vec::new();
    let mut i: usize = 0;
    while i < m.len()
        invariant
            i <= m.len(),
            r@.len() == i,
            forall|j: int| 0 <= j < i ==> r@[j].0@ == m@[j].0@ && r@[j].1@ == m@[j].1@,
        decreases m.len() - i,
    {
        let k = m[i].0.clone();
        let v = m[i].1.clone();
        r.push((k, v));
        i = i + 1;
    }
    assert(meta_view(r@) =~= meta_view(m@));
    r
}

impl MemoryNode {
    /// A layer-0 fact in namespace `default` from source `user`, with a
    /// fresh identifier, the current time, no embedding and no metadata.
    pub fn new(content: String) -> (r: Self)
        ensures
            r@.id.len() == 36,
            r@.content == content@,
            r@.layer == 0,
            r@.node_type == NodeType::Fact,
            r@.created_at == r@.updated_at,
            r@.embedding.len() == 0,
            r@.metadata.len() == 0,
            r@.namespace == "default"@,
            r@.source == "user"@,
    {
        let now = now_seconds();
        MemoryNode {
            id: fresh_id(),
            content,
            layer: 0,
            node_type: NodeType::Fact,
            created_at: now,
            updated_at: now,
            embedding: Vec::new(),
            metadata: Vec::new(),
            namespace: String::from_str("default"),
            source: String::from_str("user"),
        }
    }

    /// As [`MemoryNode::new`] at the given layer; a node above layer 0 is a
    /// summary.
    pub fn with_layer(content: String, layer: u8) -> (r: Self)
        ensures
            r@.id.len() == 36,
            r@.content == content@,
            r@.layer == layer,
            r@.node_type == (if layer > 0 { NodeType::Summary } else { NodeType::Fact }),
            r@.created_at == r@.updated_at,
            r@.embedding.len() == 0,
            r@.metadata.len() == 0,
            r@.namespace == "default"@,
            r@.source == "user"@,
    {
        let mut node = Self::new(content);
        node.layer = layer;
        if layer > 0 {
            node.node_type = NodeType::Summary;
        }
        node
    }

    /// The node with its embedding replaced.
    pub fn with_embedding(self, embedding: Vec<i32>) -> (r: Self)
        ensures
            r@ == (NodeModel { embedding: embedding@, ..self@ }),
    {
        let mut node = self;
        node.embedding = embedding;
        node
    }

    /// The node moved to another namespace.
    pub fn with_namespace(self, namespace: String) -> (r: Self)
        ensures
            r@ == (NodeModel { namespace: namespace@, ..self@ }),
    {
        let mut node = self;
        node.namespace = namespace;
        node
    }

    /// The node with metadata key `key` set to the JSON text of `value`.
    pub fn with_metadata(self, key: &str, value: serde_json::Value) -> (r: Self)
        ensures
            exists|v: Seq<char>|
                r@ == (NodeModel { metadata: #[trigger] meta_put(self@.metadata, key@, v), ..self@ }),
    {
        let text = json_text(&value);
        let k = String::from_str(key);
        let mut node = self;
        let ghost m0 = node@.metadata;
        let mut i: usize = 0;
        while i < node.metadata.len()
            invariant
                i <= node.metadata.len(),
                node@ == self@,
                m0 == self@.metadata,
                k@ == key@,
                forall|j: int| 0 <= j < i ==> m0[j].0 != key@,
            decreases node.metadata.len() - i,
        {
            if node.metadata[i].0 == k {
                proof {
                    assert(first_key_at(m0, key@, i as int));
                    let c = choose|c: int| first_key_at(m0, key@, c);
                    assert(c == i) by {
                        if c < i {
                            assert(m0[c].0 != key@);
                        } else if c > i {
                            assert(m0[i as int].0 != key@);
                        }
                    }
                }
                node.metadata.set(i, (k, text));
                proof {
                    assert(node@.metadata =~= meta_put(m0, key@, text@));
                }
                return node;
            }
            i = i + 1;
        }
        node.metadata.push((k, text));
        proof {
            assert(node@.metadata =~= meta_put(m0, key@, text@));
        }
        node
    }

    /// A summary node at `layer` from `source` in namespace `default`, with
    /// identifier `id`, created and updated at `now`.
    pub fn summary(id: String, now: i64, content: String, embedding: Vec<i32>, layer: u8, source: &str) -> (r:
        Self)
        ensures
            r@.id == id@,
            r@.content == content@,
            r@.embedding == embedding@,
            r@.layer == layer,
            r@.node_type == NodeType::Summary,
            r@.created_at == now,
            r@.updated_at == now,
            r@.metadata.len() == 0,
            r@.namespace == "default"@,
            r@.source == source@,
    {
        MemoryNode {
            id,
            content,
            layer,
            node_type: NodeType::Summary,
            created_at: now,
            updated_at: now,
            embedding,
            metadata: Vec::new(),
            namespace: String::from_str("default"),
            source: String::from_str(source),
        }
    }

    /// A field-by-field copy of the node.
    pub fn duplicate(&self) -> (r: Self)
        ensures
            r@ == self@,
    {
        MemoryNode {
            id: self.id.clone(),
            content: self.content.clone(),
            layer: self.layer,
            node_type: self.node_type,
            created_at: self.created_at,
            updated_at: self.updated_at,
            embedding: copy_vector(&self.embedding),
            metadata: copy_metadata(&self.metadata),
            namespace: self.namespace.clone(),
            source: self.source.clone(),
        }
    }
}

impl Default for MemoryNode {
    fn default() -> (r: Self)
        ensures
            r@.content.len() == 0,
            r@.layer == 0,
            r@.node_type == NodeType::Fact,
            r@.namespace == "default"@,
            r@.source == "user"@,
    {
        Self::new(String::new())
    }
}

} // verus!
