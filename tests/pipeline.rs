use synapse::{
    consolidation_prompt, decimal_text, summary_prompt, transcript, Buffer, EmbeddingPort, Error,
    Interaction, LayerConsolidator, LlmPort, MemoryNode, MemoryStore, Metabolism, MockLlmAdapter,
    NodeType, EMBEDDING_SCALE,
};

fn fx(v: &[f32]) -> Vec<i32> {
    v.iter().map(|x| (x * EMBEDDING_SCALE as f32).round() as i32).collect()
}

struct MockLlm;

impl LlmPort for MockLlm {
    fn generate(&self, _prompt: &str, _max_tokens: usize) -> Result<String, Error> {
        Ok("SUMMARY".to_string())
    }
}

struct MockEmbedder;

impl EmbeddingPort for MockEmbedder {
    fn embed(&self, _text: &str) -> Result<Vec<i32>, Error> {
        Ok(fx(&[0.1, 0.2, 0.3]))
    }

    fn dimension(&self) -> usize {
        3
    }

    fn provider_name(&self) -> String {
        "mock".to_string()
    }
}

struct FailingLlm;

impl LlmPort for FailingLlm {
    fn generate(&self, _prompt: &str, _max_tokens: usize) -> Result<String, Error> {
        Err(Error::Internal { message: "down".to_string() })
    }
}

fn fill(buffer: &mut Buffer, n: usize, q: &str, a: &str) {
    for i in 0..n {
        buffer.push(Interaction::new(format!("{}{}", q, i), format!("{}{}", a, i))).unwrap();
    }
}

fn facts(memory: &mut MemoryStore, n: usize) -> Vec<String> {
    (0..n)
        .map(|i| memory.store(MemoryNode::new(format!("Fact {}", i)).with_embedding(vec![0, 0, 0])).unwrap())
        .collect()
}

#[test]
fn test_digest_under_threshold() {
    let mut buffer = Buffer::new();
    let mut memory = MemoryStore::new(3);
    let metabolism = Metabolism::new(MockLlm, MockEmbedder).with_threshold(5);
    fill(&mut buffer, 3, "Question ", "Answer ");
    let digested = metabolism.digest(&mut buffer, &mut memory).unwrap();
    assert_eq!(digested, 0, "Should not digest when below threshold");
    assert_eq!(buffer.len(), 3, "Buffer should remain unchanged");
    assert_eq!(memory.count(), 0, "No memory should be created");
}

#[test]
fn test_digest_creates_memory_node() {
    let mut buffer = Buffer::new();
    let mut memory = MemoryStore::new(3);
    let metabolism = Metabolism::new(MockLlm, MockEmbedder).with_threshold(3);
    fill(&mut buffer, 5, "Question ", "Answer ");
    let digested = metabolism.digest(&mut buffer, &mut memory).unwrap();
    assert_eq!(digested, 3, "Should digest threshold amount");
    assert_eq!(buffer.len(), 2, "Buffer should have remaining items");
    assert_eq!(memory.count(), 1, "One memory node should be created");
    let nodes = memory.get_by_layer(0);
    assert_eq!(nodes.len(), 1);
    assert_eq!(nodes[0].node_type, NodeType::Summary);
    assert_eq!(nodes[0].source, "metabolism");
    assert!(!nodes[0].embedding.is_empty());
}

#[test]
fn test_digest_full_pipeline() {
    let mut buffer = Buffer::new();
    let mut memory = MemoryStore::new(3);
    let metabolism = Metabolism::new(MockLlm, MockEmbedder).with_threshold(2);
    fill(&mut buffer, 6, "Q", "A");
    assert_eq!(metabolism.digest(&mut buffer, &mut memory).unwrap(), 2);
    assert_eq!(metabolism.digest(&mut buffer, &mut memory).unwrap(), 2);
    assert_eq!(metabolism.digest(&mut buffer, &mut memory).unwrap(), 2);
    assert_eq!(buffer.len(), 0);
    assert_eq!(memory.count(), 3);
}

#[test]
fn digest_scenario_below_threshold() {
    let mut buffer = Buffer::new();
    let mut memory = MemoryStore::new(3);
    let metabolism = Metabolism::new(MockLlm, MockEmbedder).with_threshold(3);
    fill(&mut buffer, 2, "Q", "A");
    assert_eq!(metabolism.digest(&mut buffer, &mut memory), Ok(0));
    assert_eq!(buffer.len(), 2);
    assert_eq!(memory.count(), 0);
}

#[test]
fn digest_scenario_at_threshold() {
    let mut buffer = Buffer::new();
    let mut memory = MemoryStore::new(3);
    let metabolism = Metabolism::new(MockLlm, MockEmbedder).with_threshold(3);
    fill(&mut buffer, 5, "Q", "A");
    assert_eq!(metabolism.digest(&mut buffer, &mut memory), Ok(3));
    assert_eq!(buffer.len(), 2);
    let rest: Vec<String> = buffer.peek(5).iter().map(|i| i.user_input.clone()).collect();
    assert_eq!(rest, vec!["Q3", "Q4"]);
    assert_eq!(memory.count(), 1);
    let n = &memory.get_by_layer(0)[0];
    assert_eq!(n.layer, 0);
    assert_eq!(n.node_type, NodeType::Summary);
    assert_eq!(n.source, "metabolism");
    assert_eq!(n.namespace, "default");
    assert_eq!(n.content, "SUMMARY");
    assert_eq!(n.embedding, fx(&[0.1, 0.2, 0.3]));
    assert_eq!(n.created_at, n.updated_at);
}

#[test]
fn digest_failure_loses_batch_but_stores_nothing() {
    let mut buffer = Buffer::new();
    let mut memory = MemoryStore::new(3);
    let metabolism = Metabolism::new(FailingLlm, MockEmbedder).with_threshold(2);
    fill(&mut buffer, 3, "Q", "A");
    assert!(metabolism.digest(&mut buffer, &mut memory).is_err());
    assert_eq!(buffer.len(), 1);
    assert_eq!(memory.count(), 0);
}

#[test]
fn digest_rejects_embedding_of_wrong_dimension() {
    let mut buffer = Buffer::new();
    let mut memory = MemoryStore::new(4);
    let metabolism = Metabolism::new(MockLlm, MockEmbedder).with_threshold(1);
    fill(&mut buffer, 1, "Q", "A");
    assert_eq!(metabolism.digest(&mut buffer, &mut memory), Err(Error::DimensionMismatch { expected: 4, got: 3 }));
    assert_eq!(memory.count(), 0);
}

#[test]
fn default_thresholds() {
    assert_eq!(Metabolism::new(MockLlm, MockEmbedder).threshold(), 10);
    assert_eq!(LayerConsolidator::new(MockLlm, MockEmbedder).threshold(), 5);
}

#[test]
fn test_consolidate_below_threshold() {
    let mut memory = MemoryStore::new(3);
    facts(&mut memory, 2);
    let consolidator = LayerConsolidator::new(MockLlm, MockEmbedder);
    let result = consolidator.consolidate_layer(&mut memory, 0).unwrap();
    assert!(result.is_none(), "Should not consolidate below threshold");
}

#[test]
fn test_consolidate_creates_summary() {
    let mut memory = MemoryStore::new(3);
    facts(&mut memory, 5);
    let consolidator = LayerConsolidator::new(MockLlm, MockEmbedder);
    let result = consolidator.consolidate_layer(&mut memory, 0).unwrap();
    assert!(result.is_some(), "Should create summary");
    let layer1_nodes = memory.get_by_layer(1);
    assert_eq!(layer1_nodes.len(), 1);
    assert!(matches!(layer1_nodes[0].node_type, NodeType::Summary));
    assert_eq!(layer1_nodes[0].source, "consolidation");
    assert_eq!(memory.edges().len(), 5, "Should have 5 summarizes relationships");
}

#[test]
fn test_consolidate_with_custom_threshold() {
    let mut memory = MemoryStore::new(3);
    facts(&mut memory, 3);
    let consolidator = LayerConsolidator::new(MockLlm, MockEmbedder).with_threshold(3);
    let result = consolidator.consolidate_layer(&mut memory, 0).unwrap();
    assert!(result.is_some(), "Should consolidate with custom threshold");
}

#[test]
fn consolidation_scenario_records_provenance() {
    let mut memory = MemoryStore::new(3);
    let ids = facts(&mut memory, 2);
    let consolidator = LayerConsolidator::new(MockLlm, MockEmbedder).with_threshold(2);
    let s = consolidator.consolidate_layer(&mut memory, 0).unwrap().unwrap();
    assert_eq!(memory.count_by_layer(1), 1);
    let edges: Vec<(String, String, String)> =
        memory.edges().iter().map(|e| (e.from_id.clone(), e.relation.clone(), e.to_id.clone())).collect();
    assert_eq!(
        edges,
        vec![
            (s.clone(), "summarizes".to_string(), ids[0].clone()),
            (s.clone(), "summarizes".to_string(), ids[1].clone())
        ]
    );
    let node = memory.get_by_id(&s).unwrap();
    assert_eq!(node.layer, 1);
    assert_eq!(node.content, "SUMMARY");
    assert_eq!(node.namespace, "default");
}

#[test]
fn consolidation_threshold_boundary() {
    let mut memory = MemoryStore::new(3);
    facts(&mut memory, 3);
    let consolidator = LayerConsolidator::new(MockLlm, MockEmbedder).with_threshold(4);
    assert_eq!(consolidator.consolidate_layer(&mut memory, 0), Ok(None));
    assert_eq!(memory.count(), 3);
    facts(&mut memory, 1);
    assert!(consolidator.consolidate_layer(&mut memory, 0).unwrap().is_some());
}

#[test]
fn consolidation_of_empty_layer_at_zero_threshold() {
    let mut memory = MemoryStore::new(3);
    let consolidator = LayerConsolidator::new(MockLlm, MockEmbedder).with_threshold(0);
    assert_eq!(consolidator.consolidate_layer(&mut memory, 0), Ok(None));
}

#[test]
fn consolidate_all_climbs_layers() {
    let mut memory = MemoryStore::new(3);
    facts(&mut memory, 2);
    let consolidator = LayerConsolidator::new(MockLlm, MockEmbedder).with_threshold(1);
    let created = consolidator.consolidate_all(&mut memory).unwrap();
    // one summary on each layer from 1 up to the highest layer
    assert_eq!(created, 10);
    assert_eq!(memory.count(), 12);
    assert_eq!(memory.count_by_layer(10), 1);
}

#[test]
fn consolidate_all_stops_at_empty_base() {
    let mut memory = MemoryStore::new(3);
    let consolidator = LayerConsolidator::new(MockLlm, MockEmbedder);
    assert_eq!(consolidator.consolidate_all(&mut memory), Ok(0));
}

#[test]
fn transcript_format() {
    let batch = vec![
        Interaction::new("Q0".to_string(), "A0".to_string()),
        Interaction::new("Q1".to_string(), "A1".to_string()),
    ];
    assert_eq!(transcript(&batch), "User: Q0\nAI: A0\nUser: Q1\nAI: A1\n");
    assert_eq!(transcript(&Vec::new()), "");
}

#[test]
fn prompt_formats() {
    assert_eq!(summary_prompt("abc"), "Summarize the following text concisely:\n\nabc\n\nSummary:");
    let nodes = vec![MemoryNode::new("x".to_string()), MemoryNode::new("y".to_string())];
    assert_eq!(
        consolidation_prompt(&nodes),
        "Summarize the following 2 items into a concise overview:\n\n1. x\n2. y"
    );
    assert_eq!(decimal_text(0), "0");
    assert_eq!(decimal_text(1207), "1207");
    assert_eq!(decimal_text(u64::MAX), u64::MAX.to_string());
}

#[test]
fn default_summarize_wraps_generate() {
    let llm = MockLlmAdapter::new();
    assert_eq!(llm.generate("hi", 10), Ok("Mock response to: hi".to_string()));
    assert_eq!(
        llm.summarize("text"),
        Ok("Mock response to: Summarize the following text concisely:\n\ntext\n\nSummary:".to_string())
    );
}

#[test]
fn store_digest_succeeds_with_a_free_identifier() {
    let mut memory = MemoryStore::new(3);
    let id = Metabolism::<MockLlm, MockEmbedder>::store_digest(&mut memory, "S".to_string(), vec![1, 2, 3], "n1".to_string(), 7);
    assert_eq!(id, Ok("n1".to_string()));
    let n = memory.get_by_id("n1").unwrap();
    assert_eq!((n.layer, n.created_at, n.updated_at, n.source.as_str()), (0, 7, 7, "metabolism"));
    let again = Metabolism::<MockLlm, MockEmbedder>::store_digest(&mut memory, "S".to_string(), vec![1, 2, 3], "n1".to_string(), 8);
    assert!(matches!(again, Err(Error::System(_))));
    assert_eq!(memory.count(), 1);
}

#[test]
fn install_summary_links_sources() {
    let mut memory = MemoryStore::new(3);
    facts(&mut memory, 2);
    let sources = memory.get_by_layer(0);
    let r = LayerConsolidator::<MockLlm, MockEmbedder>::install_summary(
        &mut memory, 0, &sources, "S".to_string(), vec![0, 0, 0], "s1".to_string(), 5,
    );
    assert_eq!(r, Ok("s1".to_string()));
    assert_eq!(memory.edges().len(), 2);
    assert_eq!(memory.get_by_id("s1").unwrap().layer, 1);
    let top = LayerConsolidator::<MockLlm, MockEmbedder>::install_summary(
        &mut memory, 10, &sources, "S".to_string(), vec![0, 0, 0], "s2".to_string(), 5,
    );
    assert!(matches!(top, Err(Error::Validation { .. })));
    assert_eq!(memory.count(), 3);
}

#[test]
fn consolidate_all_leaves_store_below_base_threshold() {
    let mut memory = MemoryStore::new(3);
    for i in 0..3 {
        memory.store(MemoryNode::with_layer(format!("s{}", i), 1).with_embedding(vec![0, 0, 0])).unwrap();
    }
    facts(&mut memory, 1);
    let consolidator = LayerConsolidator::new(MockLlm, MockEmbedder).with_threshold(2);
    assert_eq!(consolidator.consolidate_all(&mut memory), Ok(0));
    assert_eq!(memory.count(), 4);
    assert!(memory.edges().is_empty());
}
