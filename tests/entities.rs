use synapse::{Interaction, MemoryNode, NodeType, Wallet, EMBEDDING_SCALE};

fn fx(v: &[f32]) -> Vec<i32> {
    v.iter().map(|x| (x * EMBEDDING_SCALE as f32).round() as i32).collect()
}

#[test]
fn test_new_interaction() {
    let interaction = Interaction::new("Hello".to_string(), "Hi there!".to_string());
    assert!(!interaction.id.is_empty());
    assert_eq!(interaction.user_input, "Hello");
    assert_eq!(interaction.ai_response, "Hi there!");
    assert!(!interaction.processed);
}

#[test]
fn interaction_session_and_processed_flag() {
    let mut i = Interaction::new("Q".to_string(), "A".to_string()).with_session("s1".to_string());
    assert_eq!(i.session_id, "s1");
    assert!(!i.processed);
    i.mark_processed();
    assert!(i.processed);
    assert_eq!(i.user_input, "Q");
}

#[test]
fn interaction_ids_are_hyphenated_uuids() {
    let a = Interaction::new("Q".to_string(), "A".to_string());
    let b = Interaction::new("Q".to_string(), "A".to_string());
    assert_eq!(a.id.len(), 36);
    assert_ne!(a.id, b.id);
}

#[test]
fn test_new_memory_node() {
    let node = MemoryNode::new("Test content".to_string());
    assert!(!node.id.is_empty());
    assert_eq!(node.content, "Test content");
    assert_eq!(node.layer, 0);
    assert_eq!(node.namespace, "default");
}

#[test]
fn test_with_layer() {
    let node = MemoryNode::with_layer("Summary".to_string(), 1);
    assert_eq!(node.layer, 1);
    assert!(matches!(node.node_type, NodeType::Summary));
}

#[test]
fn with_layer_zero_is_a_fact() {
    let node = MemoryNode::with_layer("Fact".to_string(), 0);
    assert_eq!(node.node_type, NodeType::Fact);
}

#[test]
fn test_with_embedding() {
    let embedding = fx(&[0.1, 0.2, 0.3]);
    let node = MemoryNode::new("Test".to_string()).with_embedding(embedding.clone());
    assert_eq!(node.embedding, embedding);
}

#[test]
fn metadata_is_set_and_replaced_by_key() {
    let node = MemoryNode::new("Test".to_string())
        .with_metadata("mood", serde_json::Value::String("calm".to_string()))
        .with_metadata("count", serde_json::Value::Bool(true))
        .with_metadata("mood", serde_json::Value::Null);
    assert_eq!(node.metadata.len(), 2);
    assert_eq!(node.metadata[0], ("mood".to_string(), "null".to_string()));
    assert_eq!(node.metadata[1], ("count".to_string(), "true".to_string()));
}

#[test]
fn duplicate_copies_every_field() {
    let node = MemoryNode::new("Test".to_string())
        .with_embedding(vec![1, -2, 3])
        .with_namespace("personal".to_string());
    let copy = node.duplicate();
    assert_eq!(copy.id, node.id);
    assert_eq!(copy.embedding, vec![1, -2, 3]);
    assert_eq!(copy.namespace, "personal");
}

#[test]
fn node_type_names() {
    assert_eq!(NodeType::Fact.name(), "fact");
    assert_eq!(NodeType::Summary.name(), "summary");
    assert_eq!(NodeType::External.name(), "external");
    assert_eq!(NodeType::default(), NodeType::Fact);
}

#[test]
fn wallet_credit_and_debit() {
    let mut w = Wallet::new("addr".to_string());
    assert_eq!(w.balance, 0);
    w.credit(100);
    assert_eq!(w.balance, 100);
    assert!(w.debit(40).is_ok());
    assert_eq!(w.balance, 60);
    assert_eq!(w.debit(61), Err("Insufficient funds".to_string()));
    assert_eq!(w.balance, 60);
}

#[test]
fn wallet_lock_tokens() {
    let mut w = Wallet::new("addr".to_string());
    assert_eq!(w.lock_tokens(1), Err("Insufficient funds to lock".to_string()));
    w.credit(10);
    assert_eq!(w.lock_tokens(4), Ok(()));
    assert_eq!((w.balance, w.locked_balance), (6, 4));
    w.locked_balance = u64::MAX;
    assert_eq!(w.lock_tokens(1), Err("Locked balance overflow".to_string()));
    assert_eq!((w.balance, w.locked_balance), (6, u64::MAX));
}

#[test]
fn node_type_record_names_round_trip() {
    for t in [NodeType::Fact, NodeType::Summary, NodeType::Thought, NodeType::Profile, NodeType::System, NodeType::External] {
        assert_eq!(NodeType::from_record_name(t.record_name()), t);
    }
    assert_eq!(NodeType::Summary.record_name(), "Summary");
    assert_eq!(NodeType::from_record_name("unknown"), NodeType::Fact);
}
