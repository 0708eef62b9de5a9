use synapse::{Error, MemoryNode, MemoryStore, NodeType, EMBEDDING_SCALE};

fn fx(v: &[f32]) -> Vec<i32> {
    v.iter().map(|x| (x * EMBEDDING_SCALE as f32).round() as i32).collect()
}

fn store3() -> MemoryStore {
    MemoryStore::new(3)
}

#[test]
fn test_create_in_memory() {
    let adapter = store3();
    assert_eq!(adapter.count(), 0);
    assert_eq!(adapter.dimension(), 3);
}

#[test]
fn test_store_and_retrieve() {
    let mut adapter = store3();
    let node = MemoryNode::new("Test content".to_string()).with_embedding(fx(&[0.1, 0.2, 0.3]));
    let id = adapter.store(node.clone()).unwrap();
    assert!(!id.is_empty());
    let retrieved = adapter.get_by_id(&id);
    assert!(retrieved.is_some());
    assert_eq!(retrieved.unwrap().content, "Test content");
}

#[test]
fn test_count() {
    let mut adapter = store3();
    assert_eq!(adapter.count(), 0);
    let node = MemoryNode::new("Test".to_string()).with_embedding(fx(&[0.1, 0.2, 0.3]));
    adapter.store(node).unwrap();
    assert_eq!(adapter.count(), 1);
}

#[test]
fn test_delete() {
    let mut adapter = store3();
    let node = MemoryNode::new("To delete".to_string()).with_embedding(fx(&[0.1, 0.2, 0.3]));
    let id = node.id.clone();
    adapter.store(node).unwrap();
    adapter.delete(&id).unwrap();
    assert!(adapter.get_by_id(&id).is_none());
}

#[test]
fn test_vector_search() {
    let mut adapter = store3();
    let node1 = MemoryNode::new("Close vector".to_string()).with_embedding(fx(&[0.1, 0.2, 0.3]));
    let node2 = MemoryNode::new("Far vector".to_string()).with_embedding(fx(&[0.9, 0.8, 0.7]));
    adapter.store(node1).unwrap();
    adapter.store(node2).unwrap();
    let query = fx(&[0.1, 0.2, 0.3]);
    let results = adapter.search(&query, 2).unwrap();
    assert_eq!(results.len(), 2);
    assert!(results[0].distance_sq < results[1].distance_sq);
    assert_eq!(results[0].node.content, "Close vector");
    assert_eq!(results[0].distance_sq, 0);
}

#[test]
fn test_search_by_layer() {
    let mut adapter = store3();
    let fact = MemoryNode::with_layer("Layer 0 fact".to_string(), 0).with_embedding(fx(&[0.1, 0.2, 0.3]));
    let summary = MemoryNode::with_layer("Layer 1 summary".to_string(), 1).with_embedding(fx(&[0.1, 0.2, 0.3]));
    adapter.store(fact).unwrap();
    adapter.store(summary).unwrap();
    let results = adapter.search_layer(&fx(&[0.1, 0.2, 0.3]), 0, 10).unwrap();
    assert_eq!(results.len(), 1);
    assert_eq!(results[0].node.layer, 0);
}

#[test]
fn test_search_by_namespace() {
    let mut adapter = store3();
    let personal = MemoryNode::new("Personal data".to_string())
        .with_namespace("personal".to_string())
        .with_embedding(fx(&[0.1, 0.2, 0.3]));
    let medical = MemoryNode::new("Medical data".to_string())
        .with_namespace("orionhealth".to_string())
        .with_embedding(fx(&[0.1, 0.2, 0.3]));
    adapter.store(personal).unwrap();
    adapter.store(medical).unwrap();
    let results = adapter.search_namespace(&fx(&[0.1, 0.2, 0.3]), "personal", 10).unwrap();
    assert_eq!(results.len(), 1);
    assert_eq!(results[0].node.namespace, "personal");
}

#[test]
fn test_hirag_relationships() {
    let mut adapter = store3();
    let fact = MemoryNode::new("Fact node".to_string()).with_embedding(vec![0, 0, 0]);
    let summary = MemoryNode::new("Summary node".to_string()).with_embedding(vec![0, 0, 0]);
    let fact_id = adapter.store(fact).unwrap();
    let summary_id = adapter.store(summary).unwrap();
    adapter.add_relationship(&summary_id, "summarizes", &fact_id).unwrap();
    let e = &adapter.edges()[0];
    assert_eq!((e.from_id.as_str(), e.relation.as_str(), e.to_id.as_str()), (summary_id.as_str(), "summarizes", fact_id.as_str()));
}

#[test]
fn test_count_by_layer() {
    let mut adapter = store3();
    assert_eq!(adapter.count_by_layer(0), 0);
    assert_eq!(adapter.count_by_layer(1), 0);
    let fact1 = MemoryNode::with_layer("Fact 1".to_string(), 0).with_embedding(fx(&[0.1, 0.2, 0.3]));
    let fact2 = MemoryNode::with_layer("Fact 2".to_string(), 0).with_embedding(fx(&[0.1, 0.2, 0.3]));
    adapter.store(fact1).unwrap();
    adapter.store(fact2).unwrap();
    let summary = MemoryNode::with_layer("Summary".to_string(), 1).with_embedding(fx(&[0.1, 0.2, 0.3]));
    adapter.store(summary).unwrap();
    assert_eq!(adapter.count_by_layer(0), 2);
    assert_eq!(adapter.count_by_layer(1), 1);
    assert_eq!(adapter.count_by_layer(2), 0);
}

#[test]
fn store_rejects_wrong_dimension() {
    let mut s = store3();
    let r = s.store(MemoryNode::new("x".to_string()).with_embedding(vec![1, 2]));
    assert_eq!(r, Err(Error::DimensionMismatch { expected: 3, got: 2 }));
    assert_eq!(s.count(), 0);
}

#[test]
fn store_rejects_invalid_nodes() {
    let mut s = store3();
    let high = MemoryNode::with_layer("x".to_string(), 11).with_embedding(vec![1, 2, 3]);
    assert!(matches!(s.store(high), Err(Error::Validation { .. })));
    let anonymous = MemoryNode::new("x".to_string()).with_namespace(String::new()).with_embedding(vec![1, 2, 3]);
    assert!(matches!(s.store(anonymous), Err(Error::Validation { .. })));
    let mut backwards = MemoryNode::new("x".to_string()).with_embedding(vec![1, 2, 3]);
    backwards.updated_at = backwards.created_at - 1;
    assert!(matches!(s.store(backwards), Err(Error::Validation { .. })));
    assert_eq!(s.count(), 0);
}

#[test]
fn store_rejects_taken_identifier() {
    let mut s = store3();
    let n = MemoryNode::new("x".to_string()).with_embedding(vec![1, 2, 3]);
    s.store(n.clone()).unwrap();
    assert!(matches!(s.store(n), Err(Error::System(_))));
    assert_eq!(s.count(), 1);
}

#[test]
fn stored_node_is_retrieved_whole() {
    let mut s = store3();
    let n = MemoryNode::with_layer("x".to_string(), 2)
        .with_embedding(vec![4, 5, 6])
        .with_namespace("ns".to_string());
    s.store(n.clone()).unwrap();
    let got = s.get_by_id(&n.id).unwrap();
    assert_eq!(got.id, n.id);
    assert_eq!(got.content, n.content);
    assert_eq!(got.layer, 2);
    assert_eq!(got.node_type, NodeType::Summary);
    assert_eq!(got.embedding, vec![4, 5, 6]);
    assert_eq!(got.namespace, "ns");
    assert_eq!(got.created_at, n.created_at);
}

#[test]
fn delete_twice_is_not_an_error() {
    let mut s = store3();
    let n = MemoryNode::new("x".to_string()).with_embedding(vec![1, 2, 3]);
    let id = s.store(n).unwrap();
    assert_eq!(s.delete(&id), Ok(()));
    assert_eq!(s.delete(&id), Ok(()));
    assert_eq!(s.delete("missing"), Ok(()));
    assert_eq!(s.count(), 0);
}

#[test]
fn update_inserts_absent_and_replaces_present() {
    let mut s = store3();
    let n = MemoryNode::new("first".to_string()).with_embedding(vec![1, 2, 3]);
    s.update(n.clone()).unwrap();
    assert_eq!(s.get_by_id(&n.id).unwrap().content, "first");
    let mut changed = n.clone();
    changed.content = "second".to_string();
    s.update(changed).unwrap();
    assert_eq!(s.count(), 1);
    assert_eq!(s.get_by_id(&n.id).unwrap().content, "second");
    assert_eq!(s.update(MemoryNode::new("bad".to_string())), Err(Error::DimensionMismatch { expected: 3, got: 0 }));
}

#[test]
fn search_respects_top_k_and_order() {
    let mut s = MemoryStore::new(1);
    for v in [5, -1, 3, 10, 0] {
        s.store(MemoryNode::new(format!("{}", v)).with_embedding(vec![v])).unwrap();
    }
    let r = s.search(&vec![0], 3).unwrap();
    let got: Vec<(String, u128)> = r.iter().map(|h| (h.node.content.clone(), h.distance_sq)).collect();
    assert_eq!(got, vec![("0".to_string(), 0), ("-1".to_string(), 1), ("3".to_string(), 9)]);
    assert_eq!(s.search(&vec![0], 0).unwrap().len(), 0);
    assert_eq!(s.search(&vec![0], 99).unwrap().len(), 5);
}

#[test]
fn search_rejects_wrong_query_length() {
    let s = store3();
    assert_eq!(s.search(&vec![1], 1).unwrap_err(), Error::DimensionMismatch { expected: 3, got: 1 });
}

#[test]
fn layer_filter_applies_before_top_k() {
    let mut s = MemoryStore::new(1);
    s.store(MemoryNode::with_layer("near".to_string(), 1).with_embedding(vec![0])).unwrap();
    s.store(MemoryNode::with_layer("far".to_string(), 0).with_embedding(vec![100])).unwrap();
    let r = s.search_layer(&vec![0], 0, 1).unwrap();
    assert_eq!(r.len(), 1);
    assert_eq!(r[0].node.content, "far");
}

#[test]
fn get_by_layer_keeps_storage_order() {
    let mut s = MemoryStore::new(1);
    s.store(MemoryNode::with_layer("a".to_string(), 0).with_embedding(vec![0])).unwrap();
    s.store(MemoryNode::with_layer("b".to_string(), 1).with_embedding(vec![0])).unwrap();
    s.store(MemoryNode::with_layer("c".to_string(), 0).with_embedding(vec![0])).unwrap();
    let names: Vec<String> = s.get_by_layer(0).iter().map(|n| n.content.clone()).collect();
    assert_eq!(names, vec!["a", "c"]);
}
