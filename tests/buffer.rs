use synapse::{BufferPort, counter_from_key, key_from_counter, recover_counters, Buffer, Error, Interaction};

fn restore(b: &Buffer) -> Buffer {
    let keys = b.keys().clone();
    let items = b.peek(b.len());
    Buffer::recover(keys, items).unwrap()
}

#[test]
fn test_adapter_creation() {
    let adapter = Buffer::recover(Vec::new(), Vec::new());
    assert!(adapter.is_ok());
    let b = adapter.unwrap();
    assert_eq!(b.write_counter(), 0);
    assert_eq!(b.read_counter(), 0);
}

#[test]
fn test_push_and_pop() {
    let mut adapter = Buffer::new();
    let interaction = Interaction::new("Hello".to_string(), "Hi there!".to_string());
    adapter.push(interaction.clone()).unwrap();
    assert_eq!(adapter.len(), 1);
    let popped = adapter.pop_batch(1);
    assert_eq!(popped.len(), 1);
    assert_eq!(popped[0].user_input, "Hello");
    assert_eq!(popped[0].ai_response, "Hi there!");
    assert_eq!(adapter.len(), 0);
}

#[test]
fn test_fifo_order() {
    let mut adapter = Buffer::new();
    for i in 0..3 {
        let interaction = Interaction::new(format!("Question {}", i), format!("Answer {}", i));
        adapter.push(interaction).unwrap();
    }
    let popped = adapter.pop_batch(3);
    assert_eq!(popped.len(), 3);
    assert_eq!(popped[0].user_input, "Question 0");
    assert_eq!(popped[1].user_input, "Question 1");
    assert_eq!(popped[2].user_input, "Question 2");
}

#[test]
fn test_peek() {
    let mut adapter = Buffer::new();
    let interaction = Interaction::new("Test".to_string(), "Response".to_string());
    adapter.push(interaction).unwrap();
    let peeked = adapter.peek(1);
    assert_eq!(peeked.len(), 1);
    assert_eq!(peeked[0].user_input, "Test");
    assert_eq!(adapter.len(), 1);
}

#[test]
fn test_clear() {
    let mut adapter = Buffer::new();
    for i in 0..5 {
        let interaction = Interaction::new(format!("Q{}", i), format!("A{}", i));
        adapter.push(interaction).unwrap();
    }
    assert_eq!(adapter.len(), 5);
    adapter.clear();
    assert_eq!(adapter.len(), 0);
    assert_eq!(adapter.write_counter(), 0);
}

#[test]
fn test_persistence() {
    let mut adapter = Buffer::new();
    let interaction = Interaction::new("Persist".to_string(), "Test".to_string());
    adapter.push(interaction).unwrap();
    let reopened = restore(&adapter);
    assert_eq!(reopened.len(), 1);
    let peeked = reopened.peek(1);
    assert_eq!(peeked[0].user_input, "Persist");
}

#[test]
fn test_is_empty() {
    let mut adapter = Buffer::new();
    assert!(adapter.is_empty());
    let interaction = Interaction::new("Q".to_string(), "A".to_string());
    adapter.push(interaction).unwrap();
    assert!(!adapter.is_empty());
}

#[test]
fn test_pop_partial_batch() {
    let mut adapter = Buffer::new();
    for i in 0..2 {
        let interaction = Interaction::new(format!("Q{}", i), format!("A{}", i));
        adapter.push(interaction).unwrap();
    }
    let popped = adapter.pop_batch(5);
    assert_eq!(popped.len(), 2);
}

#[test]
fn pop_on_empty_buffer_returns_nothing() {
    let mut b = Buffer::new();
    assert!(b.pop_batch(3).is_empty());
    assert!(b.pop_batch(0).is_empty());
    assert_eq!(b.len(), 0);
}

#[test]
fn pushes_and_pops_lose_and_duplicate_nothing() {
    let mut b = Buffer::new();
    let mut popped = Vec::new();
    for i in 0..4 {
        b.push(Interaction::new(format!("Q{}", i), String::new())).unwrap();
    }
    popped.extend(b.pop_batch(3));
    for i in 4..6 {
        b.push(Interaction::new(format!("Q{}", i), String::new())).unwrap();
    }
    popped.extend(b.pop_batch(2));
    popped.extend(b.peek(10));
    let names: Vec<String> = popped.iter().map(|i| i.user_input.clone()).collect();
    assert_eq!(names, vec!["Q0", "Q1", "Q2", "Q3", "Q4", "Q5"]);
}

#[test]
fn reopening_keeps_length_and_oldest_entries() {
    let mut b = Buffer::new();
    for i in 0..4 {
        b.push(Interaction::new(format!("Q{}", i), format!("A{}", i))).unwrap();
    }
    b.pop_batch(1);
    let r = restore(&b);
    assert_eq!(r.len(), 3);
    assert_eq!(r.peek(2)[0].user_input, "Q1");
    assert_eq!(r.peek(2)[1].user_input, "Q2");
    assert_eq!(r.read_counter(), 1);
    assert_eq!(r.write_counter(), 4);
}

#[test]
fn sequence_keys_ascend_and_survive_pops() {
    let mut b = Buffer::new();
    assert_eq!(b.push(Interaction::new("a".to_string(), String::new())), Ok(0));
    assert_eq!(b.push(Interaction::new("b".to_string(), String::new())), Ok(1));
    b.pop_batch(2);
    assert_eq!(b.push(Interaction::new("c".to_string(), String::new())), Ok(2));
    assert_eq!(b.peek_keys(5), vec![2]);
}

#[test]
fn recover_rejects_bad_entries() {
    let a = Interaction::new("a".to_string(), String::new());
    let b = Interaction::new("b".to_string(), String::new());
    assert!(matches!(Buffer::recover(vec![1], vec![]), Err(Error::Internal { .. })));
    assert!(matches!(Buffer::recover(vec![2, 2], vec![a.clone(), b.clone()]), Err(Error::Internal { .. })));
    assert!(matches!(Buffer::recover(vec![u64::MAX], vec![a.clone()]), Err(Error::Internal { .. })));
    let r = Buffer::recover(vec![5, 9], vec![a, b]).unwrap();
    assert_eq!(r.read_counter(), 5);
    assert_eq!(r.write_counter(), 10);
}

#[test]
fn recover_counters_from_first_and_last_keys() {
    assert_eq!(recover_counters(None, None), Ok((0, 0)));
    assert_eq!(recover_counters(Some(3), Some(7)), Ok((8, 3)));
    assert!(recover_counters(Some(0), Some(u64::MAX)).is_err());
}

#[test]
fn keys_are_big_endian() {
    assert_eq!(key_from_counter(1), [0, 0, 0, 0, 0, 0, 0, 1]);
    assert_eq!(key_from_counter(0x0102030405060708), [1, 2, 3, 4, 5, 6, 7, 8]);
    assert_eq!(key_from_counter(u64::MAX), [255; 8]);
    assert!(key_from_counter(255) < key_from_counter(256));
    assert_eq!(counter_from_key(&[1, 2, 3, 4, 5, 6, 7, 8]), Some(0x0102030405060708));
    assert_eq!(counter_from_key(&key_from_counter(123456789)), Some(123456789));
    assert_eq!(counter_from_key(&[1, 2, 3]), None);
}

struct CountingBuffer(usize);

impl BufferPort for CountingBuffer {
    fn push(&mut self, _i: Interaction) -> Result<(), Error> {
        self.0 += 1;
        Ok(())
    }
    fn pop_batch(&mut self, _size: usize) -> Result<Vec<Interaction>, Error> {
        Ok(Vec::new())
    }
    fn peek(&self, _size: usize) -> Result<Vec<Interaction>, Error> {
        Ok(Vec::new())
    }
    fn len(&self) -> Result<usize, Error> {
        Ok(self.0)
    }
    fn clear(&mut self) -> Result<(), Error> {
        self.0 = 0;
        Ok(())
    }
}

#[test]
fn port_is_empty_follows_len() {
    let mut b = CountingBuffer(0);
    assert_eq!(b.is_empty(), Ok(true));
    b.push(Interaction::new("q".to_string(), "a".to_string())).unwrap();
    assert_eq!(b.is_empty(), Ok(false));
}
