use quest_shadowplay::RingBuffer;

#[test]
fn test_new_buffer_is_empty() {
    let buffer: RingBuffer<i32> = RingBuffer::new(5);
    assert!(buffer.is_empty());
    assert_eq!(buffer.len(), 0);
    assert_eq!(buffer.capacity(), 5);
}

#[test]
fn test_push_single_item() {
    let mut buffer = RingBuffer::new(5);
    buffer.push(42);

    assert!(!buffer.is_empty());
    assert_eq!(buffer.len(), 1);
    assert_eq!(buffer.peek_newest(), Some(&42));
    assert_eq!(buffer.peek_oldest(), Some(&42));
}

#[test]
fn test_push_multiple_items() {
    let mut buffer = RingBuffer::new(5);

    for i in 1..=3 {
        buffer.push(i);
    }

    assert_eq!(buffer.len(), 3);
    assert_eq!(buffer.peek_oldest(), Some(&1));
    assert_eq!(buffer.peek_newest(), Some(&3));

    let all: Vec<_> = buffer.get_all().into_iter().copied().collect();
    assert_eq!(all, vec![1, 2, 3]);
}

#[test]
fn test_overflow_removes_oldest() {
    let mut buffer = RingBuffer::new(3);

    for i in 1..=5 {
        buffer.push(i);
    }

    assert_eq!(buffer.len(), 3);
    assert_eq!(buffer.peek_oldest(), Some(&3));
    assert_eq!(buffer.peek_newest(), Some(&5));

    let all: Vec<_> = buffer.get_all().into_iter().copied().collect();
    assert_eq!(all, vec![3, 4, 5]);
}

#[test]
fn test_clear() {
    let mut buffer = RingBuffer::new(5);

    for i in 1..=3 {
        buffer.push(i);
    }

    buffer.clear();
    assert!(buffer.is_empty());
    assert_eq!(buffer.len(), 0);
}

#[test]
fn test_is_full() {
    let mut buffer = RingBuffer::new(3);

    assert!(!buffer.is_full());

    buffer.push(1);
    buffer.push(2);
    assert!(!buffer.is_full());

    buffer.push(3);
    assert!(buffer.is_full());

    buffer.push(4);
    assert!(buffer.is_full());
}

#[test]
fn test_iterator() {
    let mut buffer = RingBuffer::new(5);

    for i in 1..=3 {
        buffer.push(i);
    }

    let collected: Vec<_> = buffer.iter().copied().collect();
    assert_eq!(collected, vec![1, 2, 3]);
}

#[test]
fn capacity_five_keeps_last_five_of_eight() {
    let mut buffer = RingBuffer::new(5);
    for i in 1..=8 {
        buffer.push(i);
    }
    let all: Vec<i32> = buffer.get_all().into_iter().copied().collect();
    assert_eq!(all, vec![4, 5, 6, 7, 8]);
}

#[test]
fn capacity_plus_k_pushes_keep_last_capacity() {
    for k in 0..4 {
        let mut buffer = RingBuffer::new(4);
        let items: Vec<u64> = (0..(4 + k)).map(|x| x * 10).collect();
        for &x in &items {
            buffer.push(x);
        }
        let all: Vec<u64> = buffer.get_all().into_iter().copied().collect();
        assert_eq!(all, items[items.len() - 4..].to_vec());
    }
}

#[test]
fn get_all_is_non_destructive() {
    let mut buffer = RingBuffer::new(3);
    buffer.push(7);
    buffer.push(8);
    let first: Vec<i32> = buffer.get_all().into_iter().copied().collect();
    let second: Vec<i32> = buffer.get_all().into_iter().copied().collect();
    assert_eq!(first, second);
    assert_eq!(buffer.len(), 2);
}

#[test]
fn capacity_one_keeps_newest() {
    let mut buffer = RingBuffer::new(1);
    buffer.push(1);
    buffer.push(2);
    assert_eq!(buffer.len(), 1);
    assert_eq!(buffer.peek_oldest(), Some(&2));
    assert_eq!(*buffer.get(0), 2);
}

#[test]
fn empty_buffer_has_no_ends() {
    let buffer: RingBuffer<u8> = RingBuffer::new(2);
    assert_eq!(buffer.peek_oldest(), None);
    assert_eq!(buffer.peek_newest(), None);
}
