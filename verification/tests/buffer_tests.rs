use tome::{HasLength, Indexed, RingBuffer};

#[test]
fn ring_buffer_overwrites_oldest_when_full() {
    let mut buffer: RingBuffer<char> = RingBuffer::new(Some(3));
    buffer.push('a');
    buffer.push('b');
    buffer.push('c');
    buffer.push('d');
    assert_eq!(buffer.len(), 3);
    // Chronological order after eviction of the oldest element.
    assert_eq!(buffer.most_recent(3), vec![&'b', &'c', &'d']);
    assert_eq!(*buffer.get_recent(0), 'd');
}

#[test]
fn ring_buffer_most_recent_clamps() {
    let mut buffer: RingBuffer<u32> = RingBuffer::new(Some(4));
    buffer.push(1);
    buffer.push(2);
    assert_eq!(buffer.most_recent(10), vec![&1, &2]);
    assert_eq!(buffer.most_recent(1), vec![&2]);
    assert_eq!(buffer.most_recent(0), Vec::<&u32>::new());
}

#[test]
fn ring_buffer_unbounded_keeps_everything() {
    let mut buffer: RingBuffer<u32> = RingBuffer::new(None);
    for i in 0..10 {
        buffer.push(i);
    }
    assert_eq!(buffer.len(), 10);
    assert_eq!(*buffer.get(0), 0);
    assert_eq!(*buffer.get_recent(0), 9);
    assert_eq!(buffer.iter(7), vec![&7, &8, &9]);
}

#[test]
fn ring_buffer_get_and_replace() {
    let mut buffer: RingBuffer<u32> = RingBuffer::new(Some(2));
    buffer.push(1);
    buffer.push(2);
    buffer.push(3);
    // Contents are now [2, 3].
    assert_eq!(*buffer.get(0), 2);
    assert_eq!(*buffer.get(1), 3);
    let prev = buffer.replace_recent(1, 9);
    assert_eq!(prev, 2);
    assert_eq!(buffer.most_recent(2), vec![&9, &3]);
}

#[test]
fn indexed_clamps_at_last_element() {
    let mut buffer: RingBuffer<u32> = RingBuffer::new(None);
    buffer.push(10);
    buffer.push(20);
    buffer.push(30);
    let mut cursor = Indexed::new(buffer);
    assert_eq!(cursor.index(), 0);
    cursor.increment_index(1);
    assert_eq!(cursor.index(), 1);
    cursor.increment_index(100);
    // Clamped at the last element, never at or past the length.
    assert_eq!(cursor.index(), 2);
    cursor.decrement_index(1);
    assert_eq!(cursor.index(), 1);
    cursor.decrement_index(100);
    assert_eq!(cursor.index(), 0);
}

#[test]
fn indexed_stays_below_length_under_growth() {
    let mut cursor = Indexed::new(RingBuffer::<u32>::new(None));
    cursor.data.push(1);
    // Any mix of moves and growth keeps the index below the length.
    for step in 0..50u32 {
        if step % 3 == 0 {
            cursor.data.push(step);
        }
        if step % 2 == 0 {
            cursor.increment_index(2);
        } else {
            cursor.decrement_index(1);
        }
        assert!(cursor.index() < cursor.data.len());
    }
}

#[test]
fn indexed_reset_and_set_index() {
    let mut buffer: RingBuffer<u32> = RingBuffer::new(None);
    for i in 0..5 {
        buffer.push(i);
    }
    let mut cursor = Indexed::new(buffer);
    cursor.set_index(3);
    assert_eq!(cursor.index(), 3);
    cursor.set_index(99);
    assert_eq!(cursor.index(), 4);
    cursor.reset_index();
    assert_eq!(cursor.index(), 0);
}

#[test]
fn indexed_set_limit_caps_and_reclamps() {
    let mut buffer: RingBuffer<u32> = RingBuffer::new(None);
    for i in 0..10 {
        buffer.push(i);
    }
    let mut cursor = Indexed::new(buffer);
    cursor.set_index(8);
    // A viewport-style limit caps the position and re-clamps at once.
    cursor.set_limit(5);
    assert_eq!(cursor.index(), 5);
    cursor.increment_index(3);
    assert_eq!(cursor.index(), 5);
    // A limit past the end still keeps the index below the length.
    cursor.set_limit(50);
    cursor.increment_index(50);
    assert_eq!(cursor.index(), 9);
}

#[test]
fn has_length_reports_buffer_length() {
    let mut buffer: RingBuffer<u32> = RingBuffer::new(None);
    buffer.push(1);
    buffer.push(2);
    assert_eq!(HasLength::len(&buffer), 2);
}
